//! Clock-set commands sent to the console.
use vstd::prelude::*;

use super::frame::{footer_error, too_small, Ws6in1Footer, Ws6in1Serde, FOOTER_MAGIC};
use crate::cursor::{Cursor, WriteCursor};
use crate::error::{Error, Result};

verus! {

/// Length of a command frame in bytes.
pub const CMD_LENGTH: usize = 8;

/// Type byte that starts a command frame.
pub const CMD_TYPE: u8 = 0xFC;

/// Opcode of the set date command.
pub const SET_DATE_OPCODE: u8 = 0x08;

/// Opcode of the set time command.
pub const SET_TIME_OPCODE: u8 = 0x09;

/// Wire form of a command with the given opcode and parameters.
pub open spec fn cmd_wire(opcode: u8, a: u8, b: u8, c: u8) -> Seq<u8> {
    seq![CMD_TYPE, opcode, a, b, c, 0u8, 0u8, FOOTER_MAGIC]
}

/// The error that decoding a command with `opcode` from `rest` gives, if any.
///
/// A wrong opcode is reported as an unsupported type, with the type byte.
pub open spec fn cmd_error(pos: nat, rest: Seq<u8>, opcode: u8) -> Option<Error> {
    if rest.len() < CMD_LENGTH {
        Some(too_small(pos, rest, CMD_LENGTH as nat))
    } else if rest[0] != CMD_TYPE {
        Some(Error::UnsupportedType { frame_type: rest[0] })
    } else if rest[1] != opcode {
        Some(Error::UnsupportedType { frame_type: rest[0] })
    } else {
        footer_error(pos + 5, rest.skip(5))
    }
}

/// Writes a command frame; on failure nothing is written.
fn write_cmd(buffer: &mut WriteCursor, opcode: u8, a: u8, b: u8, c: u8) -> (r: Result<()>)
    requires
        old(buffer).wf(),
        old(buffer).pos() + CMD_LENGTH <= usize::MAX,
    ensures
        final(buffer).wf(),
        old(buffer).room() < CMD_LENGTH ==> {
            &&& r == Err::<(), Error>(
                too_small(old(buffer).pos(), old(buffer).data().skip(old(buffer).pos() as int), CMD_LENGTH as nat),
            )
            &&& *final(buffer) == *old(buffer)
        },
        old(buffer).room() >= CMD_LENGTH ==> {
            &&& r is Ok
            &&& final(buffer).data() == old(buffer).written(cmd_wire(opcode, a, b, c))
            &&& final(buffer).pos() == old(buffer).pos() + CMD_LENGTH
        },
{
    if let Err(e) = buffer.check_remaining(CMD_LENGTH) {
        return Err(e);
    }
    let bytes: [u8; 8] = [CMD_TYPE, opcode, a, b, c, 0, 0, FOOTER_MAGIC];
    assert(bytes@ == cmd_wire(opcode, a, b, c));
    buffer.write_bytes(&bytes);
    Ok(())
}

/// Reads a command frame with the given opcode, which must fill the rest of
/// the buffer, and gives its three parameters.
fn read_cmd(buffer: &mut Cursor, opcode: u8) -> (r: Result<(u8, u8, u8)>)
    requires
        old(buffer).pos() + CMD_LENGTH <= usize::MAX,
    ensures
        final(buffer).data() == old(buffer).data(),
        match r {
            Ok(p) => {
                &&& cmd_error(old(buffer).pos(), old(buffer).rest(), opcode) is None
                &&& p == (old(buffer).rest()[2], old(buffer).rest()[3], old(buffer).rest()[4])
                &&& final(buffer).pos() == old(buffer).pos() + CMD_LENGTH
                &&& final(buffer).rest().len() == 0
            },
            Err(e) => cmd_error(old(buffer).pos(), old(buffer).rest(), opcode) == Some(e),
        },
{
    if let Err(e) = buffer.check_remaining(CMD_LENGTH) {
        return Err(e);
    }
    let ghost rest = buffer.rest();
    let frame_type = buffer.read_u8();
    if frame_type != CMD_TYPE {
        return Err(Error::UnsupportedType { frame_type });
    }
    let op = buffer.read_u8();
    if op != opcode {
        return Err(Error::UnsupportedType { frame_type });
    }
    let a = buffer.read_u8();
    let b = buffer.read_u8();
    let c = buffer.read_u8();
    proof {
        assert(rest.skip(1).skip(1).skip(1).skip(1).skip(1) =~= rest.skip(5));
    }
    match Ws6in1Footer::deserialize(buffer) {
        Ok(_) => Ok((a, b, c)),
        Err(e) => Err(e),
    }
}

/// Ws6in1 set date command.
#[derive(Debug, Clone, Copy, Default, PartialEq, Eq, Structural)]
pub struct Ws6in1SetDate {
    pub day: u8,
    pub month: u8,
    /// Year of the century, 0 to 99.
    pub year: u8,
}

/// Wire form of a set date command: year, month, day.
pub open spec fn set_date_wire(d: Ws6in1SetDate) -> Seq<u8> {
    cmd_wire(SET_DATE_OPCODE, d.year, d.month, d.day)
}

/// The set date command that a well-formed frame `b` holds.
pub open spec fn set_date_of(b: Seq<u8>) -> Ws6in1SetDate {
    Ws6in1SetDate { year: b[2], month: b[3], day: b[4] }
}

impl Ws6in1SetDate {
    pub const OPCODE: u8 = 0x08;

    /// The command for a calendar date; the year is sent modulo 100.
    pub fn from_calendar(year: i32, month: u8, day: u8) -> (r: Self)
        ensures
            r.day == day,
            r.month == month,
            r.year == year % 100,
    {
        let mut y = year % 100;
        if y < 0 {
            y = y + 100;
        }
        Ws6in1SetDate { day, month, year: y as u8 }
    }

    /// Writes the command.
    pub fn serialize(&self, buffer: &mut WriteCursor) -> (r: Result<()>)
        requires
            old(buffer).wf(),
            old(buffer).pos() + CMD_LENGTH <= usize::MAX,
        ensures
            final(buffer).wf(),
            old(buffer).room() < CMD_LENGTH ==> {
                &&& r == Err::<(), Error>(
                    too_small(old(buffer).pos(), old(buffer).data().skip(old(buffer).pos() as int), CMD_LENGTH as nat),
                )
                &&& *final(buffer) == *old(buffer)
            },
            old(buffer).room() >= CMD_LENGTH ==> {
                &&& r is Ok
                &&& final(buffer).data() == old(buffer).written(set_date_wire(*self))
                &&& final(buffer).pos() == old(buffer).pos() + CMD_LENGTH
            },
    {
        write_cmd(buffer, SET_DATE_OPCODE, self.year, self.month, self.day)
    }

    /// Reads the command, which must fill the rest of the buffer.
    pub fn deserialize(buffer: &mut Cursor) -> (r: Result<Self>)
        requires
            old(buffer).pos() + CMD_LENGTH <= usize::MAX,
        ensures
            final(buffer).data() == old(buffer).data(),
            match r {
                Ok(d) => {
                    &&& cmd_error(old(buffer).pos(), old(buffer).rest(), SET_DATE_OPCODE) is None
                    &&& d == set_date_of(old(buffer).rest())
                    &&& final(buffer).pos() == old(buffer).pos() + CMD_LENGTH
                },
                Err(e) => cmd_error(old(buffer).pos(), old(buffer).rest(), SET_DATE_OPCODE) == Some(e),
            },
    {
        match read_cmd(buffer, SET_DATE_OPCODE) {
            Ok((year, month, day)) => Ok(Ws6in1SetDate { day, month, year }),
            Err(e) => Err(e),
        }
    }
}

/// Ws6in1 set time command.
#[derive(Debug, Clone, Copy, Default, PartialEq, Eq, Structural)]
pub struct Ws6in1SetTime {
    pub hour: u8,
    pub min: u8,
    pub sec: u8,
}

/// Wire form of a set time command: hour, minute, second.
pub open spec fn set_time_wire(t: Ws6in1SetTime) -> Seq<u8> {
    cmd_wire(SET_TIME_OPCODE, t.hour, t.min, t.sec)
}

/// The set time command that a well-formed frame `b` holds.
pub open spec fn set_time_of(b: Seq<u8>) -> Ws6in1SetTime {
    Ws6in1SetTime { hour: b[2], min: b[3], sec: b[4] }
}

impl Ws6in1SetTime {
    pub const OPCODE: u8 = 0x09;

    /// Writes the command.
    pub fn serialize(&self, buffer: &mut WriteCursor) -> (r: Result<()>)
        requires
            old(buffer).wf(),
            old(buffer).pos() + CMD_LENGTH <= usize::MAX,
        ensures
            final(buffer).wf(),
            old(buffer).room() < CMD_LENGTH ==> {
                &&& r == Err::<(), Error>(
                    too_small(old(buffer).pos(), old(buffer).data().skip(old(buffer).pos() as int), CMD_LENGTH as nat),
                )
                &&& *final(buffer) == *old(buffer)
            },
            old(buffer).room() >= CMD_LENGTH ==> {
                &&& r is Ok
                &&& final(buffer).data() == old(buffer).written(set_time_wire(*self))
                &&& final(buffer).pos() == old(buffer).pos() + CMD_LENGTH
            },
    {
        write_cmd(buffer, SET_TIME_OPCODE, self.hour, self.min, self.sec)
    }

    /// Reads the command, which must fill the rest of the buffer.
    pub fn deserialize(buffer: &mut Cursor) -> (r: Result<Self>)
        requires
            old(buffer).pos() + CMD_LENGTH <= usize::MAX,
        ensures
            final(buffer).data() == old(buffer).data(),
            match r {
                Ok(t) => {
                    &&& cmd_error(old(buffer).pos(), old(buffer).rest(), SET_TIME_OPCODE) is None
                    &&& t == set_time_of(old(buffer).rest())
                    &&& final(buffer).pos() == old(buffer).pos() + CMD_LENGTH
                },
                Err(e) => cmd_error(old(buffer).pos(), old(buffer).rest(), SET_TIME_OPCODE) == Some(e),
            },
    {
        match read_cmd(buffer, SET_TIME_OPCODE) {
            Ok((hour, min, sec)) => Ok(Ws6in1SetTime { hour, min, sec }),
            Err(e) => Err(e),
        }
    }
}

impl Ws6in1Serde for Ws6in1SetDate {
    open spec fn decodable() -> bool {
        true
    }

    open spec fn wire_of(&self) -> Option<Seq<u8>> {
        Some(set_date_wire(*self))
    }

    open spec fn decode_error(pos: nat, rest: Seq<u8>) -> Option<Error> {
        cmd_error(pos, rest, SET_DATE_OPCODE)
    }

    open spec fn decodes_to(rest: Seq<u8>, v: Self) -> bool {
        v == set_date_of(rest)
    }

    fn serialize(&self, buffer: &mut WriteCursor) -> (r: Result<()>) {
        Ws6in1SetDate::serialize(self, buffer)
    }

    fn deserialize(buffer: &mut Cursor) -> (r: Result<Self>) {
        Ws6in1SetDate::deserialize(buffer)
    }
}

impl Ws6in1Serde for Ws6in1SetTime {
    open spec fn decodable() -> bool {
        true
    }

    open spec fn wire_of(&self) -> Option<Seq<u8>> {
        Some(set_time_wire(*self))
    }

    open spec fn decode_error(pos: nat, rest: Seq<u8>) -> Option<Error> {
        cmd_error(pos, rest, SET_TIME_OPCODE)
    }

    open spec fn decodes_to(rest: Seq<u8>, v: Self) -> bool {
        v == set_time_of(rest)
    }

    fn serialize(&self, buffer: &mut WriteCursor) -> (r: Result<()>) {
        Ws6in1SetTime::serialize(self, buffer)
    }

    fn deserialize(buffer: &mut Cursor) -> (r: Result<Self>) {
        Ws6in1SetTime::deserialize(buffer)
    }
}

} // verus!
