//! Dispatch over every message kind, by lookahead on the leading bytes.
use vstd::prelude::*;

use super::cmd::{
    cmd_error, set_date_of, set_date_wire, set_time_of, set_time_wire, Ws6in1SetDate,
    Ws6in1SetTime, CMD_LENGTH, CMD_TYPE, SET_DATE_OPCODE, SET_TIME_OPCODE,
};
use super::data::{
    frame_content_of, frame_error, frame_header_of, frame_wire, Ws6in1DataFrameBase,
    FRAME_LENGTH, FRAME_TYPE, MAX_PAYLOAD_LEN,
};
use super::frame::{too_small, Ws6in1Serde};
use crate::container::Ws6in1Container;
use crate::cursor::{Cursor, WriteCursor};
use crate::error::{Error, Result};

verus! {

/// Container that can hold any supported Ws6in1 message.
#[derive(Clone, Debug, PartialEq, Eq)]
pub enum AnyWs6in1MessageBase<V> {
    DataFrame(Ws6in1DataFrameBase<V>),
    SetDate(Ws6in1SetDate),
    SetTime(Ws6in1SetTime),
}

/// The error that decoding a message of any kind from `rest` gives, if any.
pub open spec fn any_error(pos: nat, rest: Seq<u8>) -> Option<Error> {
    if rest.len() < 1 {
        Some(too_small(pos, rest, 1))
    } else if rest[0] == CMD_TYPE {
        if rest.len() < CMD_LENGTH {
            Some(too_small(pos, rest, CMD_LENGTH as nat))
        } else if rest[1] == SET_DATE_OPCODE {
            cmd_error(pos, rest, SET_DATE_OPCODE)
        } else if rest[1] == SET_TIME_OPCODE {
            cmd_error(pos, rest, SET_TIME_OPCODE)
        } else {
            Some(Error::UnsupportedOpcode { opcode: rest[1] })
        }
    } else if rest[0] == FRAME_TYPE {
        frame_error(pos, rest)
    } else {
        Some(Error::UnsupportedType { frame_type: rest[0] })
    }
}

/// The leading bytes alone show that `rest` holds no message: it is empty,
/// starts with an unknown type, or is a command too short or with an unknown
/// opcode.
pub open spec fn lookahead_fails(rest: Seq<u8>) -> bool {
    ||| rest.len() < 1
    ||| (rest[0] != CMD_TYPE && rest[0] != FRAME_TYPE)
    ||| (rest[0] == CMD_TYPE && (rest.len() < CMD_LENGTH || (rest[1] != SET_DATE_OPCODE && rest[1]
        != SET_TIME_OPCODE)))
}

impl<V: Ws6in1Container> AnyWs6in1MessageBase<V> {
    /// Length of the message on the wire.
    pub open spec fn wire_len(&self) -> nat {
        match self {
            AnyWs6in1MessageBase::DataFrame(_) => FRAME_LENGTH as nat,
            _ => CMD_LENGTH as nat,
        }
    }

    /// The message can be encoded: a payload holds at most 54 bytes.
    pub open spec fn encodable(&self) -> bool {
        match self {
            AnyWs6in1MessageBase::DataFrame(f) => f.payload.content().len() <= MAX_PAYLOAD_LEN,
            _ => true,
        }
    }

    /// The error of a message that cannot be encoded.
    pub open spec fn too_large(&self) -> Error {
        match self {
            AnyWs6in1MessageBase::DataFrame(f) => Error::PayloadTooLarge {
                len: f.payload.content().len() as usize,
            },
            _ => Error::PayloadTooLarge { len: 0 },
        }
    }

    /// Wire form of the message.
    pub open spec fn wire(&self) -> Seq<u8> {
        match self {
            AnyWs6in1MessageBase::DataFrame(f) => frame_wire(f.hdr, f.payload.content()),
            AnyWs6in1MessageBase::SetDate(d) => set_date_wire(*d),
            AnyWs6in1MessageBase::SetTime(t) => set_time_wire(*t),
        }
    }

    /// The message that a frame `b` without error holds.
    pub open spec fn decoded_from(&self, b: Seq<u8>) -> bool {
        match self {
            AnyWs6in1MessageBase::DataFrame(f) => {
                &&& b[0] == FRAME_TYPE
                &&& f.hdr == frame_header_of(b)
                &&& f.payload.content() == frame_content_of(b)
            },
            AnyWs6in1MessageBase::SetDate(d) => b[0] == CMD_TYPE && b[1] == SET_DATE_OPCODE && *d
                == set_date_of(b),
            AnyWs6in1MessageBase::SetTime(t) => b[0] == CMD_TYPE && b[1] == SET_TIME_OPCODE && *t
                == set_time_of(b),
        }
    }

    /// Writes the message; on failure nothing is written.
    pub fn serialize(&self, buffer: &mut WriteCursor) -> (r: Result<()>)
        requires
            old(buffer).wf(),
            old(buffer).pos() + FRAME_LENGTH <= usize::MAX,
        ensures
            final(buffer).wf(),
            old(buffer).room() < self.wire_len() ==> r == Err::<(), Error>(
                too_small(old(buffer).pos(), old(buffer).data().skip(old(buffer).pos() as int), self.wire_len()),
            ),
            old(buffer).room() >= self.wire_len() && !self.encodable() ==> r == Err::<(), Error>(
                self.too_large(),
            ),
            old(buffer).room() >= self.wire_len() && self.encodable() ==> r is Ok,
            r is Err ==> *final(buffer) == *old(buffer),
            r is Ok ==> {
                &&& old(buffer).room() >= self.wire_len()
                &&& self.encodable()
                &&& final(buffer).data() == old(buffer).written(self.wire())
                &&& final(buffer).pos() == old(buffer).pos() + self.wire_len()
            },
    {
        match self {
            AnyWs6in1MessageBase::DataFrame(x) => x.serialize(buffer),
            AnyWs6in1MessageBase::SetDate(x) => x.serialize(buffer),
            AnyWs6in1MessageBase::SetTime(x) => x.serialize(buffer),
        }
    }

    /// Reads one message of any kind, which must fill the rest of the buffer.
    ///
    /// The leading type byte, and for commands the opcode, are looked at
    /// before the matching decoder consumes the buffer.
    pub fn deserialize(buffer: &mut Cursor) -> (r: Result<Self>)
        requires
            old(buffer).pos() + FRAME_LENGTH <= usize::MAX,
            V::capacity() >= MAX_PAYLOAD_LEN,
        ensures
            final(buffer).data() == old(buffer).data(),
            match r {
                Ok(m) => {
                    &&& any_error(old(buffer).pos(), old(buffer).rest()) is None
                    &&& m.decoded_from(old(buffer).rest())
                    &&& final(buffer).pos() == old(buffer).pos() + m.wire_len()
                },
                Err(e) => any_error(old(buffer).pos(), old(buffer).rest()) == Some(e),
            },
            r is Err && lookahead_fails(old(buffer).rest()) ==> final(buffer).pos() == old(
                buffer,
            ).pos(),
    {
        if let Err(e) = buffer.check_remaining(1) {
            return Err(e);
        }
        let frame_type = buffer.peek_u8(0);
        if frame_type == CMD_TYPE {
            if let Err(e) = buffer.check_remaining(CMD_LENGTH) {
                return Err(e);
            }
            let opcode = buffer.peek_u8(1);
            if opcode == SET_DATE_OPCODE {
                match Ws6in1SetDate::deserialize(buffer) {
                    Ok(d) => Ok(AnyWs6in1MessageBase::SetDate(d)),
                    Err(e) => Err(e),
                }
            } else if opcode == SET_TIME_OPCODE {
                match Ws6in1SetTime::deserialize(buffer) {
                    Ok(t) => Ok(AnyWs6in1MessageBase::SetTime(t)),
                    Err(e) => Err(e),
                }
            } else {
                Err(Error::UnsupportedOpcode { opcode })
            }
        } else if frame_type == FRAME_TYPE {
            match Ws6in1DataFrameBase::<V>::deserialize(buffer) {
                Ok(f) => Ok(AnyWs6in1MessageBase::DataFrame(f)),
                Err(e) => Err(e),
            }
        } else {
            Err(Error::UnsupportedType { frame_type })
        }
    }
}

impl<V: Ws6in1Container> Ws6in1Serde for AnyWs6in1MessageBase<V> {
    open spec fn decodable() -> bool {
        V::capacity() >= MAX_PAYLOAD_LEN
    }

    open spec fn wire_of(&self) -> Option<Seq<u8>> {
        if self.encodable() {
            Some(self.wire())
        } else {
            None
        }
    }

    open spec fn decode_error(pos: nat, rest: Seq<u8>) -> Option<Error> {
        any_error(pos, rest)
    }

    open spec fn decodes_to(rest: Seq<u8>, v: Self) -> bool {
        v.decoded_from(rest)
    }

    fn serialize(&self, buffer: &mut WriteCursor) -> (r: Result<()>) {
        AnyWs6in1MessageBase::<V>::serialize(self, buffer)
    }

    fn deserialize(buffer: &mut Cursor) -> (r: Result<Self>) {
        AnyWs6in1MessageBase::<V>::deserialize(buffer)
    }
}

/// Size of the output report buffer of the device.
pub const REPORT_SIZE: usize = 128;

/// Report ID of output reports.
pub const REPORT_ID: u8 = 0x00;

impl<V: Ws6in1Container> AnyWs6in1MessageBase<V> {
    /// The output report that sends the message: the report ID, then the
    /// message.
    pub fn to_report(&self) -> (r: Result<Vec<u8>>)
        ensures
            self.encodable() ==> (r matches Ok(v) && v@ == seq![REPORT_ID] + self.wire()),
            !self.encodable() ==> r == Err::<Vec<u8>, Error>(self.too_large()),
    {
        let mut buffer: Vec<u8> = Vec::new();
        let mut i: usize = 0;
        while i < REPORT_SIZE
            invariant
                i <= REPORT_SIZE,
                buffer@.len() == i,
            decreases REPORT_SIZE - i,
        {
            buffer.push(0u8);
            i = i + 1;
        }
        let mut cursor = WriteCursor::new(buffer);
        cursor.write_u8(REPORT_ID);
        assert(cursor.data().len() == REPORT_SIZE);
        assert(cursor.room() == REPORT_SIZE - 1);
        if let Err(e) = self.serialize(&mut cursor) {
            return Err(e);
        }
        let len = cursor.position();
        let all = cursor.into_inner();
        let mut out: Vec<u8> = Vec::new();
        let mut k: usize = 0;
        while k < len
            invariant
                k <= len <= all@.len(),
                out@ == all@.take(k as int),
            decreases len - k,
        {
            out.push(all[k]);
            k = k + 1;
        }
        proof {
            assert(all@.take(len as int) =~= seq![REPORT_ID] + self.wire()) by {
                assert(all@[0] == REPORT_ID);
            }
        }
        Ok(out)
    }
}

/// A message backed by a growable vector.
pub type AnyWs6in1Message = AnyWs6in1MessageBase<Vec<u8>>;

/// A message backed by a fixed-capacity vector.
pub type AnyWs6in1MessageHeapless = AnyWs6in1MessageBase<heapless::Vec<u8, 54>>;

} // verus!
