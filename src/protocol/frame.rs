//! The footer that ends every frame.
use vstd::prelude::*;

use crate::cursor::{Cursor, WriteCursor};
use crate::error::{BufferTooSmall, Error, Result};

verus! {

/// Length of the footer in bytes.
pub const FOOTER_LENGTH: usize = 3;

/// Magic value in the last byte of every frame.
pub const FOOTER_MAGIC: u8 = 0xFD;

/// The error of a buffer that holds `rest.len()` bytes after position `pos`
/// where `n` are needed.
pub open spec fn too_small(pos: nat, rest: Seq<u8>, n: nat) -> Error {
    Error::BufferTooSmall(
        BufferTooSmall { size: (pos + rest.len()) as usize, expected: (pos + n) as usize },
    )
}

/// Wire form of the footer: an ignored checksum and the magic value.
pub open spec fn footer_wire() -> Seq<u8> {
    seq![0u8, 0u8, FOOTER_MAGIC]
}

/// The error that decoding a footer from `rest` gives, if any.
///
/// The footer ends a frame, so no byte may follow it.
pub open spec fn footer_error(pos: nat, rest: Seq<u8>) -> Option<Error> {
    if rest.len() < FOOTER_LENGTH {
        Some(too_small(pos, rest, FOOTER_LENGTH as nat))
    } else if rest[2] != FOOTER_MAGIC {
        Some(Error::InvalidMagic { magic: rest[2] })
    } else if rest.len() > FOOTER_LENGTH {
        Some(Error::BufferNotConsumed { trailing: (rest.len() - FOOTER_LENGTH) as usize })
    } else {
        None
    }
}

/// Interface for (de)serialization of Ws6in1 messages and their parts.
pub trait Ws6in1Serde: Sized {
    /// Values of the type can be decoded: a payload needs a container that
    /// holds 54 bytes.
    spec fn decodable() -> bool;

    /// Wire form of the value, or `None` where it cannot be encoded.
    spec fn wire_of(&self) -> Option<Seq<u8>>;

    /// The error that decoding from `rest`, at buffer position `pos`, gives.
    spec fn decode_error(pos: nat, rest: Seq<u8>) -> Option<Error>;

    /// `v` is the value that decoding `rest` without error gives.
    spec fn decodes_to(rest: Seq<u8>, v: Self) -> bool;

    /// Serialize the value into the buffer; on failure nothing is written.
    fn serialize(&self, buffer: &mut WriteCursor) -> (r: Result<()>)
        requires
            old(buffer).wf(),
            old(buffer).pos() + 64 <= usize::MAX,
        ensures
            final(buffer).wf(),
            r is Err ==> *final(buffer) == *old(buffer),
            r is Ok ==> (self.wire_of() matches Some(b) && final(buffer).data() == old(
                buffer,
            ).written(b) && final(buffer).pos() == old(buffer).pos() + b.len()),
            (self.wire_of() matches Some(b) && old(buffer).room() >= b.len()) ==> r is Ok,
    ;

    /// Deserialize a value from the buffer.
    fn deserialize(buffer: &mut Cursor) -> (r: Result<Self>)
        requires
            old(buffer).pos() + 64 <= usize::MAX,
            Self::decodable(),
        ensures
            final(buffer).data() == old(buffer).data(),
            match r {
                Ok(v) => Self::decode_error(old(buffer).pos(), old(buffer).rest()) is None
                    && Self::decodes_to(old(buffer).rest(), v),
                Err(e) => Self::decode_error(old(buffer).pos(), old(buffer).rest()) == Some(e),
            },
    ;
}

/// Footer marker at the end of a Ws6in1 frame.
#[derive(Debug, Clone, Copy, Default, PartialEq, Eq, Structural)]
pub struct Ws6in1Footer {}

impl Ws6in1Footer {
    pub const LENGTH: usize = 3;

    pub const MAGIC: u8 = 0xFD;

    /// Writes the footer.
    pub fn serialize(&self, buffer: &mut WriteCursor) -> (r: Result<()>)
        requires
            old(buffer).wf(),
            old(buffer).pos() + FOOTER_LENGTH <= usize::MAX,
        ensures
            final(buffer).wf(),
            old(buffer).room() < FOOTER_LENGTH ==> {
                &&& r == Err::<(), Error>(
                    too_small(old(buffer).pos(), old(buffer).data().skip(old(buffer).pos() as int), FOOTER_LENGTH as nat),
                )
                &&& *final(buffer) == *old(buffer)
            },
            old(buffer).room() >= FOOTER_LENGTH ==> {
                &&& r is Ok
                &&& final(buffer).data() == old(buffer).written(footer_wire())
                &&& final(buffer).pos() == old(buffer).pos() + FOOTER_LENGTH
            },
    {
        if let Err(e) = buffer.check_remaining(FOOTER_LENGTH) {
            return Err(e);
        }
        let bytes: [u8; 3] = [0, 0, FOOTER_MAGIC];
        buffer.write_bytes(&bytes);
        assert(bytes@ == footer_wire());
        Ok(())
    }

    /// Reads a footer, which must end the buffer.
    pub fn deserialize(buffer: &mut Cursor) -> (r: Result<Self>)
        requires
            old(buffer).pos() + FOOTER_LENGTH <= usize::MAX,
        ensures
            final(buffer).data() == old(buffer).data(),
            match r {
                Ok(_) => {
                    &&& footer_error(old(buffer).pos(), old(buffer).rest()) is None
                    &&& final(buffer).pos() == old(buffer).pos() + FOOTER_LENGTH
                    &&& final(buffer).rest().len() == 0
                },
                Err(e) => footer_error(old(buffer).pos(), old(buffer).rest()) == Some(e),
            },
    {
        if let Err(e) = buffer.check_remaining(FOOTER_LENGTH) {
            return Err(e);
        }
        let _crc = buffer.read_u16_be();
        let magic = buffer.read_u8();
        if magic != FOOTER_MAGIC {
            return Err(Error::InvalidMagic { magic });
        }
        let trailing = buffer.remaining();
        if trailing != 0 {
            return Err(Error::BufferNotConsumed { trailing });
        }
        Ok(Ws6in1Footer {})
    }
}

impl Ws6in1Serde for Ws6in1Footer {
    open spec fn decodable() -> bool {
        true
    }

    open spec fn wire_of(&self) -> Option<Seq<u8>> {
        Some(footer_wire())
    }

    open spec fn decode_error(pos: nat, rest: Seq<u8>) -> Option<Error> {
        footer_error(pos, rest)
    }

    open spec fn decodes_to(rest: Seq<u8>, v: Self) -> bool {
        true
    }

    fn serialize(&self, buffer: &mut WriteCursor) -> (r: Result<()>) {
        Ws6in1Footer::serialize(self, buffer)
    }

    fn deserialize(buffer: &mut Cursor) -> (r: Result<Self>) {
        Ws6in1Footer::deserialize(buffer)
    }
}

} // verus!
