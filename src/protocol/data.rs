//! Data frames: a header, a payload fragment and the footer.
use vstd::prelude::*;

use super::frame::{
    footer_error, footer_wire, too_small, Ws6in1Footer, Ws6in1Serde, FOOTER_MAGIC,
};
use crate::container::Ws6in1Container;
use crate::cursor::{be_u16, u16_be_bytes, Cursor, WriteCursor};
use crate::error::{Error, Result};

verus! {

/// Length of a data header in bytes.
pub const HEADER_LENGTH: usize = 5;

/// Length of a payload on the wire: a length byte and the padded data.
pub const PAYLOAD_LENGTH: usize = 55;

/// Largest number of data bytes in one payload.
pub const MAX_PAYLOAD_LEN: usize = 54;

/// Length of a data frame in bytes.
pub const FRAME_LENGTH: usize = 64;

/// Type byte that starts a data frame.
pub const FRAME_TYPE: u8 = 0xFE;

/// Ws6in1 data frame header.
#[derive(Debug, Clone, Copy, Default, PartialEq, Eq, Structural)]
pub struct Ws6in1DataHeader {
    /// Total item count in this stream, usually zero.
    pub item_cnt: u16,
    /// Item index, usually zero.
    pub item_idx: u16,
    /// Total fragment count of this item, a 4 bit value.
    pub frag_cnt: u8,
    /// One based fragment index, a 4 bit value.
    pub frag_idx: u8,
}

/// The byte that packs fragment count and index.
pub open spec fn frag_byte(cnt: u8, idx: u8) -> u8 {
    (cnt << 4u8) | idx
}

/// Wire form of a data header.
pub open spec fn header_wire(h: Ws6in1DataHeader) -> Seq<u8> {
    u16_be_bytes(h.item_cnt) + u16_be_bytes(h.item_idx) + seq![frag_byte(h.frag_cnt, h.frag_idx)]
}

/// The header that the first five bytes of `b` encode.
pub open spec fn header_of(b: Seq<u8>) -> Ws6in1DataHeader {
    Ws6in1DataHeader {
        item_cnt: be_u16(b[0], b[1]),
        item_idx: be_u16(b[2], b[3]),
        frag_cnt: (b[4] & 0xF0u8) >> 4u8,
        frag_idx: b[4] & 0x0Fu8,
    }
}

/// Fragment count and index both fit in four bits.
pub open spec fn header_valid(h: Ws6in1DataHeader) -> bool {
    h.frag_cnt < 16 && h.frag_idx < 16
}

/// `n` zero bytes.
pub open spec fn zeros(n: nat) -> Seq<u8> {
    Seq::new(n, |i: int| 0u8)
}

/// Wire form of a payload with the given content of at most 54 bytes.
pub open spec fn payload_wire(content: Seq<u8>) -> Seq<u8> {
    seq![content.len() as u8] + content + zeros((MAX_PAYLOAD_LEN - content.len()) as nat)
}

/// The error that decoding a payload from `rest` gives, if any.
pub open spec fn payload_error(pos: nat, rest: Seq<u8>) -> Option<Error> {
    if rest.len() < PAYLOAD_LENGTH {
        Some(too_small(pos, rest, PAYLOAD_LENGTH as nat))
    } else if rest[0] > MAX_PAYLOAD_LEN {
        Some(Error::PayloadTooLarge { len: rest[0] as usize })
    } else {
        None
    }
}

/// The content of the payload that starts `b`.
pub open spec fn payload_of(b: Seq<u8>) -> Seq<u8> {
    b.subrange(1, 1 + b[0] as int)
}

/// Wire form of a data frame.
pub open spec fn frame_wire(h: Ws6in1DataHeader, content: Seq<u8>) -> Seq<u8> {
    seq![FRAME_TYPE] + header_wire(h) + payload_wire(content) + footer_wire()
}

/// The error that decoding a data frame from `rest` gives, if any.
pub open spec fn frame_error(pos: nat, rest: Seq<u8>) -> Option<Error> {
    if rest.len() < FRAME_LENGTH {
        Some(too_small(pos, rest, FRAME_LENGTH as nat))
    } else if rest[0] != FRAME_TYPE {
        Some(Error::UnsupportedType { frame_type: rest[0] })
    } else if rest[6] > MAX_PAYLOAD_LEN {
        Some(Error::PayloadTooLarge { len: rest[6] as usize })
    } else {
        footer_error(pos + 61, rest.skip(61))
    }
}

/// The header of the data frame that `b` holds.
pub open spec fn frame_header_of(b: Seq<u8>) -> Ws6in1DataHeader {
    header_of(b.subrange(1, 6))
}

/// The payload content of the data frame that `b` holds.
pub open spec fn frame_content_of(b: Seq<u8>) -> Seq<u8> {
    payload_of(b.subrange(6, 61))
}

impl Ws6in1DataHeader {
    pub const LENGTH: usize = 5;

    /// Wire form of the header.
    pub fn to_bytes(&self) -> (r: Vec<u8>)
        ensures
            r@ == header_wire(*self),
    {
        let mut v: Vec<u8> = Vec::new();
        v.push((self.item_cnt / 256) as u8);
        v.push((self.item_cnt % 256) as u8);
        v.push((self.item_idx / 256) as u8);
        v.push((self.item_idx % 256) as u8);
        v.push(self.frag_cnt << 4u8 | self.frag_idx);
        assert(v@ =~= header_wire(*self));
        v
    }

    /// Writes the header.
    pub fn serialize(&self, buffer: &mut WriteCursor) -> (r: Result<()>)
        requires
            old(buffer).wf(),
            old(buffer).pos() + HEADER_LENGTH <= usize::MAX,
        ensures
            final(buffer).wf(),
            old(buffer).room() < HEADER_LENGTH ==> {
                &&& r == Err::<(), Error>(
                    too_small(old(buffer).pos(), old(buffer).data().skip(old(buffer).pos() as int), HEADER_LENGTH as nat),
                )
                &&& *final(buffer) == *old(buffer)
            },
            old(buffer).room() >= HEADER_LENGTH ==> {
                &&& r is Ok
                &&& final(buffer).data() == old(buffer).written(header_wire(*self))
                &&& final(buffer).pos() == old(buffer).pos() + HEADER_LENGTH
            },
    {
        if let Err(e) = buffer.check_remaining(HEADER_LENGTH) {
            return Err(e);
        }
        let bytes = self.to_bytes();
        buffer.write_bytes(bytes.as_slice());
        Ok(())
    }

    /// Reads a header.
    pub fn deserialize(buffer: &mut Cursor) -> (r: Result<Self>)
        requires
            old(buffer).pos() + HEADER_LENGTH <= usize::MAX,
        ensures
            final(buffer).data() == old(buffer).data(),
            old(buffer).rest().len() < HEADER_LENGTH ==> r == Err::<Self, Error>(
                too_small(old(buffer).pos(), old(buffer).rest(), HEADER_LENGTH as nat),
            ),
            old(buffer).rest().len() >= HEADER_LENGTH ==> {
                &&& r == Ok::<Self, Error>(header_of(old(buffer).rest()))
                &&& final(buffer).pos() == old(buffer).pos() + HEADER_LENGTH
                &&& final(buffer).rest() == old(buffer).rest().skip(HEADER_LENGTH as int)
            },
    {
        if let Err(e) = buffer.check_remaining(HEADER_LENGTH) {
            return Err(e);
        }
        let item_cnt = buffer.read_u16_be();
        let item_idx = buffer.read_u16_be();
        let frag = buffer.read_u8();
        let frag_cnt = (frag & 0xF0u8) >> 4u8;
        let frag_idx = frag & 0x0Fu8;
        proof {
            assert(old(buffer).rest().skip(2).skip(2) =~= old(buffer).rest().skip(4));
            assert(old(buffer).rest().skip(4).skip(1) =~= old(buffer).rest().skip(5));
        }
        Ok(Ws6in1DataHeader { item_cnt, item_idx, frag_cnt, frag_idx })
    }
}

/// Ws6in1 payload fragment.
#[derive(Debug, Clone, Default, PartialEq, Eq)]
pub struct Ws6in1PayloadBase<V> {
    pub data: V,
}

impl<V: Ws6in1Container> Ws6in1PayloadBase<V> {
    pub const LENGTH: usize = 55;

    pub const MAX_PAYLOAD_LEN: usize = 54;

    /// The bytes the payload carries.
    pub open spec fn content(&self) -> Seq<u8> {
        self.data.contents()
    }

    /// Wire form of the payload, which fails if the content is too long.
    pub fn to_bytes(&self) -> (r: Result<Vec<u8>>)
        ensures
            self.content().len() <= MAX_PAYLOAD_LEN ==> (r matches Ok(v) && v@ == payload_wire(
                self.content(),
            )),
            self.content().len() > MAX_PAYLOAD_LEN ==> r == Err::<Vec<u8>, Error>(
                Error::PayloadTooLarge { len: self.content().len() as usize },
            ),
    {
        let content = self.data.as_slice();
        let len = content.len();
        if len > MAX_PAYLOAD_LEN {
            return Err(Error::PayloadTooLarge { len });
        }
        let mut v: Vec<u8> = Vec::new();
        v.push(len as u8);
        let mut i: usize = 0;
        while i < len
            invariant
                len == content@.len(),
                i <= len,
                v@ == seq![len as u8] + content@.take(i as int),
            decreases len - i,
        {
            v.push(content[i]);
            i = i + 1;
        }
        assert(content@.take(len as int) == content@);
        let mut k: usize = 0;
        while k < MAX_PAYLOAD_LEN - len
            invariant
                len <= MAX_PAYLOAD_LEN,
                k <= MAX_PAYLOAD_LEN - len,
                v@ == seq![len as u8] + content@ + zeros(k as nat),
            decreases MAX_PAYLOAD_LEN - len - k,
        {
            v.push(0u8);
            k = k + 1;
            assert(v@ =~= seq![len as u8] + content@ + zeros(k as nat));
        }
        Ok(v)
    }

    /// Writes the payload, zero padded to its fixed length.
    ///
    /// Content longer than 54 bytes is refused before anything is written.
    pub fn serialize(&self, buffer: &mut WriteCursor) -> (r: Result<()>)
        requires
            old(buffer).wf(),
            old(buffer).pos() + PAYLOAD_LENGTH <= usize::MAX,
        ensures
            final(buffer).wf(),
            old(buffer).room() < PAYLOAD_LENGTH ==> r == Err::<(), Error>(
                too_small(old(buffer).pos(), old(buffer).data().skip(old(buffer).pos() as int), PAYLOAD_LENGTH as nat),
            ),
            old(buffer).room() >= PAYLOAD_LENGTH && self.content().len() > MAX_PAYLOAD_LEN ==> r
                == Err::<(), Error>(Error::PayloadTooLarge { len: self.content().len() as usize }),
            old(buffer).room() >= PAYLOAD_LENGTH && self.content().len() <= MAX_PAYLOAD_LEN ==> r is Ok,
            r is Err ==> *final(buffer) == *old(buffer),
            r is Ok ==> {
                &&& old(buffer).room() >= PAYLOAD_LENGTH
                &&& self.content().len() <= MAX_PAYLOAD_LEN
                &&& final(buffer).data() == old(buffer).written(payload_wire(self.content()))
                &&& final(buffer).pos() == old(buffer).pos() + PAYLOAD_LENGTH
            },
    {
        if let Err(e) = buffer.check_remaining(PAYLOAD_LENGTH) {
            return Err(e);
        }
        match self.to_bytes() {
            Err(e) => Err(e),
            Ok(bytes) => {
                buffer.write_bytes(bytes.as_slice());
                Ok(())
            },
        }
    }

    /// Reads a payload.
    pub fn deserialize(buffer: &mut Cursor) -> (r: Result<Self>)
        requires
            old(buffer).pos() + PAYLOAD_LENGTH <= usize::MAX,
            V::capacity() >= MAX_PAYLOAD_LEN,
        ensures
            final(buffer).data() == old(buffer).data(),
            match r {
                Ok(p) => {
                    &&& payload_error(old(buffer).pos(), old(buffer).rest()) is None
                    &&& p.content() == payload_of(old(buffer).rest())
                    &&& final(buffer).pos() == old(buffer).pos() + PAYLOAD_LENGTH
                    &&& final(buffer).rest() == old(buffer).rest().skip(PAYLOAD_LENGTH as int)
                },
                Err(e) => payload_error(old(buffer).pos(), old(buffer).rest()) == Some(e),
            },
    {
        if let Err(e) = buffer.check_remaining(PAYLOAD_LENGTH) {
            return Err(e);
        }
        let len = buffer.read_u8();
        if len as usize > MAX_PAYLOAD_LEN {
            return Err(Error::PayloadTooLarge { len: len as usize });
        }
        let bytes = buffer.read_bytes(MAX_PAYLOAD_LEN);
        let mut content: Vec<u8> = Vec::new();
        let mut i: usize = 0;
        while i < len as usize
            invariant
                len <= MAX_PAYLOAD_LEN,
                bytes@.len() == MAX_PAYLOAD_LEN,
                i <= len,
                content@ == bytes@.take(i as int),
            decreases len - i,
        {
            content.push(bytes[i]);
            i = i + 1;
        }
        proof {
            assert(content@ =~= payload_of(old(buffer).rest()));
            assert(old(buffer).rest().skip(1).skip(54) =~= old(buffer).rest().skip(55));
        }
        Ok(Ws6in1PayloadBase { data: V::from_slice(content.as_slice()) })
    }
}

/// Ws6in1 data frame.
#[derive(Debug, Clone, Default, PartialEq, Eq)]
pub struct Ws6in1DataFrameBase<V> {
    pub hdr: Ws6in1DataHeader,
    pub payload: Ws6in1PayloadBase<V>,
}

impl<V: Ws6in1Container> Ws6in1DataFrameBase<V> {
    pub const LENGTH: usize = 64;

    pub const FRAME_TYPE: u8 = 0xFE;

    /// Writes the frame.
    ///
    /// On failure nothing is written.
    pub fn serialize(&self, buffer: &mut WriteCursor) -> (r: Result<()>)
        requires
            old(buffer).wf(),
            old(buffer).pos() + FRAME_LENGTH <= usize::MAX,
        ensures
            final(buffer).wf(),
            old(buffer).room() < FRAME_LENGTH ==> r == Err::<(), Error>(
                too_small(old(buffer).pos(), old(buffer).data().skip(old(buffer).pos() as int), FRAME_LENGTH as nat),
            ),
            old(buffer).room() >= FRAME_LENGTH && self.payload.content().len() > MAX_PAYLOAD_LEN ==> r
                == Err::<(), Error>(Error::PayloadTooLarge { len: self.payload.content().len() as usize }),
            old(buffer).room() >= FRAME_LENGTH && self.payload.content().len() <= MAX_PAYLOAD_LEN ==> r is Ok,
            r is Err ==> *final(buffer) == *old(buffer),
            r is Ok ==> {
                &&& old(buffer).room() >= FRAME_LENGTH
                &&& self.payload.content().len() <= MAX_PAYLOAD_LEN
                &&& final(buffer).data() == old(buffer).written(frame_wire(self.hdr, self.payload.content()))
                &&& final(buffer).pos() == old(buffer).pos() + FRAME_LENGTH
            },
    {
        if let Err(e) = buffer.check_remaining(FRAME_LENGTH) {
            return Err(e);
        }
        let payload = match self.payload.to_bytes() {
            Err(e) => {
                return Err(e);
            },
            Ok(p) => p,
        };
        let mut bytes: Vec<u8> = Vec::new();
        bytes.push(FRAME_TYPE);
        let mut header = self.hdr.to_bytes();
        bytes.append(&mut header);
        let mut payload = payload;
        bytes.append(&mut payload);
        let mut footer: Vec<u8> = vec![0u8, 0u8, FOOTER_MAGIC];
        bytes.append(&mut footer);
        assert(bytes@ =~= frame_wire(self.hdr, self.payload.content()));
        buffer.write_bytes(bytes.as_slice());
        Ok(())
    }

    /// Reads a data frame, which must fill the rest of the buffer.
    pub fn deserialize(buffer: &mut Cursor) -> (r: Result<Self>)
        requires
            old(buffer).pos() + FRAME_LENGTH <= usize::MAX,
            V::capacity() >= MAX_PAYLOAD_LEN,
        ensures
            final(buffer).data() == old(buffer).data(),
            match r {
                Ok(f) => {
                    &&& frame_error(old(buffer).pos(), old(buffer).rest()) is None
                    &&& f.hdr == frame_header_of(old(buffer).rest())
                    &&& f.payload.content() == frame_content_of(old(buffer).rest())
                    &&& final(buffer).pos() == old(buffer).pos() + FRAME_LENGTH
                    &&& final(buffer).rest().len() == 0
                },
                Err(e) => frame_error(old(buffer).pos(), old(buffer).rest()) == Some(e),
            },
    {
        if let Err(e) = buffer.check_remaining(FRAME_LENGTH) {
            return Err(e);
        }
        let ghost rest = buffer.rest();
        let frame_type = buffer.read_u8();
        if frame_type != FRAME_TYPE {
            return Err(Error::UnsupportedType { frame_type });
        }
        let hdr = match Ws6in1DataHeader::deserialize(buffer) {
            Ok(h) => h,
            Err(e) => {
                return Err(e);
            },
        };
        proof {
            assert(rest.skip(1).skip(5) =~= rest.skip(6));
            assert(rest.skip(1) =~= rest.subrange(1, 6) + rest.skip(6));
            assert(header_of(rest.skip(1)) == header_of(rest.subrange(1, 6)));
        }
        let payload = match Ws6in1PayloadBase::<V>::deserialize(buffer) {
            Ok(p) => p,
            Err(e) => {
                return Err(e);
            },
        };
        proof {
            assert(rest.skip(6).skip(55) =~= rest.skip(61));
            assert(rest.skip(6)[0] == rest.subrange(6, 61)[0]);
            assert(payload_of(rest.skip(6)) =~= payload_of(rest.subrange(6, 61)));
        }
        match Ws6in1Footer::deserialize(buffer) {
            Ok(_) => {},
            Err(e) => {
                return Err(e);
            },
        }
        Ok(Ws6in1DataFrameBase { hdr, payload })
    }
}

impl Ws6in1Serde for Ws6in1DataHeader {
    open spec fn decodable() -> bool {
        true
    }

    open spec fn wire_of(&self) -> Option<Seq<u8>> {
        Some(header_wire(*self))
    }

    open spec fn decode_error(pos: nat, rest: Seq<u8>) -> Option<Error> {
        if rest.len() < HEADER_LENGTH {
            Some(too_small(pos, rest, HEADER_LENGTH as nat))
        } else {
            None
        }
    }

    open spec fn decodes_to(rest: Seq<u8>, v: Self) -> bool {
        v == header_of(rest)
    }

    fn serialize(&self, buffer: &mut WriteCursor) -> (r: Result<()>) {
        Ws6in1DataHeader::serialize(self, buffer)
    }

    fn deserialize(buffer: &mut Cursor) -> (r: Result<Self>) {
        Ws6in1DataHeader::deserialize(buffer)
    }
}

impl<V: Ws6in1Container> Ws6in1Serde for Ws6in1PayloadBase<V> {
    open spec fn decodable() -> bool {
        V::capacity() >= MAX_PAYLOAD_LEN
    }

    open spec fn wire_of(&self) -> Option<Seq<u8>> {
        if self.content().len() <= MAX_PAYLOAD_LEN {
            Some(payload_wire(self.content()))
        } else {
            None
        }
    }

    open spec fn decode_error(pos: nat, rest: Seq<u8>) -> Option<Error> {
        payload_error(pos, rest)
    }

    open spec fn decodes_to(rest: Seq<u8>, v: Self) -> bool {
        v.content() == payload_of(rest)
    }

    fn serialize(&self, buffer: &mut WriteCursor) -> (r: Result<()>) {
        Ws6in1PayloadBase::<V>::serialize(self, buffer)
    }

    fn deserialize(buffer: &mut Cursor) -> (r: Result<Self>) {
        Ws6in1PayloadBase::<V>::deserialize(buffer)
    }
}

impl<V: Ws6in1Container> Ws6in1Serde for Ws6in1DataFrameBase<V> {
    open spec fn decodable() -> bool {
        V::capacity() >= MAX_PAYLOAD_LEN
    }

    open spec fn wire_of(&self) -> Option<Seq<u8>> {
        if self.payload.content().len() <= MAX_PAYLOAD_LEN {
            Some(frame_wire(self.hdr, self.payload.content()))
        } else {
            None
        }
    }

    open spec fn decode_error(pos: nat, rest: Seq<u8>) -> Option<Error> {
        frame_error(pos, rest)
    }

    open spec fn decodes_to(rest: Seq<u8>, v: Self) -> bool {
        v.hdr == frame_header_of(rest) && v.payload.content() == frame_content_of(rest)
    }

    fn serialize(&self, buffer: &mut WriteCursor) -> (r: Result<()>) {
        Ws6in1DataFrameBase::<V>::serialize(self, buffer)
    }

    fn deserialize(buffer: &mut Cursor) -> (r: Result<Self>) {
        Ws6in1DataFrameBase::<V>::deserialize(buffer)
    }
}

/// A payload backed by a growable vector.
pub type Ws6in1Payload = Ws6in1PayloadBase<Vec<u8>>;

/// A data frame backed by a growable vector.
pub type Ws6in1DataFrame = Ws6in1DataFrameBase<Vec<u8>>;

/// A payload backed by a fixed-capacity vector.
pub type Ws6in1PayloadHeapless = Ws6in1PayloadBase<heapless::Vec<u8, 54>>;

/// A data frame backed by a fixed-capacity vector.
pub type Ws6in1DataFrameHeapless = Ws6in1DataFrameBase<heapless::Vec<u8, 54>>;

} // verus!
