//! Decoding what was encoded gives the value back.
use vstd::prelude::*;

use super::any::{any_error, AnyWs6in1MessageBase};
use super::cmd::{
    cmd_error, set_date_of, set_date_wire, set_time_of, set_time_wire, Ws6in1SetDate,
    Ws6in1SetTime, SET_DATE_OPCODE, SET_TIME_OPCODE,
};
use super::data::{
    frame_content_of, frame_error, frame_header_of, frame_wire, header_of, header_valid,
    header_wire, payload_error, payload_of, payload_wire, Ws6in1DataHeader, MAX_PAYLOAD_LEN,
};
use super::frame::footer_wire;
use crate::container::Ws6in1Container;
use crate::cursor::{be_u16, u16_be_bytes};

verus! {

proof fn lemma_u16_round_trip(v: u16)
    ensures
        be_u16(u16_be_bytes(v)[0], u16_be_bytes(v)[1]) == v,
{
}

/// A header with 4 bit fragment fields decodes to itself.
pub proof fn lemma_header_round_trip(h: Ws6in1DataHeader)
    requires
        header_valid(h),
    ensures
        header_of(header_wire(h)) == h,
{
    let w = header_wire(h);
    lemma_u16_round_trip(h.item_cnt);
    lemma_u16_round_trip(h.item_idx);
    let c = h.frag_cnt;
    let i = h.frag_idx;
    assert(((((c << 4u8) | i) & 0xF0u8) >> 4u8) == c && (((c << 4u8) | i) & 0x0Fu8) == i)
        by (bit_vector)
        requires
            c < 16,
            i < 16,
    ;
}

/// A payload of at most 54 bytes decodes to its content.
pub proof fn lemma_payload_round_trip(content: Seq<u8>, pos: nat)
    requires
        content.len() <= MAX_PAYLOAD_LEN,
    ensures
        payload_error(pos, payload_wire(content)) is None,
        payload_of(payload_wire(content)) == content,
{
    let w = payload_wire(content);
    assert(w[0] == content.len() as u8);
    assert(w.subrange(1, 1 + content.len() as int) =~= content);
}

/// A data frame with a valid header and at most 54 payload bytes decodes to
/// that header and payload.
pub proof fn lemma_frame_round_trip(h: Ws6in1DataHeader, content: Seq<u8>, pos: nat)
    requires
        header_valid(h),
        content.len() <= MAX_PAYLOAD_LEN,
    ensures
        frame_error(pos, frame_wire(h, content)) is None,
        frame_header_of(frame_wire(h, content)) == h,
        frame_content_of(frame_wire(h, content)) == content,
{
    let w = frame_wire(h, content);
    lemma_header_round_trip(h);
    lemma_payload_round_trip(content, pos);
    assert(w.subrange(1, 6) =~= header_wire(h));
    assert(w.subrange(6, 61) =~= payload_wire(content));
    assert(w.skip(61) =~= footer_wire());
    assert(w[6] == payload_wire(content)[0]);
}

/// A set date command decodes to itself.
pub proof fn lemma_set_date_round_trip(d: Ws6in1SetDate, pos: nat)
    ensures
        cmd_error(pos, set_date_wire(d), SET_DATE_OPCODE) is None,
        set_date_of(set_date_wire(d)) == d,
{
    assert(set_date_wire(d).skip(5) =~= footer_wire());
}

/// A set time command decodes to itself.
pub proof fn lemma_set_time_round_trip(t: Ws6in1SetTime, pos: nat)
    ensures
        cmd_error(pos, set_time_wire(t), SET_TIME_OPCODE) is None,
        set_time_of(set_time_wire(t)) == t,
{
    assert(set_time_wire(t).skip(5) =~= footer_wire());
}

/// Every message that can be encoded, with 4 bit fragment fields, decodes
/// without error to itself.
pub proof fn lemma_message_round_trip<V: Ws6in1Container>(m: AnyWs6in1MessageBase<V>, pos: nat)
    requires
        m.encodable(),
        m matches AnyWs6in1MessageBase::DataFrame(f) ==> header_valid(f.hdr),
    ensures
        any_error(pos, m.wire()) is None,
        m.decoded_from(m.wire()),
{
    match m {
        AnyWs6in1MessageBase::DataFrame(f) => {
            lemma_frame_round_trip(f.hdr, f.payload.content(), pos);
        },
        AnyWs6in1MessageBase::SetDate(d) => {
            lemma_set_date_round_trip(d, pos);
        },
        AnyWs6in1MessageBase::SetTime(t) => {
            lemma_set_time_round_trip(t, pos);
        },
    }
}

} // verus!
