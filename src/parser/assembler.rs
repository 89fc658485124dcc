//! Reassembly of a telegram from sequenced data frame fragments.
use vstd::prelude::*;

use super::telegram::{describes, telegram_error, Ws6in1Data};
use super::tokens::tokens;
use crate::container::{saturated, Ws6in1Container};
use crate::error::{Error, Result};
use crate::cursor::Cursor;
use crate::protocol::any::{any_error, AnyWs6in1Message, AnyWs6in1MessageBase};
use crate::protocol::data::{
    frame_content_of, frame_header_of, Ws6in1DataFrameBase, Ws6in1DataHeader, FRAME_LENGTH,
    FRAME_TYPE,
};

verus! {

/// The text that `b` encodes in UTF-8, or the length of the longest valid
/// prefix of `b` where it is not valid UTF-8.
pub uninterp spec fn utf8_decode(b: Seq<u8>) -> core::result::Result<Seq<char>, usize>;

/// All bytes are ASCII, below 0x80.
pub open spec fn all_ascii(b: Seq<u8>) -> bool {
    forall|i: int| 0 <= i < b.len() ==> b[i] < 0x80
}

/// Relies on `core::str::from_utf8`, with `Utf8Error::valid_up_to` for the
/// position of the first invalid byte. ASCII bytes are valid UTF-8, each
/// encoding the character of the same code.
#[verifier::external_body]
fn utf8_text(b: &[u8]) -> (r: core::result::Result<&str, usize>)
    ensures
        match r {
            Ok(s) => utf8_decode(b@) == Ok::<Seq<char>, usize>(s@),
            Err(i) => utf8_decode(b@) == Err::<Seq<char>, usize>(i),
        },
        all_ascii(b@) ==> (r matches Ok(s) && s@.len() == b@.len() && forall|i: int|
            0 <= i < b@.len() ==> #[trigger] s@[i] as u32 == b@[i] as u32),
{
    match core::str::from_utf8(b) {
        Ok(s) => Ok(s),
        Err(e) => Err(e.valid_up_to()),
    }
}

/// The error that interpreting the assembled bytes `b` gives, if any.
pub open spec fn interpretation_error(b: Seq<u8>) -> Option<Error> {
    match utf8_decode(b) {
        Err(i) => Some(Error::InvalidCharacter { idx: i }),
        Ok(s) => telegram_error(tokens(s)),
    }
}

/// `d` is the record that the assembled bytes `b` give.
pub open spec fn message_describes(d: Ws6in1Data, b: Seq<u8>) -> bool {
    utf8_decode(b) matches Ok(s) && describes(d, tokens(s))
}

/// Interprets assembled bytes as a telegram.
pub fn parse_message(b: &[u8]) -> (r: Result<Ws6in1Data>)
    ensures
        match r {
            Ok(d) => interpretation_error(b@) is None && message_describes(d, b@),
            Err(e) => interpretation_error(b@) == Some(e),
        },
        all_ascii(b@) ==> (utf8_decode(b@) matches Ok(s) && s.len() == b@.len() && forall|i: int|
            0 <= i < b@.len() ==> #[trigger] s[i] as u32 == b@[i] as u32),
{
    match utf8_text(b) {
        Ok(s) => Ws6in1Data::parse(s),
        Err(idx) => Err(Error::InvalidCharacter { idx }),
    }
}

/// One step of the assembler: from the fragments received so far and the
/// bytes held, a data frame with header `hdr` and payload `content` leads to
/// a new count, new bytes, and an outcome. The outcome is `None` while the
/// message is incomplete, the whole message when it completes, or an error.
pub open spec fn transition(
    received: nat,
    pending: Seq<u8>,
    hdr: Ws6in1DataHeader,
    content: Seq<u8>,
    capacity: nat,
) -> (nat, Seq<u8>, Option<core::result::Result<Seq<u8>, Error>>) {
    if hdr.frag_idx != received + 1 {
        (0, Seq::empty(), Some(Err(Error::FragmentDiscarded { idx: received as u8 })))
    } else if pending.len() + content.len() > capacity {
        (
            received,
            pending,
            Some(Err(Error::MessageTooLarge { len: saturated(pending.len() + content.len() as int) })),
        )
    } else if received + 1 == hdr.frag_cnt {
        (0, Seq::empty(), Some(Ok(pending + content)))
    } else {
        (received + 1, pending + content, None)
    }
}

/// The outcomes of feeding `frames`, headers with payload contents, one
/// after the other from the given state.
pub open spec fn run(
    received: nat,
    pending: Seq<u8>,
    frames: Seq<(Ws6in1DataHeader, Seq<u8>)>,
    capacity: nat,
) -> Seq<Option<core::result::Result<Seq<u8>, Error>>>
    decreases frames.len(),
{
    if frames.len() == 0 {
        Seq::empty()
    } else {
        let (n, p, o) = transition(received, pending, frames[0].0, frames[0].1, capacity);
        seq![o] + run(n, p, frames.drop_first(), capacity)
    }
}

/// The payload contents of `frames`, joined.
pub open spec fn joined(frames: Seq<(Ws6in1DataHeader, Seq<u8>)>) -> Seq<u8>
    decreases frames.len(),
{
    if frames.len() == 0 {
        Seq::empty()
    } else {
        joined(frames.drop_last()) + frames.last().1
    }
}

/// The frames are numbered 1 to N in order, each announcing N fragments.
pub open spec fn in_order(frames: Seq<(Ws6in1DataHeader, Seq<u8>)>) -> bool {
    forall|k: int|
        0 <= k < frames.len() ==> (#[trigger] frames[k]).0.frag_idx == k + 1 && frames[k].0.frag_cnt
            == frames.len()
}

proof fn lemma_joined_prefix(frames: Seq<(Ws6in1DataHeader, Seq<u8>)>, j: int)
    requires
        0 <= j < frames.len(),
    ensures
        joined(frames.take(j + 1)) == joined(frames.take(j)) + frames[j].1,
        joined(frames.take(j + 1)).len() <= joined(frames).len(),
    decreases frames.len(),
{
    assert(frames.take(j + 1).drop_last() =~= frames.take(j));
    if j + 1 < frames.len() {
        lemma_joined_prefix(frames.drop_last(), j);
        assert(frames.drop_last().take(j + 1) =~= frames.take(j + 1));
        assert(frames.drop_last().take(j) =~= frames.take(j));
    } else {
        assert(frames.take(j + 1) =~= frames);
    }
}

proof fn lemma_run_in_order(frames: Seq<(Ws6in1DataHeader, Seq<u8>)>, capacity: nat, j: int)
    requires
        in_order(frames),
        joined(frames).len() <= capacity,
        0 <= j < frames.len(),
    ensures
        ({
            let outs = run(j as nat, joined(frames.take(j)), frames.skip(j), capacity);
            &&& outs.len() == frames.len() - j
            &&& forall|k: int| 0 <= k < frames.len() - j - 1 ==> #[trigger] outs[k] is None
            &&& outs[frames.len() - j - 1] == Some(Ok::<Seq<u8>, Error>(joined(frames)))
        }),
    decreases frames.len() - j,
{
    let rest = frames.skip(j);
    assert(rest[0] == frames[j]);
    lemma_joined_prefix(frames, j);
    let (n, p, o) = transition(j as nat, joined(frames.take(j)), rest[0].0, rest[0].1, capacity);
    assert(rest.drop_first() =~= frames.skip(j + 1));
    if j + 1 == frames.len() {
        assert(frames.take(j + 1) =~= frames);
        assert(run(n, p, rest.drop_first(), capacity) =~= Seq::empty());
    } else {
        lemma_run_in_order(frames, capacity, j + 1);
    }
}

/// Feeding fragments numbered 1 to N, each announcing N fragments, into a
/// fresh assembler gives no result for the first N - 1 of them and the
/// whole message for the last.
pub proof fn lemma_fragments_in_order(frames: Seq<(Ws6in1DataHeader, Seq<u8>)>, capacity: nat)
    requires
        frames.len() >= 1,
        in_order(frames),
        joined(frames).len() <= capacity,
    ensures
        ({
            let outs = run(0, Seq::empty(), frames, capacity);
            &&& outs.len() == frames.len()
            &&& forall|k: int| 0 <= k < frames.len() - 1 ==> #[trigger] outs[k] is None
            &&& outs[frames.len() - 1] == Some(Ok::<Seq<u8>, Error>(joined(frames)))
        }),
{
    lemma_run_in_order(frames, capacity, 0);
    assert(frames.take(0) =~= Seq::<(Ws6in1DataHeader, Seq<u8>)>::empty());
    assert(frames.skip(0) =~= frames);
}

/// What `parse` returns along fragments numbered 1 to N: a caller feeds the
/// frames one by one to a fresh assembler, and each result relates to the
/// step that `parse`'s contract names. Then the first N - 1 calls return
/// `Ok(None)`, and the last returns the record of the joined payloads, or
/// the error of interpreting them.
pub proof fn lemma_assembly_results(
    frames: Seq<(Ws6in1DataHeader, Seq<u8>)>,
    capacity: nat,
    results: Seq<Result<Option<Ws6in1Data>>>,
)
    requires
        frames.len() >= 1,
        in_order(frames),
        joined(frames).len() <= capacity,
        results.len() == frames.len(),
        forall|k: int|
            0 <= k < frames.len() ==> outcome_matches(
                #[trigger] run(0, Seq::empty(), frames, capacity)[k],
                results[k],
            ),
    ensures
        forall|k: int| 0 <= k < frames.len() - 1 ==> #[trigger] results[k] == Ok::<
            Option<Ws6in1Data>,
            Error,
        >(None),
        interpretation_error(joined(frames)) is None ==> (results[frames.len() - 1] matches Ok(
            Some(d),
        ) && message_describes(d, joined(frames))),
        interpretation_error(joined(frames)) matches Some(e) ==> results[frames.len() - 1] == Err::<
            Option<Ws6in1Data>,
            Error,
        >(e),
{
    lemma_fragments_in_order(frames, capacity);
    let outs = run(0, Seq::empty(), frames, capacity);
    assert forall|k: int| 0 <= k < frames.len() - 1 implies #[trigger] results[k] == Ok::<
        Option<Ws6in1Data>,
        Error,
    >(None) by {
        assert(outcome_matches(outs[k], results[k]));
    }
    assert(outcome_matches(outs[frames.len() - 1], results[frames.len() - 1]));
}

/// A first fragment that arrives twice is discarded the second time, with
/// index 1 reported; a further first fragment is then handled as by a fresh
/// assembler.
pub proof fn lemma_discard_and_recover(
    first: (Ws6in1DataHeader, Seq<u8>),
    again: (Ws6in1DataHeader, Seq<u8>),
    next: (Ws6in1DataHeader, Seq<u8>),
    capacity: nat,
)
    requires
        first.0.frag_idx == 1,
        first.0.frag_cnt != 1,
        first.1.len() <= capacity,
        again.0.frag_idx == 1,
    ensures
        ({
            let outs = run(0, Seq::empty(), seq![first, again, next], capacity);
            &&& outs[0] is None
            &&& outs[1] == Some(Err::<Seq<u8>, Error>(Error::FragmentDiscarded { idx: 1 }))
            &&& outs[2] == run(0, Seq::empty(), seq![next], capacity)[0]
        }),
{
    let frames = seq![first, again, next];
    assert(frames.drop_first() =~= seq![again, next]);
    assert(seq![again, next].drop_first() =~= seq![next]);
    assert(seq![next].drop_first() =~= Seq::<(Ws6in1DataHeader, Seq<u8>)>::empty());
    assert(Seq::<u8>::empty() + first.1 =~= first.1);
    let (count1, held1, out1) = transition(0, Seq::empty(), first.0, first.1, capacity);
    assert(count1 == 1 && out1 is None);
    let (count2, held2, out2) = transition(count1, held1, again.0, again.1, capacity);
    assert(count2 == 0 && held2 == Seq::<u8>::empty());
    let tail = run(count2, held2, seq![next], capacity);
    assert(tail == seq![transition(0, Seq::empty(), next.0, next.1, capacity).2] + run(
        transition(0, Seq::empty(), next.0, next.1, capacity).0,
        transition(0, Seq::empty(), next.0, next.1, capacity).1,
        Seq::empty(),
        capacity,
    ));
    let mid = run(count1, held1, seq![again, next], capacity);
    assert(mid == seq![out2] + tail);
    assert(run(0, Seq::empty(), frames, capacity) == seq![out1] + mid);
}

/// `r` is what a step with outcome `o` returns.
pub open spec fn outcome_matches(
    o: Option<core::result::Result<Seq<u8>, Error>>,
    r: Result<Option<Ws6in1Data>>,
) -> bool {
    match o {
        None => r == Ok::<Option<Ws6in1Data>, Error>(None),
        Some(Err(e)) => r == Err::<Option<Ws6in1Data>, Error>(e),
        Some(Ok(b)) => match r {
            Ok(Some(d)) => interpretation_error(b) is None && message_describes(d, b),
            Ok(None) => false,
            Err(e) => interpretation_error(b) == Some(e),
        },
    }
}

/// What handling one report read from the device gave.
#[derive(Clone, Debug, PartialEq)]
pub enum ReportOutcome {
    /// A data frame completed a message, which parsed to this record.
    Complete(Ws6in1Data),
    /// A data frame was taken in; the message is not complete yet.
    Pending,
    /// The report held a command, not a data frame.
    NotData,
}

/// The result of the assembler step that a report outcome stands for.
pub open spec fn step_result(r: Result<ReportOutcome>) -> Result<Option<Ws6in1Data>> {
    match r {
        Ok(ReportOutcome::Complete(d)) => Ok(Some(d)),
        Ok(_) => Ok(None),
        Err(e) => Err(e),
    }
}

/// Holds state for message fragment assembly.
#[derive(Clone, Debug, PartialEq, Eq)]
pub struct Ws6in1AssemblerBase<V> {
    /// Current fragment number.
    frag_idx: u8,
    /// Message assembly buffer.
    buffer: V,
}

impl<V: Ws6in1Container> Ws6in1AssemblerBase<V> {
    /// Maximum supported assembled message length.
    pub const MAX_MESSAGE_LEN: usize = 256;

    /// Number of fragments accumulated.
    pub closed spec fn received(&self) -> nat {
        self.frag_idx as nat
    }

    /// Bytes accumulated.
    pub closed spec fn pending(&self) -> Seq<u8> {
        self.buffer.contents()
    }

    pub open spec fn wf(&self) -> bool {
        self.pending().len() <= V::capacity()
    }

    /// An assembler with nothing received.
    pub fn new() -> (r: Self)
        ensures
            r.wf(),
            r.received() == 0,
            r.pending() == Seq::<u8>::empty(),
    {
        let empty: [u8; 0] = [];
        assert(empty@ =~= Seq::<u8>::empty());
        Ws6in1AssemblerBase { frag_idx: 0, buffer: V::from_slice(&empty) }
    }

    /// Number of fragments accumulated.
    pub fn frag_idx(&self) -> (r: u8)
        ensures
            r == self.received(),
    {
        self.frag_idx
    }

    /// Bytes accumulated.
    pub fn buffered(&self) -> (r: &[u8])
        ensures
            r@ == self.pending(),
    {
        self.buffer.as_slice()
    }

    fn reset(&mut self)
        ensures
            final(self).received() == 0,
            final(self).pending() == Seq::<u8>::empty(),
    {
        self.frag_idx = 0;
        self.buffer.clear();
    }

    /// Adds a message fragment to the internal buffer.
    ///
    /// A fragment is accepted only if its index follows the count of those
    /// received; otherwise the partial message is discarded and the count
    /// before the discard is reported. When the fragment count of the frame
    /// is reached, the state is reset and then the bytes are parsed.
    pub fn parse<W: Ws6in1Container>(&mut self, packet: Ws6in1DataFrameBase<W>) -> (r: Result<
        Option<Ws6in1Data>,
    >)
        requires
            old(self).wf(),
        ensures
            final(self).wf(),
            ({
                let (n, p, o) = transition(
                    old(self).received(),
                    old(self).pending(),
                    packet.hdr,
                    packet.payload.content(),
                    V::capacity(),
                );
                &&& final(self).received() == n
                &&& final(self).pending() == p
                &&& outcome_matches(o, r)
            }),
    {
        if packet.hdr.frag_idx as u16 != self.frag_idx as u16 + 1 {
            let idx = self.frag_idx;
            self.reset();
            return Err(Error::FragmentDiscarded { idx });
        }
        let content = packet.payload.data.as_slice();
        if let Err(e) = self.buffer.append(content) {
            return Err(e);
        }
        self.frag_idx = self.frag_idx + 1;
        if self.frag_idx == packet.hdr.frag_cnt {
            let message = copy_bytes(self.buffer.as_slice());
            self.reset();
            return match parse_message(message.as_slice()) {
                Ok(d) => Ok(Some(d)),
                Err(e) => Err(e),
            };
        }
        Ok(None)
    }

    /// Handles one report read from the device.
    ///
    /// A data frame goes to the assembler; a command is left aside, with
    /// `NotData`; bytes that hold no message give the decoding error and
    /// leave the assembler as it was.
    pub fn feed_report(&mut self, report: &[u8]) -> (r: Result<ReportOutcome>)
        requires
            old(self).wf(),
            report@.len() + FRAME_LENGTH <= usize::MAX,
        ensures
            final(self).wf(),
            any_error(0, report@) matches Some(e) ==> {
                &&& r == Err::<ReportOutcome, Error>(e)
                &&& final(self).received() == old(self).received()
                &&& final(self).pending() == old(self).pending()
            },
            any_error(0, report@) is None && report@[0] != FRAME_TYPE ==> {
                &&& r == Ok::<ReportOutcome, Error>(ReportOutcome::NotData)
                &&& final(self).received() == old(self).received()
                &&& final(self).pending() == old(self).pending()
            },
            any_error(0, report@) is None && report@[0] == FRAME_TYPE ==> ({
                let (n, p, o) = transition(
                    old(self).received(),
                    old(self).pending(),
                    frame_header_of(report@),
                    frame_content_of(report@),
                    V::capacity(),
                );
                &&& final(self).received() == n
                &&& final(self).pending() == p
                &&& !(r matches Ok(ReportOutcome::NotData))
                &&& outcome_matches(o, step_result(r))
            }),
    {
        let mut cursor = Cursor::new(report);
        assert(cursor.rest() =~= report@);
        match AnyWs6in1Message::deserialize(&mut cursor) {
            Ok(AnyWs6in1MessageBase::DataFrame(frame)) => match self.parse(frame) {
                Ok(Some(d)) => Ok(ReportOutcome::Complete(d)),
                Ok(None) => Ok(ReportOutcome::Pending),
                Err(e) => Err(e),
            },
            Ok(_) => Ok(ReportOutcome::NotData),
            Err(e) => Err(e),
        }
    }
}

/// A copy of `b`.
fn copy_bytes(b: &[u8]) -> (r: Vec<u8>)
    ensures
        r@ == b@,
{
    let mut v: Vec<u8> = Vec::new();
    let mut i: usize = 0;
    while i < b.len()
        invariant
            i <= b@.len(),
            v@ == b@.take(i as int),
        decreases b@.len() - i,
    {
        v.push(b[i]);
        i = i + 1;
    }
    assert(b@.take(b@.len() as int) =~= b@);
    v
}

impl<V: Ws6in1Container> Default for Ws6in1AssemblerBase<V> {
    fn default() -> (r: Self)
        ensures
            r.wf(),
            r.received() == 0,
            r.pending() == Seq::<u8>::empty(),
    {
        Self::new()
    }
}

/// An assembler backed by a growable vector.
pub type Ws6in1Assembler = Ws6in1AssemblerBase<Vec<u8>>;

/// An assembler backed by a fixed-capacity vector of 256 bytes.
pub type Ws6in1AssemblerHeapless = Ws6in1AssemblerBase<heapless::Vec<u8, 256>>;

} // verus!
