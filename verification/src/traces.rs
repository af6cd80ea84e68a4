//! Trace output of CPU2: a line of its own for each trace, with `cpu2: ` in
//! front, shown a piece at a time.

use vstd::prelude::*;
use crate::config::at_most;
use crate::text::Say;
use crate::text::Text;
use crate::text::ascii;
use crate::text::lemma_ascii_byte_len;
use crate::text::new_line;
use crate::text::push;
use crate::text::run_on;

verus! {

/// How a byte of a trace is shown: printable ASCII and line ends as they are,
/// anything else as a dot.
pub open spec fn shown(b: u8) -> char {
    if 0x20 <= b < 0x7f || b == 0x0a || b == 0x0d {
        b as char
    } else {
        '.'
    }
}

/// How a run of bytes is shown.
pub open spec fn shown_all(s: Seq<u8>) -> Seq<char> {
    s.map_values(|b: u8| shown(b))
}

fn show(b: u8) -> (c: char)
    ensures
        c == shown(b),
{
    if (0x20 <= b && b < 0x7f) || b == 0x0a || b == 0x0d {
        b as char
    } else {
        '.'
    }
}

/// Where the piece that starts at `i` ends: 64 bytes on, or at the end.
pub open spec fn chunk_end(payload: Seq<u8>, i: int) -> int {
    at_most(i + 64, payload.len() as int)
}

/// The piece of a trace that starts at byte `i`, as it is shown, and where the
/// next one starts.
fn trace_chunk(payload: &[u8], i: usize) -> (r: (heapless::String<224>, usize))
    requires
        i < payload@.len(),
    ensures
        r.1 == chunk_end(payload@, i as int),
        r.0.text() == shown_all(payload@.subrange(i as int, r.1 as int)),
{
    let end: usize = if payload.len() - i < 64 {
        payload.len()
    } else {
        i + 64
    };
    let mut l = new_line();
    let mut k: usize = i;
    assert(shown_all(payload@.subrange(i as int, i as int)) =~= Seq::<char>::empty());
    while k < end
        invariant
            i <= k <= end <= payload@.len(),
            end - i <= 64,
            l.text() == shown_all(payload@.subrange(i as int, k as int)),
            ascii(l.text()),
        decreases end - k,
    {
        let c = show(payload[k]);
        proof {
            lemma_ascii_byte_len(l.text());
            lemma_ascii_byte_len(seq![c]);
        }
        let _ = push(&mut l, c);
        assert(shown_all(payload@.subrange(i as int, k + 1)) =~= shown_all(
            payload@.subrange(i as int, k as int),
        ) + seq![c]);
        k = k + 1;
    }
    (l, end)
}

/// The texts for what is left of a trace from byte `i` on: its pieces, and the
/// line end.
pub open spec fn texts_from(payload: Seq<u8>, i: int) -> Seq<Seq<char>>
    decreases payload.len() - i,
{
    if i < 0 || i >= payload.len() {
        seq!["\r\n"@]
    } else {
        seq![shown_all(payload.subrange(i, chunk_end(payload, i)))] + texts_from(
            payload,
            chunk_end(payload, i),
        )
    }
}

/// Where the printing of a trace stands.
#[derive(Clone, Copy, PartialEq, Eq, Structural)]
pub enum TraceStage {
    Front,
    At(usize),
    Done,
}

impl TraceStage {
    /// The texts still to be printed.
    pub open spec fn left(self, payload: Seq<u8>) -> Seq<Seq<char>> {
        match self {
            TraceStage::Front => seq!["cpu2: "@] + texts_from(payload, 0),
            TraceStage::At(i) => texts_from(payload, i as int),
            TraceStage::Done => Seq::empty(),
        }
    }

    /// The next text to print; nothing at the end.
    pub fn next(&mut self, payload: &[u8]) -> (r: Say)
        ensures
            old(self).left(payload@).len() == 0 ==> r@.len() == 0 && final(self).left(payload@)
                == old(self).left(payload@),
            old(self).left(payload@).len() > 0 ==> r@ == seq![old(self).left(payload@)[0]]
                && final(self).left(payload@) == old(self).left(payload@).drop_first(),
    {
        let ghost before = self.left(payload@);
        match *self {
            TraceStage::Front => {
                *self = TraceStage::At(0);
                assert(before.drop_first() =~= self.left(payload@));
                Say::Fixed("cpu2: ")
            },
            TraceStage::At(i) => if i < payload.len() {
                let (l, end) = trace_chunk(payload, i);
                *self = TraceStage::At(end);
                assert(before.drop_first() =~= self.left(payload@));
                Say::Line(l)
            } else {
                *self = TraceStage::Done;
                assert(before.drop_first() =~= self.left(payload@));
                Say::Fixed("\r\n")
            },
            TraceStage::Done => Say::Nothing,
        }
    }

    /// Whether everything is printed.
    pub fn is_done(self) -> (r: bool)
        ensures
            r == (self is Done),
    {
        matches!(self, TraceStage::Done)
    }
}

/// Starts to print a trace.
pub fn traces_loop() -> (r: TraceStage)
    ensures
        r == TraceStage::Front,
{
    TraceStage::Front
}

proof fn lemma_pieces_run_on(payload: Seq<u8>, i: int)
    requires
        0 <= i <= payload.len(),
    ensures
        run_on(texts_from(payload, i)) == shown_all(payload.skip(i)) + "\r\n"@,
    decreases payload.len() - i,
{
    let all = texts_from(payload, i);
    let end = "\r\n"@;
    if i < payload.len() {
        let e = chunk_end(payload, i);
        let piece = shown_all(payload.subrange(i, e));
        lemma_pieces_run_on(payload, e);
        assert(all.drop_first() =~= texts_from(payload, e));
        assert(shown_all(payload.skip(i)) =~= piece + shown_all(payload.skip(e)));
        assert(piece + (shown_all(payload.skip(e)) + end) =~= piece + shown_all(payload.skip(e))
            + end);
    } else {
        assert(all.drop_first() =~= Seq::<Seq<char>>::empty());
        assert(run_on(all.drop_first()) =~= Seq::<char>::empty());
        assert(shown_all(payload.skip(i)) =~= Seq::<char>::empty());
        assert(run_on(all) =~= shown_all(payload.skip(i)) + end);
    }
}

/// A trace is a line: `cpu2: `, all of its bytes as they are shown, once and in
/// order, and the line end.
pub proof fn law_trace_is_shown_whole(payload: Seq<u8>)
    ensures
        run_on(TraceStage::Front.left(payload)) == "cpu2: "@ + shown_all(payload) + "\r\n"@,
{
    let all = TraceStage::Front.left(payload);
    lemma_pieces_run_on(payload, 0);
    assert(payload.skip(0) =~= payload);
    assert(all.drop_first() =~= texts_from(payload, 0));
    assert("cpu2: "@ + (shown_all(payload) + "\r\n"@) =~= "cpu2: "@ + shown_all(payload)
        + "\r\n"@);
}

/// A byte of a trace is shown as it is when it is printable ASCII or a line end,
/// and as a dot otherwise; the text is as long as the trace.
pub proof fn law_bytes_are_shown(payload: Seq<u8>, k: int)
    requires
        0 <= k < payload.len(),
    ensures
        shown_all(payload).len() == payload.len(),
        32 <= payload[k] <= 126 || payload[k] == 10 || payload[k] == 13 ==> shown_all(payload)[k]
            as u32 == payload[k],
        payload[k] < 32 && payload[k] != 10 && payload[k] != 13 ==> shown_all(payload)[k] == '.',
        payload[k] > 126 ==> shown_all(payload)[k] == '.',
{
}

} // verus!
