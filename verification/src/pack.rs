//! Greedy first-fit-append packing of token sequences into fixed-width buffers.
//!
//! The packer is online: it looks at one sequence at a time, appends it to the
//! buffer it is filling if it fits there, and opens a new buffer otherwise. A
//! sequence is never split.

use vstd::prelude::*;
use crate::{MAX_LEN, PADDING};

verus! {

/// The token sequences held by `sequences`, as mathematical sequences.
pub open spec fn views(sequences: Seq<Vec<u16>>) -> Seq<Seq<u16>> {
    Seq::new(sequences.len(), |i: int| sequences[i]@)
}

/// Every sequence is short enough to fit a buffer of its own.
pub open spec fn lengths_fit(sequences: Seq<Seq<u16>>) -> bool {
    forall|i: int| 0 <= i < sequences.len() ==> (#[trigger] sequences[i]).len() <= MAX_LEN
}

/// The state of the packer between two sequences.
pub struct Cursor {
    /// Buffers opened so far.
    pub buffers: nat,
    /// Offset of the next free slot in the last buffer.
    pub start: nat,
}

/// The packer's state after the first `n` sequences.
pub open spec fn cursor(sequences: Seq<Seq<u16>>, n: int) -> Cursor
    decreases n,
{
    if n <= 0 {
        Cursor { buffers: 0, start: 0 }
    } else {
        let before = cursor(sequences, n - 1);
        let len: nat = sequences[n - 1].len();
        if before.buffers == 0 || before.start + len > MAX_LEN {
            Cursor { buffers: before.buffers + 1, start: len }
        } else {
            Cursor { buffers: before.buffers, start: before.start + len }
        }
    }
}

/// Number of buffers that packing `sequences` produces.
pub open spec fn buffer_count(sequences: Seq<Seq<u16>>) -> nat {
    cursor(sequences, sequences.len() as int).buffers
}

/// Index of the buffer that receives sequence `i`.
pub open spec fn buffer_of(sequences: Seq<Seq<u16>>, i: int) -> int {
    cursor(sequences, i + 1).buffers - 1
}

/// Offset in its buffer at which sequence `i` begins.
pub open spec fn offset_of(sequences: Seq<Seq<u16>>, i: int) -> int {
    cursor(sequences, i + 1).start - sequences[i].len()
}

/// Sequence `i` occupies position `p` of buffer `b`.
pub open spec fn covers(sequences: Seq<Seq<u16>>, i: int, b: int, p: int) -> bool {
    &&& buffer_of(sequences, i) == b
    &&& offset_of(sequences, i) <= p < offset_of(sequences, i) + sequences[i].len()
}

/// The id at position `p` of buffer `b` once the first `n` sequences are
/// placed: the token of the sequence that occupies the position, or padding.
pub open spec fn cell(sequences: Seq<Seq<u16>>, n: int, b: int, p: int) -> u16
    decreases n,
{
    if n <= 0 {
        PADDING
    } else if covers(sequences, n - 1, b, p) {
        sequences[n - 1][p - offset_of(sequences, n - 1)]
    } else {
        cell(sequences, n - 1, b, p)
    }
}

/// The buffers that packing `sequences` produces.
pub open spec fn packed(sequences: Seq<Seq<u16>>) -> Seq<Seq<u16>> {
    Seq::new(
        buffer_count(sequences),
        |b: int| Seq::new(MAX_LEN as nat, |p: int| cell(sequences, sequences.len() as int, b, p)),
    )
}

/// A buffer that is not open yet holds padding only.
proof fn lemma_unopened_is_padding(sequences: Seq<Seq<u16>>, n: int, b: int, p: int)
    requires
        0 <= n,
        b >= cursor(sequences, n).buffers,
    ensures
        cell(sequences, n, b, p) == PADDING,
    decreases n,
{
    if n > 0 {
        lemma_unopened_is_padding(sequences, n - 1, b, p);
    }
}

/// A fresh buffer: `MAX_LEN` padding ids.
fn empty_buffer() -> (buffer: Vec<u16>)
    ensures
        buffer@ == Seq::new(MAX_LEN as nat, |p: int| PADDING),
{
    vec![PADDING; MAX_LEN]
}

/// Copies `tokens` over the positions `start..start + tokens.len()` of `buffer`.
fn write_at(buffer: &mut Vec<u16>, start: usize, tokens: &Vec<u16>)
    requires
        start + tokens.len() <= old(buffer).len(),
    ensures
        final(buffer).len() == old(buffer).len(),
        forall|p: int|
            0 <= p < old(buffer).len() ==> final(buffer)[p] == if start <= p < start + tokens.len() {
                tokens[p - start]
            } else {
                old(buffer)[p]
            },
{
    let mut k: usize = 0;
    while k < tokens.len()
        invariant
            k <= tokens.len(),
            buffer.len() == old(buffer).len(),
            start + tokens.len() <= buffer.len(),
            forall|p: int|
                0 <= p < buffer.len() ==> buffer[p] == if start <= p < start + k {
                    tokens[p - start]
                } else {
                    old(buffer)[p]
                },
        decreases tokens.len() - k,
    {
        buffer.set(start + k, tokens[k]);
        k += 1;
    }
}

/// Packs `sequences`, in order, into buffers of `MAX_LEN` ids.
///
/// Each sequence goes behind the previous one in the buffer being filled, or,
/// if it does not fit there, to the front of a new buffer. Positions that no
/// sequence occupies hold `PADDING`.
pub fn pack(sequences: &Vec<Vec<u16>>) -> (buffers: Vec<Vec<u16>>)
    requires
        lengths_fit(views(sequences@)),
    ensures
        views(buffers@) == packed(views(sequences@)),
        forall|b: int| 0 <= b < buffers.len() ==> (#[trigger] buffers[b]).len() == MAX_LEN,
{
    let ghost input = views(sequences@);
    let mut buffers: Vec<Vec<u16>> = Vec::new();
    let mut start: usize = 0;
    let mut n: usize = 0;
    while n < sequences.len()
        invariant
            n <= sequences.len(),
            input == views(sequences@),
            lengths_fit(input),
            buffers.len() == cursor(input, n as int).buffers,
            start == cursor(input, n as int).start,
            start <= MAX_LEN,
            forall|b: int| 0 <= b < buffers.len() ==> (#[trigger] buffers[b]).len() == MAX_LEN,
            forall|b: int, p: int|
                0 <= b < buffers.len() && 0 <= p < MAX_LEN ==> #[trigger] buffers[b][p] == cell(
                    input,
                    n as int,
                    b,
                    p,
                ),
        decreases sequences.len() - n,
    {
        let tokens = &sequences[n];
        assert(input[n as int] == tokens@);
        let ghost before = buffers@;
        if buffers.len() == 0 || start + tokens.len() > MAX_LEN {
            buffers.push(empty_buffer());
            start = 0;
        }
        let last: usize = buffers.len() - 1;
        write_at(&mut buffers[last], start, tokens);
        start = start + tokens.len();
        proof {
            assert forall|b: int, p: int|
                0 <= b < buffers.len() && 0 <= p < MAX_LEN implies #[trigger] buffers[b][p]
                == cell(input, n + 1, b, p) by {
                if b >= before.len() {
                    lemma_unopened_is_padding(input, n as int, b, p);
                }
            }
        }
        n += 1;
    }
    assert(views(buffers@) =~~= packed(input));
    buffers
}

} // verus!
