//! What the packing layout guarantees: where each sequence lies, how full a
//! buffer gets, and what the unused positions hold.

use vstd::prelude::*;
use crate::{MAX_LEN, PADDING};
use crate::pack::{buffer_count, buffer_of, cell, covers, cursor, lengths_fit, offset_of, packed};

verus! {

/// Tokens that the first `n` sequences put into buffer `b`, all told.
pub open spec fn load(sequences: Seq<Seq<u16>>, n: int, b: int) -> nat
    decreases n,
{
    if n <= 0 {
        0
    } else if buffer_of(sequences, n - 1) == b {
        load(sequences, n - 1, b) + sequences[n - 1].len()
    } else {
        load(sequences, n - 1, b)
    }
}

/// Tokens that buffer `b` holds when all of `sequences` are packed.
pub open spec fn final_load(sequences: Seq<Seq<u16>>, b: int) -> nat {
    load(sequences, sequences.len() as int, b)
}

/// Tokens in the first `n` sequences, all told.
pub open spec fn total_len(sequences: Seq<Seq<u16>>, n: int) -> nat
    decreases n,
{
    if n <= 0 {
        0
    } else {
        total_len(sequences, n - 1) + sequences[n - 1].len()
    }
}

/// No sequence holds the padding id.
pub open spec fn free_of_padding(sequences: Seq<Seq<u16>>) -> bool {
    forall|i: int, k: int|
        0 <= i < sequences.len() && 0 <= k < sequences[i].len() ==> #[trigger] sequences[i][k]
            != PADDING
}

/// The cursor stays inside the buffer it points into.
pub proof fn lemma_cursor_in_buffer(sequences: Seq<Seq<u16>>, n: int)
    requires
        lengths_fit(sequences),
        0 <= n <= sequences.len(),
    ensures
        cursor(sequences, n).start <= MAX_LEN,
    decreases n,
{
    if n > 0 {
        lemma_cursor_in_buffer(sequences, n - 1);
    }
}

/// A sequence that has been placed lies in an open buffer, and if that is the
/// buffer being filled, it ends at or before the cursor.
pub proof fn lemma_placed_before_cursor(sequences: Seq<Seq<u16>>, i: int, n: int)
    requires
        0 <= i < n,
    ensures
        0 <= buffer_of(sequences, i) < cursor(sequences, n).buffers,
        buffer_of(sequences, i) == cursor(sequences, n).buffers - 1 ==> offset_of(sequences, i)
            + sequences[i].len() <= cursor(sequences, n).start,
    decreases n,
{
    if i + 1 < n {
        lemma_placed_before_cursor(sequences, i, n - 1);
    }
}

/// Two different sequences never occupy the same position.
pub proof fn lemma_no_overlap(sequences: Seq<Seq<u16>>, i: int, j: int, b: int, p: int)
    requires
        0 <= i < j,
        covers(sequences, i, b, p),
    ensures
        !covers(sequences, j, b, p),
{
    lemma_placed_before_cursor(sequences, i, j);
}

/// Once a sequence is placed, later sequences leave its tokens alone.
pub proof fn lemma_tokens_stay(sequences: Seq<Seq<u16>>, i: int, n: int, b: int, p: int)
    requires
        0 <= i < n,
        covers(sequences, i, b, p),
    ensures
        cell(sequences, n, b, p) == sequences[i][p - offset_of(sequences, i)],
    decreases n,
{
    if i + 1 < n {
        lemma_no_overlap(sequences, i, n - 1, b, p);
        lemma_tokens_stay(sequences, i, n - 1, b, p);
    }
}

/// A sequence of at most `MAX_LEN` ids lies whole and unbroken in one buffer:
/// sequence `i` fills the positions from `offset_of(i)` on in buffer
/// `buffer_of(i)`, inside the buffer's bounds.
pub proof fn lemma_sequence_is_contiguous(sequences: Seq<Seq<u16>>, i: int)
    requires
        0 <= i < sequences.len(),
        sequences[i].len() <= MAX_LEN,
    ensures
        0 <= buffer_of(sequences, i) < packed(sequences).len(),
        0 <= offset_of(sequences, i),
        offset_of(sequences, i) + sequences[i].len() <= MAX_LEN,
        packed(sequences)[buffer_of(sequences, i)].subrange(
            offset_of(sequences, i),
            offset_of(sequences, i) + sequences[i].len(),
        ) == sequences[i],
{
    let b: int = buffer_of(sequences, i);
    let offset: int = offset_of(sequences, i);
    let n: int = sequences.len() as int;
    lemma_placed_before_cursor(sequences, i, n);
    let part = packed(sequences)[b].subrange(offset, offset + sequences[i].len());
    assert forall|k: int| 0 <= k < sequences[i].len() implies part[k] == sequences[i][k] by {
        lemma_tokens_stay(sequences, i, n, b, offset + k);
    }
}

/// Every buffer is exactly `MAX_LEN` ids wide.
pub proof fn lemma_buffer_width(sequences: Seq<Seq<u16>>, b: int)
    requires
        0 <= b < packed(sequences).len(),
    ensures
        packed(sequences)[b].len() == MAX_LEN,
{
}

/// The buffer being filled is loaded up to the cursor, and a buffer that is
/// not open yet is empty.
pub proof fn lemma_load_at_cursor(sequences: Seq<Seq<u16>>, n: int, b: int)
    requires
        0 <= n,
    ensures
        b == cursor(sequences, n).buffers - 1 ==> load(sequences, n, b) == cursor(sequences, n).start,
        b >= cursor(sequences, n).buffers || b < 0 ==> load(sequences, n, b) == 0,
    decreases n,
{
    if n > 0 {
        lemma_load_at_cursor(sequences, n - 1, b);
    }
}

/// A sequence begins where the sequences placed before it in its buffer end.
pub proof fn lemma_offset_is_load(sequences: Seq<Seq<u16>>, i: int)
    requires
        0 <= i,
    ensures
        offset_of(sequences, i) == load(sequences, i, buffer_of(sequences, i)),
{
    lemma_load_at_cursor(sequences, i, buffer_of(sequences, i));
}

/// No buffer is loaded beyond its width while the sequences fit.
pub proof fn lemma_load_bounds(sequences: Seq<Seq<u16>>, n: int, b: int)
    requires
        lengths_fit(sequences),
        0 <= n <= sequences.len(),
    ensures
        load(sequences, n, b) <= MAX_LEN,
    decreases n,
{
    if n > 0 {
        lemma_load_bounds(sequences, n - 1, b);
        lemma_load_at_cursor(sequences, n, b);
        lemma_cursor_in_buffer(sequences, n);
    }
}

/// The sequences placed in one buffer never add up to more than `MAX_LEN`.
pub proof fn lemma_no_overflow(sequences: Seq<Seq<u16>>, b: int)
    requires
        lengths_fit(sequences),
    ensures
        final_load(sequences, b) <= MAX_LEN,
{
    lemma_load_bounds(sequences, sequences.len() as int, b);
}

/// Positions at or beyond the load of a buffer hold padding.
pub proof fn lemma_padding_after_load(sequences: Seq<Seq<u16>>, n: int, b: int, p: int)
    requires
        0 <= n,
        load(sequences, n, b) <= p,
    ensures
        cell(sequences, n, b, p) == PADDING,
    decreases n,
{
    if n > 0 {
        lemma_offset_is_load(sequences, n - 1);
        lemma_padding_after_load(sequences, n - 1, b, p);
    }
}

/// In every buffer, each position behind the last token written is padding.
pub proof fn lemma_padding(sequences: Seq<Seq<u16>>, b: int, p: int)
    requires
        0 <= b < packed(sequences).len(),
        final_load(sequences, b) <= p < MAX_LEN,
    ensures
        packed(sequences)[b][p] == PADDING,
{
    lemma_padding_after_load(sequences, sequences.len() as int, b, p);
}

/// Each position below the load of a buffer belongs to one of the sequences
/// placed there.
pub proof fn lemma_loaded_position_has_owner(sequences: Seq<Seq<u16>>, n: int, b: int, p: int) -> (i:
    int)
    requires
        0 <= n,
        0 <= p < load(sequences, n, b),
    ensures
        0 <= i < n,
        covers(sequences, i, b, p),
    decreases n,
{
    if buffer_of(sequences, n - 1) == b && load(sequences, n - 1, b) <= p {
        lemma_offset_is_load(sequences, n - 1);
        n - 1
    } else {
        lemma_loaded_position_has_owner(sequences, n - 1, b, p)
    }
}

/// Where no sequence holds the padding id, padding marks exactly the unused
/// positions: a position of a buffer holds it if and only if the position
/// lies behind the last token written there.
pub proof fn lemma_padding_marks_unused(sequences: Seq<Seq<u16>>, b: int, p: int)
    requires
        free_of_padding(sequences),
        0 <= b < packed(sequences).len(),
        0 <= p < MAX_LEN,
    ensures
        packed(sequences)[b][p] == PADDING <==> final_load(sequences, b) <= p,
{
    let n: int = sequences.len() as int;
    if p < final_load(sequences, b) {
        let i: int = lemma_loaded_position_has_owner(sequences, n, b, p);
        lemma_tokens_stay(sequences, i, n, b, p);
    } else {
        lemma_padding(sequences, b, p);
    }
}

/// The buffers open after `n` sequences have room for all their tokens: the
/// buffers before the last one are counted full, the last one up to the
/// cursor.
pub proof fn lemma_room_for_tokens(sequences: Seq<Seq<u16>>, n: int)
    requires
        lengths_fit(sequences),
        0 <= n <= sequences.len(),
    ensures
        cursor(sequences, n).buffers <= n,
        cursor(sequences, n).buffers == 0 <==> n == 0,
        n > 0 ==> total_len(sequences, n) <= (cursor(sequences, n).buffers - 1) * MAX_LEN + cursor(
            sequences,
            n,
        ).start,
    decreases n,
{
    if n > 0 {
        lemma_room_for_tokens(sequences, n - 1);
        lemma_cursor_in_buffer(sequences, n - 1);
    }
}

/// How many buffers packing produces: none for no sequence, otherwise at
/// least one, at most one for each sequence, and never fewer than all the
/// tokens need.
pub proof fn lemma_buffer_count_bounds(sequences: Seq<Seq<u16>>)
    requires
        lengths_fit(sequences),
    ensures
        buffer_count(sequences) <= sequences.len(),
        buffer_count(sequences) == 0 <==> sequences.len() == 0,
        total_len(sequences, sequences.len() as int) <= buffer_count(sequences) * MAX_LEN,
{
    lemma_room_for_tokens(sequences, sequences.len() as int);
    lemma_cursor_in_buffer(sequences, sequences.len() as int);
}

} // verus!
