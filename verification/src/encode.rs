//! Encoding prompts into token sequences, and the filter that keeps only the
//! sequences short enough to be packed.
//!
//! The order of the prompts is kept: the sequences that are accepted come out
//! in the order in which their prompts came in.
//!
//! A tokenizer whose vocabulary holds the empty pattern cannot be used for
//! encoding: `can_encode` tells, and is to be asked once, when the tokenizer
//! has been loaded. `padding_is_free` tells whether the vocabulary leaves the
//! padding id to the packer.

use vstd::prelude::*;
use web_rwkv::tokenizer::Tokenizer;
use crate::{MAX_LEN, PADDING};
use crate::pack::{packed, views};
use crate::placement::free_of_padding;
use crate::prompt::texts;
use crate::tokenizer::{
    encoding, has_empty_token, tokenizer_encode, tokenizer_has_empty_token, tokenizer_ids,
    vocabulary_ids,
};

verus! {

/// What is kept of one encoding: the token sequence if there is one and it is
/// shorter than `MAX_LEN`, nothing otherwise.
pub open spec fn accepted(encoded: Option<Seq<u16>>) -> Option<Seq<u16>> {
    match encoded {
        Some(tokens) => if tokens.len() < MAX_LEN {
            Some(tokens)
        } else {
            None
        },
        None => None,
    }
}

/// What is kept of a list of encodings: the accepted sequences, in order.
pub open spec fn accepted_all(encoded: Seq<Option<Seq<u16>>>) -> Seq<Seq<u16>>
    decreases encoded.len(),
{
    if encoded.len() == 0 {
        Seq::empty()
    } else {
        let earlier = accepted_all(encoded.drop_last());
        match accepted(encoded.last()) {
            Some(tokens) => earlier.push(tokens),
            None => earlier,
        }
    }
}

/// The encodings of `prompts` under `tokenizer`, one for each prompt.
pub open spec fn encodings(tokenizer: Tokenizer, prompts: Seq<Seq<char>>) -> Seq<Option<Seq<u16>>> {
    Seq::new(prompts.len(), |i: int| encoding(tokenizer, prompts[i]))
}

/// The tokens of `encoded`, if any, as a mathematical sequence.
pub open spec fn tokens_of(encoded: Option<Vec<u16>>) -> Option<Seq<u16>> {
    match encoded {
        Some(tokens) => Some(tokens@),
        None => None,
    }
}

/// Every id of `tokens` is one that the vocabulary of `tokenizer` gives to a
/// pattern.
pub open spec fn within_vocabulary(tokenizer: Tokenizer, tokens: Seq<u16>) -> bool {
    forall|k: int| 0 <= k < tokens.len() ==> vocabulary_ids(tokenizer).contains(#[trigger] tokens[k])
}

/// Whether `tokenizer` can be used for encoding: it can unless its vocabulary
/// holds the empty pattern.
pub fn can_encode(tokenizer: &Tokenizer) -> (ok: bool)
    ensures
        ok == !has_empty_token(*tokenizer),
{
    !tokenizer_has_empty_token(tokenizer)
}

/// Whether the vocabulary of `tokenizer` gives the padding id to no pattern,
/// so that no encoding holds it.
pub fn padding_is_free(tokenizer: &Tokenizer) -> (free: bool)
    ensures
        free == !vocabulary_ids(*tokenizer).contains(PADDING),
{
    let ids = tokenizer_ids(tokenizer);
    let mut free = true;
    let mut k: usize = 0;
    while k < ids.len()
        invariant
            k <= ids.len(),
            free == forall|j: int| 0 <= j < k ==> ids[j] != PADDING,
        decreases ids.len() - k,
    {
        if ids[k] == PADDING {
            free = false;
        }
        k += 1;
    }
    proof {
        if !free {
            let j: int = choose|j: int| 0 <= j < ids.len() && ids[j] == PADDING;
            assert(ids@.contains(ids@[j]));
        }
    }
    free
}

/// Keeps an encoding that is shorter than `MAX_LEN` and drops any other.
pub fn accept(encoded: Option<Vec<u16>>) -> (kept: Option<Vec<u16>>)
    ensures
        kept == if encoded.is_some() && encoded.unwrap().len() < MAX_LEN {
            encoded
        } else {
            None
        },
        tokens_of(kept) == accepted(tokens_of(encoded)),
{
    match encoded {
        Some(tokens) => if tokens.len() < MAX_LEN {
            Some(tokens)
        } else {
            None
        },
        None => None,
    }
}

/// Encodes one prompt. A prompt that the tokenizer cannot encode is dropped,
/// and so is one whose encoding has `MAX_LEN` ids or more.
pub fn encode_prompt(tokenizer: &Tokenizer, prompt: &str) -> (kept: Option<Vec<u16>>)
    requires
        !has_empty_token(*tokenizer),
    ensures
        tokens_of(kept) == accepted(encoding(*tokenizer, prompt@)),
        kept.is_some() ==> within_vocabulary(*tokenizer, kept.unwrap()@),
{
    let encoded = match tokenizer_encode(tokenizer, prompt) {
        Ok(tokens) => Some(tokens),
        Err(_) => None,
    };
    accept(encoded)
}

/// Encodes the prompts of a file and keeps the accepted sequences, in the
/// order of their prompts.
pub fn encode_prompts(tokenizer: &Tokenizer, prompts: &Vec<String>) -> (sequences: Vec<Vec<u16>>)
    requires
        !has_empty_token(*tokenizer),
    ensures
        views(sequences@) == accepted_all(encodings(*tokenizer, texts(prompts@))),
        forall|i: int| 0 <= i < sequences.len() ==> (#[trigger] sequences[i]).len() < MAX_LEN,
        forall|i: int|
            0 <= i < sequences.len() ==> within_vocabulary(*tokenizer, (#[trigger] sequences[i])@),
{
    let ghost all = encodings(*tokenizer, texts(prompts@));
    let mut sequences: Vec<Vec<u16>> = Vec::new();
    let mut i: usize = 0;
    while i < prompts.len()
        invariant
            i <= prompts.len(),
            all == encodings(*tokenizer, texts(prompts@)),
            !has_empty_token(*tokenizer),
            views(sequences@) == accepted_all(all.take(i as int)),
            forall|k: int| 0 <= k < sequences.len() ==> (#[trigger] sequences[k]).len() < MAX_LEN,
            forall|k: int|
                0 <= k < sequences.len() ==> within_vocabulary(
                    *tokenizer,
                    (#[trigger] sequences[k])@,
                ),
        decreases prompts.len() - i,
    {
        let kept = encode_prompt(tokenizer, prompts[i].as_str());
        proof {
            assert(all.take(i + 1).drop_last() == all.take(i as int));
        }
        match kept {
            Some(tokens) => sequences.push(tokens),
            None => {},
        }
        i += 1;
    }
    assert(all.take(prompts.len() as int) == all);
    sequences
}

/// What is kept of two lists of encodings, one behind the other, is what is
/// kept of the first followed by what is kept of the second.
pub proof fn lemma_accepted_all_concat(front: Seq<Option<Seq<u16>>>, back: Seq<Option<Seq<u16>>>)
    ensures
        accepted_all(front + back) == accepted_all(front) + accepted_all(back),
    decreases back.len(),
{
    if back.len() > 0 {
        assert((front + back).drop_last() == front + back.drop_last());
        lemma_accepted_all_concat(front, back.drop_last());
    }
}

/// A prompt that cannot be encoded, or whose encoding has `MAX_LEN` ids or
/// more, leaves no trace: the sequences kept are those that would be kept had
/// the prompt never been there.
pub proof fn lemma_dropped_leaves_no_trace(
    before: Seq<Option<Seq<u16>>>,
    dropped: Option<Seq<u16>>,
    after: Seq<Option<Seq<u16>>>,
)
    requires
        dropped.is_none() || dropped.unwrap().len() >= MAX_LEN,
    ensures
        accepted_all(before + seq![dropped] + after) == accepted_all(before + after),
        packed(accepted_all(before + seq![dropped] + after)) == packed(
            accepted_all(before + after),
        ),
{
    lemma_accepted_all_concat(before + seq![dropped], after);
    lemma_accepted_all_concat(before, seq![dropped]);
    lemma_accepted_all_concat(before, after);
    assert(accepted_all(seq![dropped]) == Seq::<Seq<u16>>::empty()) by {
        reveal_with_fuel(accepted_all, 2);
    }
}

/// A prompt whose encoding has `MAX_LEN` ids or more, or that has no
/// encoding, leaves no trace in the buffers of its file: they are the buffers
/// that the other prompts alone would give.
pub proof fn lemma_oversize_prompt_leaves_no_trace(
    tokenizer: Tokenizer,
    before: Seq<Seq<char>>,
    prompt: Seq<char>,
    after: Seq<Seq<char>>,
)
    requires
        encoding(tokenizer, prompt).is_none() || encoding(tokenizer, prompt).unwrap().len()
            >= MAX_LEN,
    ensures
        accepted_all(encodings(tokenizer, before + seq![prompt] + after)) == accepted_all(
            encodings(tokenizer, before + after),
        ),
        packed(accepted_all(encodings(tokenizer, before + seq![prompt] + after))) == packed(
            accepted_all(encodings(tokenizer, before + after)),
        ),
{
    let dropped = encoding(tokenizer, prompt);
    assert(encodings(tokenizer, before + seq![prompt] + after) =~= encodings(tokenizer, before)
        + seq![dropped] + encodings(tokenizer, after));
    assert(encodings(tokenizer, before + after) =~= encodings(tokenizer, before) + encodings(
        tokenizer,
        after,
    ));
    lemma_dropped_leaves_no_trace(encodings(tokenizer, before), dropped, encodings(tokenizer, after));
}

/// Sequences made of ids of a vocabulary that leaves the padding id free
/// hold no padding id.
pub proof fn lemma_free_vocabulary_gives_free_sequences(
    tokenizer: Tokenizer,
    sequences: Seq<Seq<u16>>,
)
    requires
        !vocabulary_ids(tokenizer).contains(PADDING),
        forall|i: int|
            0 <= i < sequences.len() ==> within_vocabulary(tokenizer, #[trigger] sequences[i]),
    ensures
        free_of_padding(sequences),
{
    assert forall|i: int, k: int|
        0 <= i < sequences.len() && 0 <= k < sequences[i].len() implies #[trigger] sequences[i][k]
        != PADDING by {
        assert(within_vocabulary(tokenizer, sequences[i]));
    }
}

/// Every sequence that is kept is shorter than `MAX_LEN`, and is the encoding
/// of one of the prompts.
pub proof fn lemma_accepted_are_short(encoded: Seq<Option<Seq<u16>>>, k: int) -> (i: int)
    requires
        0 <= k < accepted_all(encoded).len(),
    ensures
        0 <= i < encoded.len(),
        encoded[i] == Some(accepted_all(encoded)[k]),
        accepted_all(encoded)[k].len() < MAX_LEN,
    decreases encoded.len(),
{
    if k < accepted_all(encoded.drop_last()).len() {
        lemma_accepted_are_short(encoded.drop_last(), k)
    } else {
        encoded.len() - 1
    }
}

} // verus!
