//! Loading one file of examples: its prompts are written, encoded, filtered
//! and packed, in that order.
//!
//! `pack_file` asks for a tokenizer that can encode; `try_pack_file` asks the
//! tokenizer first and does nothing with one that cannot.

use vstd::prelude::*;
use web_rwkv::tokenizer::Tokenizer;
use crate::{MAX_LEN, PADDING};
use crate::encode::{
    accepted_all, can_encode, encode_prompts, encodings,
    lemma_free_vocabulary_gives_free_sequences,
};
use crate::pack::{pack, packed, views};
use crate::placement::free_of_padding;
use crate::prompt::{all_prompts, format_all, DataItem};
use crate::tokenizer::{has_empty_token, vocabulary_ids};

verus! {

/// The token sequences of one file of examples that go into its buffers.
pub open spec fn file_sequences(tokenizer: Tokenizer, items: Seq<DataItem>) -> Seq<Seq<u16>> {
    accepted_all(encodings(tokenizer, all_prompts(items)))
}

/// The buffers that one file of examples contributes: its prompts, encoded,
/// filtered and packed.
pub open spec fn file_buffers(tokenizer: Tokenizer, items: Seq<DataItem>) -> Seq<Seq<u16>> {
    packed(file_sequences(tokenizer, items))
}

/// Turns the examples of one file into packed buffers.
///
/// Where the vocabulary leaves the padding id free, no sequence that goes
/// into the buffers holds it, so that padding there marks unused positions
/// and nothing else.
pub fn pack_file(tokenizer: &Tokenizer, items: &Vec<DataItem>) -> (buffers: Vec<Vec<u16>>)
    requires
        !has_empty_token(*tokenizer),
    ensures
        views(buffers@) == file_buffers(*tokenizer, items@),
        forall|b: int| 0 <= b < buffers.len() ==> (#[trigger] buffers[b]).len() == MAX_LEN,
        !vocabulary_ids(*tokenizer).contains(PADDING) ==> free_of_padding(
            file_sequences(*tokenizer, items@),
        ),
{
    let prompts = format_all(items);
    let sequences = encode_prompts(tokenizer, &prompts);
    proof {
        if !vocabulary_ids(*tokenizer).contains(PADDING) {
            lemma_free_vocabulary_gives_free_sequences(*tokenizer, views(sequences@));
        }
    }
    pack(&sequences)
}

/// Turns the examples of one file into packed buffers, if `tokenizer` can
/// encode: `None` tells that its vocabulary holds the empty pattern, and that
/// nothing was encoded.
pub fn try_pack_file(tokenizer: &Tokenizer, items: &Vec<DataItem>) -> (packed: Option<
    Vec<Vec<u16>>,
>)
    ensures
        packed.is_none() <==> has_empty_token(*tokenizer),
        packed.is_some() ==> views(packed.unwrap()@) == file_buffers(*tokenizer, items@),
        packed.is_some() ==> forall|b: int|
            0 <= b < packed.unwrap().len() ==> (#[trigger] packed.unwrap()[b]).len() == MAX_LEN,
        packed.is_some() && !vocabulary_ids(*tokenizer).contains(PADDING) ==> free_of_padding(
            file_sequences(*tokenizer, items@),
        ),
{
    if can_encode(tokenizer) {
        Some(pack_file(tokenizer, items))
    } else {
        None
    }
}

/// A file without examples contributes no buffer.
pub proof fn lemma_empty_file_gives_no_buffer(tokenizer: Tokenizer)
    ensures
        file_buffers(tokenizer, Seq::<DataItem>::empty()) == Seq::<Seq<u16>>::empty(),
{
}

} // verus!
