//! The tokenizer that turns a prompt into token ids. It is taken as it comes
//! from `web_rwkv`: nothing in this file is proved.

use vstd::prelude::*;
use web_rwkv::tokenizer::{Tokenizer, TokenizerError};

verus! {

/// `web_rwkv::tokenizer::Tokenizer`, a vocabulary ready for encoding. Its
/// contents are not visible here.
#[verifier::external_type_specification]
#[verifier::external_body]
pub struct ExTokenizer(web_rwkv::tokenizer::Tokenizer);

/// `web_rwkv::tokenizer::TokenizerError`, the reason why a text could not be
/// encoded. Its contents are not visible here.
#[verifier::external_type_specification]
#[verifier::external_body]
pub struct ExTokenizerError(web_rwkv::tokenizer::TokenizerError);

/// Whether the vocabulary of `tokenizer` holds the empty pattern, that is,
/// whether its table from patterns to ids has an entry for no bytes at all.
pub uninterp spec fn has_empty_token(tokenizer: Tokenizer) -> bool;

/// The ids that the vocabulary of `tokenizer` gives to a pattern: the values
/// of its table from patterns to ids.
pub uninterp spec fn vocabulary_ids(tokenizer: Tokenizer) -> Set<u16>;

/// What `Tokenizer::encode` makes of the UTF-8 bytes of `prompt`: the token
/// ids, or `None` where some part of the text matches no token of the
/// vocabulary.
pub uninterp spec fn encoding(tokenizer: Tokenizer, prompt: Seq<char>) -> Option<Seq<u16>>;

/// Looks the empty pattern up in the table that
/// `Tokenizer::bytes_to_token_index` hands out.
///
/// The contract gives the answer the name `has_empty_token`: the lookup reads
/// the table and nothing else.
#[verifier::external_body]
pub(crate) fn tokenizer_has_empty_token(tokenizer: &Tokenizer) -> (found: bool)
    ensures
        found == has_empty_token(*tokenizer),
{
    let empty: &[u8] = &[];
    tokenizer.bytes_to_token_index().contains_key(empty)
}

/// Hands out the ids in the table of `Tokenizer::bytes_to_token_index`, in no
/// particular order and with repetitions where two patterns share an id.
///
/// The contract claims that, taken as a set, they are `vocabulary_ids`.
#[verifier::external_body]
pub(crate) fn tokenizer_ids(tokenizer: &Tokenizer) -> (ids: Vec<u16>)
    ensures
        ids@.to_set() == vocabulary_ids(*tokenizer),
{
    tokenizer.bytes_to_token_index().values().copied().collect()
}

/// Calls `web_rwkv::tokenizer::Tokenizer::encode` on the UTF-8 bytes of
/// `prompt`.
///
/// The contract claims that the outcome is a function of the tokenizer and
/// the text, which it names `encoding`, and that every id that comes out is
/// one of `vocabulary_ids`: `encode` reads the tokenizer's tables and the
/// input and nothing else, and pushes only ids that it found in the table
/// from patterns to ids.
///
/// Two inputs are kept away from the call. A vocabulary with the empty
/// pattern is excluded by `requires`: the tokenizer records the length of a
/// pattern in sixteen bits, so a pattern of 65 536 bytes counts as one of
/// length zero, and a match of length zero, which only the empty pattern can
/// give, consumes nothing and is repeated without end. Without the empty
/// pattern every match consumes at least one byte. The byte pair `0xFF 0xFF`,
/// the one table key for which `encode` has no entry, cannot occur: the text
/// comes in as a `&str`, whose bytes are valid UTF-8.
#[verifier::external_body]
pub(crate) fn tokenizer_encode(tokenizer: &Tokenizer, prompt: &str) -> (result: Result<
    Vec<u16>,
    TokenizerError,
>)
    requires
        !has_empty_token(*tokenizer),
    ensures
        match result {
            Ok(tokens) => encoding(*tokenizer, prompt@) == Some(tokens@),
            Err(_) => encoding(*tokenizer, prompt@).is_none(),
        },
        match result {
            Ok(tokens) => forall|k: int|
                0 <= k < tokens.len() ==> vocabulary_ids(*tokenizer).contains(#[trigger] tokens[k]),
            Err(_) => true,
        },
{
    tokenizer.encode(prompt.as_bytes())
}

} // verus!
