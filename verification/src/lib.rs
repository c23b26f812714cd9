//! Turns labeled retrieval examples into a flat dataset of fixed-width token
//! buffers.
//!
//! Each example is written out as directional prompts (`prompt`), the prompts
//! are encoded by the tokenizer and filtered by length (`tokenizer`,
//! `encode`), the accepted token sequences are packed greedily into buffers of
//! `MAX_LEN` ids (`pack`, with the guarantees of the layout in `placement`).
//! `corpus` does all of this for one file of examples, and `dataset` collects
//! the buffers of all files for reading by index.

use vstd::prelude::*;

pub mod prompt;
pub mod tokenizer;
pub mod encode;
pub mod pack;
pub mod placement;
pub mod corpus;
pub mod dataset;

verus! {

/// Capacity of one packed buffer, in token ids.
pub const MAX_LEN: usize = 4096;

/// The token id that fills the unused positions of a buffer. It marks them
/// reliably only where the tokenizer's vocabulary gives this id to no token,
/// which `encode::padding_is_free` tells.
pub const PADDING: u16 = 0;

} // verus!
