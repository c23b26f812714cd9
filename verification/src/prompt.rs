//! Labeled retrieval examples and the directional prompts written from them.

use vstd::prelude::*;

verus! {

/// Ends the passage inside a prompt.
pub const PASSAGE_END: char = '\x16';

/// Ends the query inside a prompt.
pub const QUERY_END: char = '\x17';

/// Marks a passage that answers the query.
pub const POSITIVE: char = '+';

/// Marks a passage that does not answer the query.
pub const NEGATIVE: char = '-';

/// Closes every prompt.
pub const TERMINATOR: char = '\0';

/// One labeled example: a query, with passages that answer it and passages
/// that do not.
#[derive(Debug, Clone)]
pub struct DataItem {
    /// The query text.
    pub query: String,
    /// Passages that answer the query.
    pub pos: Vec<String>,
    /// Passages that do not answer the query.
    pub neg: Vec<String>,
}

/// The texts held by `strings`, as sequences of characters.
pub open spec fn texts(strings: Seq<String>) -> Seq<Seq<char>> {
    Seq::new(strings.len(), |i: int| strings[i]@)
}

/// The prompt for one passage: the passage, the query and the polarity marker,
/// each closed by its delimiter.
pub open spec fn prompt_text(passage: Seq<char>, query: Seq<char>, marker: char) -> Seq<char> {
    passage + seq![PASSAGE_END] + query + seq![QUERY_END, marker, TERMINATOR]
}

/// The prompts of all of `items`, example after example.
pub open spec fn all_prompts(items: Seq<DataItem>) -> Seq<Seq<char>>
    decreases items.len(),
{
    if items.len() == 0 {
        Seq::empty()
    } else {
        all_prompts(items.drop_last()) + items.last().prompts()
    }
}

/// Writes the prompt for one passage.
pub fn directional_prompt(passage: &str, query: &str, positive: bool) -> (prompt: String)
    ensures
        prompt@ == prompt_text(passage@, query@, if positive { POSITIVE } else { NEGATIVE }),
{
    proof {
        reveal_strlit("\x16");
        reveal_strlit("\x17+\0");
        reveal_strlit("\x17-\0");
    }
    let mut prompt = String::from_str(passage);
    prompt.append("\x16");
    prompt.append(query);
    if positive {
        prompt.append("\x17+\0");
    } else {
        prompt.append("\x17-\0");
    }
    prompt
}

impl DataItem {
    /// The prompts of this example: one for each positive passage, then one
    /// for each negative passage, in the order in which the passages stand.
    pub open spec fn prompts(&self) -> Seq<Seq<char>> {
        Seq::new(
            (self.pos.len() + self.neg.len()) as nat,
            |k: int|
                if k < self.pos.len() {
                    prompt_text(self.pos[k]@, self.query@, POSITIVE)
                } else {
                    prompt_text(self.neg[k - self.pos.len()]@, self.query@, NEGATIVE)
                },
        )
    }

    /// Writes the prompts of this example.
    pub fn format(&self) -> (prompts: Vec<String>)
        ensures
            texts(prompts@) == self.prompts(),
    {
        let mut prompts: Vec<String> = Vec::new();
        let mut i: usize = 0;
        while i < self.pos.len()
            invariant
                i <= self.pos.len(),
                prompts.len() == i,
                forall|k: int|
                    0 <= k < i ==> (#[trigger] prompts[k])@ == prompt_text(
                        self.pos[k]@,
                        self.query@,
                        POSITIVE,
                    ),
            decreases self.pos.len() - i,
        {
            prompts.push(directional_prompt(self.pos[i].as_str(), self.query.as_str(), true));
            i += 1;
        }
        let mut j: usize = 0;
        while j < self.neg.len()
            invariant
                j <= self.neg.len(),
                prompts.len() == self.pos.len() + j,
                forall|k: int|
                    0 <= k < self.pos.len() ==> (#[trigger] prompts[k])@ == prompt_text(
                        self.pos[k]@,
                        self.query@,
                        POSITIVE,
                    ),
                forall|k: int|
                    self.pos.len() <= k < self.pos.len() + j ==> (#[trigger] prompts[k])@
                        == prompt_text(self.neg[k - self.pos.len()]@, self.query@, NEGATIVE),
            decreases self.neg.len() - j,
        {
            prompts.push(directional_prompt(self.neg[j].as_str(), self.query.as_str(), false));
            j += 1;
        }
        prompts
    }
}

/// Writes the prompts of every example of a file, in the order of the
/// examples.
pub fn format_all(items: &Vec<DataItem>) -> (prompts: Vec<String>)
    ensures
        texts(prompts@) == all_prompts(items@),
{
    let mut prompts: Vec<String> = Vec::new();
    let mut i: usize = 0;
    while i < items.len()
        invariant
            i <= items.len(),
            texts(prompts@) == all_prompts(items@.take(i as int)),
        decreases items.len() - i,
    {
        let mut more = items[i].format();
        prompts.append(&mut more);
        proof {
            assert(items@.take(i + 1).drop_last() == items@.take(i as int));
        }
        i += 1;
    }
    assert(items@.take(items.len() as int) == items@);
    prompts
}

} // verus!
