//! The finished dataset: packed buffers in the order in which they were
//! appended, read by index.

use vstd::prelude::*;
use crate::MAX_LEN;
use crate::pack::views;

verus! {

/// What a read at index `idx` finds in `buffers`.
pub open spec fn lookup(buffers: Seq<Seq<u16>>, idx: int) -> Option<Seq<u16>> {
    if 0 <= idx < buffers.len() {
        Some(buffers[idx])
    } else {
        None
    }
}

/// An ordered collection of packed buffers, each `MAX_LEN` ids wide.
#[derive(Debug)]
pub struct Dataset {
    buffers: Vec<Vec<u16>>,
}

impl View for Dataset {
    type V = Seq<Seq<u16>>;

    closed spec fn view(&self) -> Seq<Seq<u16>> {
        views(self.buffers@)
    }
}

impl Dataset {
    #[verifier::type_invariant]
    spec fn full_width(&self) -> bool {
        forall|b: int| 0 <= b < self.buffers.len() ==> (#[trigger] self.buffers[b]).len() == MAX_LEN
    }

    /// A dataset without buffers.
    pub fn new() -> (dataset: Dataset)
        ensures
            dataset@ == Seq::<Seq<u16>>::empty(),
    {
        Dataset { buffers: Vec::new() }
    }

    /// The dataset grown by the buffers of one file, which go behind those
    /// already held.
    pub fn append(self, buffers: Vec<Vec<u16>>) -> (grown: Dataset)
        requires
            forall|b: int| 0 <= b < buffers.len() ==> (#[trigger] buffers[b]).len() == MAX_LEN,
        ensures
            grown@ == self@ + views(buffers@),
    {
        proof {
            use_type_invariant(&self);
        }
        let mut held = self.buffers;
        let mut added = buffers;
        held.append(&mut added);
        Dataset { buffers: held }
    }

    /// Number of buffers held.
    pub fn len(&self) -> (n: usize)
        ensures
            n == self@.len(),
    {
        self.buffers.len()
    }

    /// The buffer at index `idx`, counted from zero, or `None` where the
    /// dataset holds no buffer at that index. Reading changes nothing, and
    /// what is read depends on the buffers held and the index alone: the same
    /// index gives the same buffer every time.
    pub fn item(&self, idx: usize) -> (found: Option<&Vec<u16>>)
        ensures
            match found {
                Some(buffer) => Some(buffer@) == lookup(self@, idx as int),
                None => lookup(self@, idx as int).is_none(),
            },
            found.is_some() ==> found.unwrap().len() == MAX_LEN,
    {
        proof {
            use_type_invariant(self);
        }
        if idx < self.buffers.len() {
            Some(&self.buffers[idx])
        } else {
            None
        }
    }
}

} // verus!
