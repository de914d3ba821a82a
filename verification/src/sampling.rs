//! The sampling-facing interface surface: the sampler itself consumes
//! the logits this library produces and lives outside the layer core;
//! only the stop-token description crosses the boundary.

use vstd::prelude::*;

verus! {

/// Stop sequences or ids.
#[derive(Clone, Debug, PartialEq)]
pub enum StopTokens {
    Seqs(Vec<String>),
    Ids(Vec<u32>),
}

impl StopTokens {
    /// How many stop entries are listed.
    pub fn entry_count(&self) -> (r: usize)
        ensures
            (self matches StopTokens::Seqs(v) ==> r == v@.len()),
            (self matches StopTokens::Ids(v) ==> r == v@.len()),
    {
        match self {
            StopTokens::Seqs(v) => v.len(),
            StopTokens::Ids(v) => v.len(),
        }
    }
}

} // verus!
