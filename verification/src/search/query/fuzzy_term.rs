use vstd::prelude::*;

verus! {

/// The arguments of a fuzzy term query: the field, the term, the largest
/// edit distance, whether a transposition costs one edit, and whether the
/// term is a prefix.
#[derive(Debug)]
pub struct FuzzyTermQueryArgs {
    pub field: String,
    pub term: String,
    pub distance: u8,
    pub transposition_cost_one: bool,
    pub prefix: bool,
}

} // verus!
