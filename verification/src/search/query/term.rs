use vstd::prelude::*;

verus! {

/// The arguments of a term query: the field and the term.
#[derive(Debug)]
pub struct TermQueryArgs {
    pub field: String,
    pub term: String,
}

} // verus!
