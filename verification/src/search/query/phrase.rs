use vstd::prelude::*;

verus! {

/// The arguments of a phrase query: the terms of the phrase, the field, and
/// how far apart the terms may be.
#[derive(Debug)]
pub struct PhraseQueryArgs {
    pub phrase_terms: Vec<String>,
    pub field: String,
    pub slop: u32,
}

} // verus!
