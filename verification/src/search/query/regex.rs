use vstd::prelude::*;

verus! {

/// The arguments of a regular expression query: the field and the
/// expression.
#[derive(Debug)]
pub struct RegexQueryArgs {
    pub field: String,
    pub regex: String,
}

} // verus!
