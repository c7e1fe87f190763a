use vstd::prelude::*;
use vstd::string::StringExecFns;

use super::token_filter::{filter_kind_name, FilterKind};
use super::tokenizer::{tokenizer_kind_name, TokenizerKind};
use crate::error::{display_error, error_display, labelled_text, push_context, texts};

verus! {

/// The ways in which building text analyzers can fail.
#[derive(Clone, Copy, Debug, PartialEq, Eq, Structural)]
pub enum AnalyzerErrorKind {
    ParseFailure,
    InitializationFailure,
    InvalidTokenizerKind,
}

/// The name of `kind`, as a debug print of it reads.
pub open spec fn analyzer_error_kind_name(kind: AnalyzerErrorKind) -> Seq<char> {
    match kind {
        AnalyzerErrorKind::ParseFailure => "ParseFailure"@,
        AnalyzerErrorKind::InitializationFailure => "InitializationFailure"@,
        AnalyzerErrorKind::InvalidTokenizerKind => "InvalidTokenizerKind"@,
    }
}

impl AnalyzerErrorKind {
    /// The name of this kind.
    pub fn name(&self) -> (name: &'static str)
        ensures
            name@ == analyzer_error_kind_name(*self),
    {
        match self {
            AnalyzerErrorKind::ParseFailure => "ParseFailure",
            AnalyzerErrorKind::InitializationFailure => "InitializationFailure",
            AnalyzerErrorKind::InvalidTokenizerKind => "InvalidTokenizerKind",
        }
    }

    /// An error of this kind, described by `source`.
    pub fn with_error(self, source: String) -> (error: AnalyzerError)
        ensures
            error.kind() == self,
            error.description() == source@,
            error.causes() == Seq::<Seq<char>>::empty(),
    {
        AnalyzerError { kind: self, source, causes: Vec::new() }
    }
}

/// An error met while building text analyzers.
#[derive(Debug)]
pub struct AnalyzerError {
    pub kind: AnalyzerErrorKind,
    source: String,
    causes: Vec<String>,
}

impl AnalyzerError {
    /// What the error says: the context attached last, or the text it was
    /// made with.
    pub closed spec fn description(&self) -> Seq<char> {
        self.source@
    }

    /// What the error said before each context was attached, the most recent
    /// first: the chain of sources behind the description.
    pub closed spec fn causes(&self) -> Seq<Seq<char>> {
        texts(self.causes@)
    }

    /// The kind of this error, as the proofs see it.
    pub closed spec fn spec_kind(&self) -> AnalyzerErrorKind {
        self.kind
    }

    /// The same error with the context `ctx`: `ctx` becomes its description,
    /// and what it said before heads its causes.
    pub fn add_context(self, ctx: &str) -> (error: AnalyzerError)
        ensures
            error.kind() == self.kind(),
            error.description() == ctx@,
            error.causes() == seq![self.description()] + self.causes(),
    {
        let (source, causes) = push_context(ctx, self.source, self.causes);
        AnalyzerError { kind: self.kind, source, causes }
    }

    /// The kind of this error.
    #[verifier::when_used_as_spec(spec_kind)]
    pub fn kind(&self) -> (kind: AnalyzerErrorKind)
        ensures
            kind == self.spec_kind(),
    {
        self.kind
    }

    /// The description of this error.
    pub fn source_text(&self) -> (text: &str)
        ensures
            text@ == self.description(),
    {
        self.source.as_str()
    }

    /// The text that the error prints: its type, its kind and its
    /// description.
    pub fn message(&self) -> (text: String)
        ensures
            text@ == error_display("AnalyzerError"@, analyzer_error_kind_name(self.kind()), self.description()),
    {
        display_error("AnalyzerError", self.kind.name(), self.source.as_str())
    }

    /// The causes of this error, the most recent first.
    pub fn cause_texts(&self) -> (causes: &[String])
        ensures
            texts(causes@) == self.causes(),
    {
        self.causes.as_slice()
    }
}

/// The texts of `names`, in order.
pub open spec fn names_of(names: Seq<String>) -> Seq<Seq<char>> {
    names.map_values(|n: String| n@)
}

/// Whether `name` names a filter kind.
pub open spec fn names_filter(name: Seq<char>) -> bool {
    exists|kind: FilterKind| filter_kind_name(kind) == name
}

/// The position of the first of `filters` that names no filter kind.
pub open spec fn first_unknown_filter(filters: Seq<String>) -> int {
    choose|i: int|
        0 <= i < filters.len() && !names_filter(filters[i]@) && forall|j: int|
            0 <= j < i ==> names_filter(#[trigger] filters[j]@)
}

/// An analyzer error that wraps an error of type `error_type` and kind
/// `kind_name` described by `description`: it prints that error, which
/// heads its causes.
fn wrapping_error(error_type: &str, kind_name: &str, description: &str) -> (error: AnalyzerError)
    ensures
        error.kind() == AnalyzerErrorKind::ParseFailure,
        error.description() == error_display(error_type@, kind_name@, description@),
        error.causes() == seq![description@],
{
    let mut causes: Vec<String> = Vec::new();
    causes.push(String::from_str(description));
    assert(texts(causes@) =~= seq![description@]);
    AnalyzerError {
        kind: AnalyzerErrorKind::ParseFailure,
        source: display_error(error_type, kind_name, description),
        causes,
    }
}

/// The kinds of tokenizer and filters that an analyzer description names:
/// the tokenizer first, then the filters in the order given.  A name that
/// names no kind is a `ParseFailure` error.
pub fn analyzer_kinds(tokenizer: &str, filters: &Vec<String>) -> (res: Result<
    (TokenizerKind, Vec<FilterKind>),
    AnalyzerError,
>)
    ensures
        match res {
            Ok((t, fs)) => {
                &&& tokenizer_kind_name(t) == tokenizer@
                &&& fs@.len() == filters@.len()
                &&& forall|i: int|
                    0 <= i < fs@.len() ==> filter_kind_name(#[trigger] fs@[i]) == filters@[i]@
            },
            Err(e) => {
                &&& e.kind() == AnalyzerErrorKind::ParseFailure
                &&& if forall|t: TokenizerKind| tokenizer_kind_name(t) != tokenizer@ {
                    let cause = labelled_text("Unknown tokenizer kind"@, tokenizer@);
                    &&& e.description() == error_display(
                        "TokenizerFactoryError"@,
                        "InvalidTokenizerKind"@,
                        cause,
                    )
                    &&& e.causes() == seq![cause]
                } else {
                    let i = first_unknown_filter(filters@);
                    let cause = labelled_text("Unknown filter kind"@, filters@[i]@);
                    &&& 0 <= i < filters@.len()
                    &&& !names_filter(filters@[i]@)
                    &&& forall|j: int| 0 <= j < i ==> names_filter(#[trigger] filters@[j]@)
                    &&& e.description() == error_display(
                        "FilterFactoryError"@,
                        "InvalidFilterKind"@,
                        cause,
                    )
                    &&& e.causes() == seq![cause]
                }
            },
        },
{
    let t = match TokenizerKind::from_str(tokenizer) {
        Ok(t) => t,
        Err(e) => {
            return Err(
                wrapping_error("TokenizerFactoryError", "InvalidTokenizerKind", e.source_text()),
            );
        },
    };
    let mut kinds: Vec<FilterKind> = Vec::new();
    let mut i: usize = 0;
    while i < filters.len()
        invariant
            i <= filters@.len(),
            kinds@.len() == i,
            forall|j: int| 0 <= j < i ==> filter_kind_name(#[trigger] kinds@[j]) == filters@[j]@,
            exists|t: TokenizerKind| tokenizer_kind_name(t) == tokenizer@,
        decreases filters@.len() - i,
    {
        match FilterKind::from_str(filters[i].as_str()) {
            Ok(kind) => kinds.push(kind),
            Err(e) => {
                assert(!names_filter(filters@[i as int]@));
                proof {
                    assert forall|j: int| 0 <= j < i implies names_filter(#[trigger] filters@[j]@) by {
                        assert(filter_kind_name(kinds@[j]) == filters@[j]@);
                    }
                    let f = first_unknown_filter(filters@);
                    assert(0 <= f < filters@.len() && !names_filter(filters@[f]@) && forall|j: int|
                        0 <= j < f ==> names_filter(#[trigger] filters@[j]@));
                    if f < i {
                        assert(names_filter(filters@[f]@));
                    } else if f > i {
                        assert(names_filter(filters@[i as int]@));
                    }
                }
                return Err(
                    wrapping_error("FilterFactoryError", "InvalidFilterKind", e.source_text()),
                );
            },
        }
        i = i + 1;
    }
    Ok((t, kinds))
}

} // verus!
