use vstd::prelude::*;
use vstd::string::StringExecFns;

use crate::error::{display_error, error_display, labelled, labelled_text, push_context, texts};
use crate::text::str_eq;

verus! {

/// The ways in which building token filters can fail.
#[derive(Clone, Copy, Debug, PartialEq, Eq, Structural)]
pub enum FilterFactoryErrorKind {
    InvalidArgument,
    InvalidFilterKind,
}

/// The name of `kind`, as a debug print of it reads.
pub open spec fn filter_factory_error_kind_name(kind: FilterFactoryErrorKind) -> Seq<char> {
    match kind {
        FilterFactoryErrorKind::InvalidArgument => "InvalidArgument"@,
        FilterFactoryErrorKind::InvalidFilterKind => "InvalidFilterKind"@,
    }
}

impl FilterFactoryErrorKind {
    /// The name of this kind.
    pub fn name(&self) -> (name: &'static str)
        ensures
            name@ == filter_factory_error_kind_name(*self),
    {
        match self {
            FilterFactoryErrorKind::InvalidArgument => "InvalidArgument",
            FilterFactoryErrorKind::InvalidFilterKind => "InvalidFilterKind",
        }
    }

    /// An error of this kind, described by `source`.
    pub fn with_error(self, source: String) -> (error: FilterFactoryError)
        ensures
            error.kind() == self,
            error.description() == source@,
            error.causes() == Seq::<Seq<char>>::empty(),
    {
        FilterFactoryError { kind: self, source, causes: Vec::new() }
    }
}

/// An error met while building token filters.
#[derive(Debug)]
pub struct FilterFactoryError {
    pub kind: FilterFactoryErrorKind,
    source: String,
    causes: Vec<String>,
}

impl FilterFactoryError {
    /// What the error says: the context attached last, or the text it was
    /// made with.
    pub closed spec fn description(&self) -> Seq<char> {
        self.source@
    }

    /// What the error said before each context was attached, the most recent
    /// first: the chain of sources behind the description.
    pub closed spec fn causes(&self) -> Seq<Seq<char>> {
        texts(self.causes@)
    }

    /// The kind of this error, as the proofs see it.
    pub closed spec fn spec_kind(&self) -> FilterFactoryErrorKind {
        self.kind
    }

    /// The same error with the context `ctx`: `ctx` becomes its description,
    /// and what it said before heads its causes.
    pub fn add_context(self, ctx: &str) -> (error: FilterFactoryError)
        ensures
            error.kind() == self.kind(),
            error.description() == ctx@,
            error.causes() == seq![self.description()] + self.causes(),
    {
        let (source, causes) = push_context(ctx, self.source, self.causes);
        FilterFactoryError { kind: self.kind, source, causes }
    }

    /// The kind of this error.
    #[verifier::when_used_as_spec(spec_kind)]
    pub fn kind(&self) -> (kind: FilterFactoryErrorKind)
        ensures
            kind == self.spec_kind(),
    {
        self.kind
    }

    /// The description of this error.
    pub fn source_text(&self) -> (text: &str)
        ensures
            text@ == self.description(),
    {
        self.source.as_str()
    }

    /// The text that the error prints: its type, its kind and its
    /// description.
    pub fn message(&self) -> (text: String)
        ensures
            text@ == error_display("FilterFactoryError"@, filter_factory_error_kind_name(self.kind()), self.description()),
    {
        display_error("FilterFactoryError", self.kind.name(), self.source.as_str())
    }

    /// The causes of this error, the most recent first.
    pub fn cause_texts(&self) -> (causes: &[String])
        ensures
            texts(causes@) == self.causes(),
    {
        self.causes.as_slice()
    }
}

/// The kinds of token filter.
#[derive(Clone, Copy, Debug, PartialEq, Eq, Structural)]
pub enum FilterKind {
    AlphaNumOnly,
    AsciiFolding,
    LowerCase,
    RemoveLong,
    Stemming,
    StopWord,
}

/// The name of `kind` in analyzer descriptions.
pub open spec fn filter_kind_name(kind: FilterKind) -> Seq<char> {
    match kind {
        FilterKind::AlphaNumOnly => "alpha_num_only"@,
        FilterKind::AsciiFolding => "ascii_folding"@,
        FilterKind::LowerCase => "lower_case"@,
        FilterKind::RemoveLong => "remove_long"@,
        FilterKind::Stemming => "stemming"@,
        FilterKind::StopWord => "stop_word"@,
    }
}

impl FilterKind {
    /// The filter kind named `s`; any other name is an `InvalidFilterKind`
    /// error.
    pub fn from_str(s: &str) -> (res: Result<FilterKind, FilterFactoryError>)
        ensures
            match res {
                Ok(kind) => filter_kind_name(kind) == s@,
                Err(e) => e.kind() == FilterFactoryErrorKind::InvalidFilterKind && e.description() == labelled_text(
                    "Unknown filter kind"@,
                    s@,
                ) && forall|
                    kind: FilterKind,
                | filter_kind_name(kind) != s@,
            },
    {
        proof {
            reveal_strlit("Unknown filter kind");
            reveal_strlit("alpha_num_only");
            reveal_strlit("ascii_folding");
            reveal_strlit("lower_case");
            reveal_strlit("remove_long");
            reveal_strlit("stemming");
            reveal_strlit("stop_word");
        }
        if str_eq(s, "alpha_num_only") {
            Ok(FilterKind::AlphaNumOnly)
        } else if str_eq(s, "ascii_folding") {
            Ok(FilterKind::AsciiFolding)
        } else if str_eq(s, "lower_case") {
            Ok(FilterKind::LowerCase)
        } else if str_eq(s, "remove_long") {
            Ok(FilterKind::RemoveLong)
        } else if str_eq(s, "stemming") {
            Ok(FilterKind::Stemming)
        } else if str_eq(s, "stop_word") {
            Ok(FilterKind::StopWord)
        } else {
            Err(
                FilterFactoryErrorKind::InvalidFilterKind.with_error(
                    labelled("Unknown filter kind", s),
                ),
            )
        }
    }
}

} // verus!
