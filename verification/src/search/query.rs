pub mod boolean;
pub mod fuzzy_term;
pub mod phrase;
pub mod query_string;
pub mod regex;
pub mod term;

use vstd::prelude::*;
use vstd::string::StringExecFns;

use crate::error::{display_error, error_display, push_context, texts};
use crate::text::{signed_decimal, signed_decimal_text};
use crate::proto::index::query::{kind_code, Kind};

verus! {

/// The ways in which building search queries can fail.
#[derive(Clone, Copy, Debug, PartialEq, Eq, Structural)]
pub enum QueryFactoryErrorKind {
    CreateError,
    InvalidArgument,
}

/// The name of `kind`, as a debug print of it reads.
pub open spec fn query_factory_error_kind_name(kind: QueryFactoryErrorKind) -> Seq<char> {
    match kind {
        QueryFactoryErrorKind::CreateError => "CreateError"@,
        QueryFactoryErrorKind::InvalidArgument => "InvalidArgument"@,
    }
}

impl QueryFactoryErrorKind {
    /// The name of this kind.
    pub fn name(&self) -> (name: &'static str)
        ensures
            name@ == query_factory_error_kind_name(*self),
    {
        match self {
            QueryFactoryErrorKind::CreateError => "CreateError",
            QueryFactoryErrorKind::InvalidArgument => "InvalidArgument",
        }
    }

    /// An error of this kind, described by `source`.
    pub fn with_error(self, source: String) -> (error: QueryFactoryError)
        ensures
            error.kind() == self,
            error.description() == source@,
            error.causes() == Seq::<Seq<char>>::empty(),
    {
        QueryFactoryError { kind: self, source, causes: Vec::new() }
    }
}

/// An error met while building search queries.
#[derive(Debug)]
pub struct QueryFactoryError {
    pub kind: QueryFactoryErrorKind,
    source: String,
    causes: Vec<String>,
}

impl QueryFactoryError {
    /// What the error says: the context attached last, or the text it was
    /// made with.
    pub closed spec fn description(&self) -> Seq<char> {
        self.source@
    }

    /// What the error said before each context was attached, the most recent
    /// first: the chain of sources behind the description.
    pub closed spec fn causes(&self) -> Seq<Seq<char>> {
        texts(self.causes@)
    }

    /// The kind of this error, as the proofs see it.
    pub closed spec fn spec_kind(&self) -> QueryFactoryErrorKind {
        self.kind
    }

    /// The same error with the context `ctx`: `ctx` becomes its description,
    /// and what it said before heads its causes.
    pub fn add_context(self, ctx: &str) -> (error: QueryFactoryError)
        ensures
            error.kind() == self.kind(),
            error.description() == ctx@,
            error.causes() == seq![self.description()] + self.causes(),
    {
        let (source, causes) = push_context(ctx, self.source, self.causes);
        QueryFactoryError { kind: self.kind, source, causes }
    }

    /// The kind of this error.
    #[verifier::when_used_as_spec(spec_kind)]
    pub fn kind(&self) -> (kind: QueryFactoryErrorKind)
        ensures
            kind == self.spec_kind(),
    {
        self.kind
    }

    /// The description of this error.
    pub fn source_text(&self) -> (text: &str)
        ensures
            text@ == self.description(),
    {
        self.source.as_str()
    }

    /// The text that the error prints: its type, its kind and its
    /// description.
    pub fn message(&self) -> (text: String)
        ensures
            text@ == error_display("QueryFactoryError"@, query_factory_error_kind_name(self.kind()), self.description()),
    {
        display_error("QueryFactoryError", self.kind.name(), self.source.as_str())
    }

    /// The causes of this error, the most recent first.
    pub fn cause_texts(&self) -> (causes: &[String])
        ensures
            texts(causes@) == self.causes(),
    {
        self.causes.as_slice()
    }
}

/// The kind of query that a query with kind code `kind` builds: a code of no
/// kind, or of the unknown kind, is an `InvalidArgument` error.
pub fn query_kind_of(kind: i32) -> (res: Result<Kind, QueryFactoryError>)
    ensures
        match res {
            Ok(k) => kind_code(k) == kind && k != Kind::Unknown,
            Err(e) => {
                &&& e.kind() == QueryFactoryErrorKind::InvalidArgument
                &&& forall|k: Kind| kind_code(k) == kind ==> k == Kind::Unknown
                &&& e.description() == if kind == kind_code(Kind::Unknown) {
                    "Unsupported query kind Unknown"@
                } else {
                    "Undefined query kind "@ + signed_decimal(kind as int)
                }
            },
        },
{
    match Kind::from_i32(kind) {
        Some(Kind::Unknown) => Err(
            QueryFactoryErrorKind::InvalidArgument.with_error(
                String::from_str("Unsupported query kind Unknown"),
            ),
        ),
        Some(k) => Ok(k),
        None => {
            let mut text = String::from_str("Undefined query kind ");
            text.append(signed_decimal_text(kind as i64).as_str());
            Err(QueryFactoryErrorKind::InvalidArgument.with_error(text))
        },
    }
}

} // verus!
