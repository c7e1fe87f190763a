pub mod cluster;
pub mod healthcheck;

use vstd::prelude::*;

use crate::error::{display_error, error_display, push_context, texts};

verus! {

/// The ways in which starting the node's services can fail.
#[derive(Clone, Copy, Debug, PartialEq, Eq, Structural)]
pub enum ServiceErrorKind {
    IndexServiceCreationFailure,
    GetReplicasFailure,
}

/// The name of `kind`, as a debug print of it reads.
pub open spec fn service_error_kind_name(kind: ServiceErrorKind) -> Seq<char> {
    match kind {
        ServiceErrorKind::IndexServiceCreationFailure => "IndexServiceCreationFailure"@,
        ServiceErrorKind::GetReplicasFailure => "GetReplicasFailure"@,
    }
}

impl ServiceErrorKind {
    /// The name of this kind.
    pub fn name(&self) -> (name: &'static str)
        ensures
            name@ == service_error_kind_name(*self),
    {
        match self {
            ServiceErrorKind::IndexServiceCreationFailure => "IndexServiceCreationFailure",
            ServiceErrorKind::GetReplicasFailure => "GetReplicasFailure",
        }
    }

    /// An error of this kind, described by `source`.
    pub fn with_error(self, source: String) -> (error: ServiceError)
        ensures
            error.kind() == self,
            error.description() == source@,
            error.causes() == Seq::<Seq<char>>::empty(),
    {
        ServiceError { kind: self, source, causes: Vec::new() }
    }
}

/// An error met while starting the node's services.
#[derive(Debug)]
pub struct ServiceError {
    pub kind: ServiceErrorKind,
    source: String,
    causes: Vec<String>,
}

impl ServiceError {
    /// What the error says: the context attached last, or the text it was
    /// made with.
    pub closed spec fn description(&self) -> Seq<char> {
        self.source@
    }

    /// What the error said before each context was attached, the most recent
    /// first: the chain of sources behind the description.
    pub closed spec fn causes(&self) -> Seq<Seq<char>> {
        texts(self.causes@)
    }

    /// The kind of this error, as the proofs see it.
    pub closed spec fn spec_kind(&self) -> ServiceErrorKind {
        self.kind
    }

    /// The same error with the context `ctx`: `ctx` becomes its description,
    /// and what it said before heads its causes.
    pub fn add_context(self, ctx: &str) -> (error: ServiceError)
        ensures
            error.kind() == self.kind(),
            error.description() == ctx@,
            error.causes() == seq![self.description()] + self.causes(),
    {
        let (source, causes) = push_context(ctx, self.source, self.causes);
        ServiceError { kind: self.kind, source, causes }
    }

    /// The kind of this error.
    #[verifier::when_used_as_spec(spec_kind)]
    pub fn kind(&self) -> (kind: ServiceErrorKind)
        ensures
            kind == self.spec_kind(),
    {
        self.kind
    }

    /// The description of this error.
    pub fn source_text(&self) -> (text: &str)
        ensures
            text@ == self.description(),
    {
        self.source.as_str()
    }

    /// The text that the error prints: its type, its kind and its
    /// description.
    pub fn message(&self) -> (text: String)
        ensures
            text@ == error_display("ServerError"@, service_error_kind_name(self.kind()), self.description()),
    {
        display_error("ServerError", self.kind.name(), self.source.as_str())
    }

    /// The causes of this error, the most recent first.
    pub fn cause_texts(&self) -> (causes: &[String])
        ensures
            texts(causes@) == self.causes(),
    {
        self.causes.as_slice()
    }
}

} // verus!
