use vstd::prelude::*;
use vstd::string::StringExecFns;

use crate::error::{display_error, error_display, labelled, labelled_text, push_context, texts};
use crate::text::str_eq;

verus! {

/// The ways in which building tokenizers can fail.
#[derive(Clone, Copy, Debug, PartialEq, Eq, Structural)]
pub enum TokenizerFactoryErrorKind {
    CreateError,
    InvalidArgument,
    InvalidTokenizerKind,
}

/// The name of `kind`, as a debug print of it reads.
pub open spec fn tokenizer_factory_error_kind_name(kind: TokenizerFactoryErrorKind) -> Seq<char> {
    match kind {
        TokenizerFactoryErrorKind::CreateError => "CreateError"@,
        TokenizerFactoryErrorKind::InvalidArgument => "InvalidArgument"@,
        TokenizerFactoryErrorKind::InvalidTokenizerKind => "InvalidTokenizerKind"@,
    }
}

impl TokenizerFactoryErrorKind {
    /// The name of this kind.
    pub fn name(&self) -> (name: &'static str)
        ensures
            name@ == tokenizer_factory_error_kind_name(*self),
    {
        match self {
            TokenizerFactoryErrorKind::CreateError => "CreateError",
            TokenizerFactoryErrorKind::InvalidArgument => "InvalidArgument",
            TokenizerFactoryErrorKind::InvalidTokenizerKind => "InvalidTokenizerKind",
        }
    }

    /// An error of this kind, described by `source`.
    pub fn with_error(self, source: String) -> (error: TokenizerFactoryError)
        ensures
            error.kind() == self,
            error.description() == source@,
            error.causes() == Seq::<Seq<char>>::empty(),
    {
        TokenizerFactoryError { kind: self, source, causes: Vec::new() }
    }
}

/// An error met while building tokenizers.
#[derive(Debug)]
pub struct TokenizerFactoryError {
    pub kind: TokenizerFactoryErrorKind,
    source: String,
    causes: Vec<String>,
}

impl TokenizerFactoryError {
    /// What the error says: the context attached last, or the text it was
    /// made with.
    pub closed spec fn description(&self) -> Seq<char> {
        self.source@
    }

    /// What the error said before each context was attached, the most recent
    /// first: the chain of sources behind the description.
    pub closed spec fn causes(&self) -> Seq<Seq<char>> {
        texts(self.causes@)
    }

    /// The kind of this error, as the proofs see it.
    pub closed spec fn spec_kind(&self) -> TokenizerFactoryErrorKind {
        self.kind
    }

    /// The same error with the context `ctx`: `ctx` becomes its description,
    /// and what it said before heads its causes.
    pub fn add_context(self, ctx: &str) -> (error: TokenizerFactoryError)
        ensures
            error.kind() == self.kind(),
            error.description() == ctx@,
            error.causes() == seq![self.description()] + self.causes(),
    {
        let (source, causes) = push_context(ctx, self.source, self.causes);
        TokenizerFactoryError { kind: self.kind, source, causes }
    }

    /// The kind of this error.
    #[verifier::when_used_as_spec(spec_kind)]
    pub fn kind(&self) -> (kind: TokenizerFactoryErrorKind)
        ensures
            kind == self.spec_kind(),
    {
        self.kind
    }

    /// The description of this error.
    pub fn source_text(&self) -> (text: &str)
        ensures
            text@ == self.description(),
    {
        self.source.as_str()
    }

    /// The text that the error prints: its type, its kind and its
    /// description.
    pub fn message(&self) -> (text: String)
        ensures
            text@ == error_display("TokenizerFactoryError"@, tokenizer_factory_error_kind_name(self.kind()), self.description()),
    {
        display_error("TokenizerFactoryError", self.kind.name(), self.source.as_str())
    }

    /// The causes of this error, the most recent first.
    pub fn cause_texts(&self) -> (causes: &[String])
        ensures
            texts(causes@) == self.causes(),
    {
        self.causes.as_slice()
    }
}

/// The kinds of tokenizer.
#[derive(Clone, Copy, Debug, PartialEq, Eq, Structural)]
pub enum TokenizerKind {
    Lindera,
    Ngram,
    Raw,
    Simple,
    Whitespace,
}

/// The name of `kind` in analyzer descriptions.
pub open spec fn tokenizer_kind_name(kind: TokenizerKind) -> Seq<char> {
    match kind {
        TokenizerKind::Lindera => "lindera"@,
        TokenizerKind::Ngram => "ngram"@,
        TokenizerKind::Raw => "raw"@,
        TokenizerKind::Simple => "simple"@,
        TokenizerKind::Whitespace => "whitespace"@,
    }
}

impl TokenizerKind {
    /// The tokenizer kind named `s`; any other name is an
    /// `InvalidTokenizerKind` error.
    pub fn from_str(s: &str) -> (res: Result<TokenizerKind, TokenizerFactoryError>)
        ensures
            match res {
                Ok(kind) => tokenizer_kind_name(kind) == s@,
                Err(e) => e.kind() == TokenizerFactoryErrorKind::InvalidTokenizerKind && e.description() == labelled_text(
                    "Unknown tokenizer kind"@,
                    s@,
                ) && forall|
                    kind: TokenizerKind,
                | tokenizer_kind_name(kind) != s@,
            },
    {
        proof {
            reveal_strlit("lindera");
            reveal_strlit("ngram");
            reveal_strlit("raw");
            reveal_strlit("simple");
            reveal_strlit("whitespace");
        }
        if str_eq(s, "lindera") {
            Ok(TokenizerKind::Lindera)
        } else if str_eq(s, "ngram") {
            Ok(TokenizerKind::Ngram)
        } else if str_eq(s, "raw") {
            Ok(TokenizerKind::Raw)
        } else if str_eq(s, "simple") {
            Ok(TokenizerKind::Simple)
        } else if str_eq(s, "whitespace") {
            Ok(TokenizerKind::Whitespace)
        } else {
            Err(
                TokenizerFactoryErrorKind::InvalidTokenizerKind.with_error(
                    labelled("Unknown tokenizer kind", s),
                ),
            )
        }
    }
}

} // verus!
