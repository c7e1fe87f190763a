use vstd::prelude::*;

use crate::error::{display_error, error_display, push_context, texts};
use crate::index::INDEX_METADATA_FILE_PATTERN;
use crate::node::index::{capture_group, extract_index_name, regex_group, INDEX_NAME_PATTERN};

verus! {

/// The ways in which storing index metadata can fail.
#[derive(Clone, Copy, Debug, PartialEq, Eq, Structural)]
pub enum MetastoreErrorKind {
    DirectoryCreationFailure,
    DirectoryReadFailure,
}

/// The name of `kind`, as a debug print of it reads.
pub open spec fn metastore_error_kind_name(kind: MetastoreErrorKind) -> Seq<char> {
    match kind {
        MetastoreErrorKind::DirectoryCreationFailure => "DirectoryCreationFailure"@,
        MetastoreErrorKind::DirectoryReadFailure => "DirectoryReadFailure"@,
    }
}

impl MetastoreErrorKind {
    /// The name of this kind.
    pub fn name(&self) -> (name: &'static str)
        ensures
            name@ == metastore_error_kind_name(*self),
    {
        match self {
            MetastoreErrorKind::DirectoryCreationFailure => "DirectoryCreationFailure",
            MetastoreErrorKind::DirectoryReadFailure => "DirectoryReadFailure",
        }
    }

    /// An error of this kind, described by `source`.
    pub fn with_error(self, source: String) -> (error: MetastoreError)
        ensures
            error.kind() == self,
            error.description() == source@,
            error.causes() == Seq::<Seq<char>>::empty(),
    {
        MetastoreError { kind: self, source, causes: Vec::new() }
    }
}

/// An error met while storing index metadata.
#[derive(Debug)]
pub struct MetastoreError {
    pub kind: MetastoreErrorKind,
    source: String,
    causes: Vec<String>,
}

impl MetastoreError {
    /// What the error says: the context attached last, or the text it was
    /// made with.
    pub closed spec fn description(&self) -> Seq<char> {
        self.source@
    }

    /// What the error said before each context was attached, the most recent
    /// first: the chain of sources behind the description.
    pub closed spec fn causes(&self) -> Seq<Seq<char>> {
        texts(self.causes@)
    }

    /// The kind of this error, as the proofs see it.
    pub closed spec fn spec_kind(&self) -> MetastoreErrorKind {
        self.kind
    }

    /// The same error with the context `ctx`: `ctx` becomes its description,
    /// and what it said before heads its causes.
    pub fn add_context(self, ctx: &str) -> (error: MetastoreError)
        ensures
            error.kind() == self.kind(),
            error.description() == ctx@,
            error.causes() == seq![self.description()] + self.causes(),
    {
        let (source, causes) = push_context(ctx, self.source, self.causes);
        MetastoreError { kind: self.kind, source, causes }
    }

    /// The kind of this error.
    #[verifier::when_used_as_spec(spec_kind)]
    pub fn kind(&self) -> (kind: MetastoreErrorKind)
        ensures
            kind == self.spec_kind(),
    {
        self.kind
    }

    /// The description of this error.
    pub fn source_text(&self) -> (text: &str)
        ensures
            text@ == self.description(),
    {
        self.source.as_str()
    }

    /// The text that the error prints: its type, its kind and its
    /// description.
    pub fn message(&self) -> (text: String)
        ensures
            text@ == error_display("MetastoreError"@, metastore_error_kind_name(self.kind()), self.description()),
    {
        display_error("MetastoreError", self.kind.name(), self.source.as_str())
    }

    /// The causes of this error, the most recent first.
    pub fn cause_texts(&self) -> (causes: &[String])
        ensures
            texts(causes@) == self.causes(),
    {
        self.causes.as_slice()
    }
}

/// What the file-system watcher reports about a path under the indices
/// directory.
#[derive(Clone, Copy, Debug, PartialEq, Eq, Structural)]
pub enum FileEvent {
    /// The file was written, or renamed into place.
    Written,
    /// The file was removed.
    Removed,
    /// Anything else.
    Other,
}

/// What the metadata store does about a file-system event.
#[derive(Debug)]
pub enum MetastoreAction {
    /// Load the metadata file at the path and hold it as the metadata of the
    /// named index.
    Load(String),
    /// Forget the metadata of the named index.
    Remove(String),
    /// Nothing.
    Ignore,
}

/// Whether `path` is the path of an index metadata file.
pub open spec fn is_metadata_file(path: Seq<char>) -> bool {
    regex_group(INDEX_METADATA_FILE_PATTERN@, path, 0) matches Some(Some(_))
}

/// Decides what to do about `event` on `path`: a written metadata file is
/// loaded and a removed one forgotten, under the name of the index it lies
/// in; anything else is ignored, and so is a path whose index name cannot be
/// read.
pub fn plan_metastore_event(path: &str, event: FileEvent) -> (action: MetastoreAction)
    ensures
        match action {
            MetastoreAction::Load(name) => {
                &&& event == FileEvent::Written
                &&& is_metadata_file(path@)
                &&& regex_group(INDEX_NAME_PATTERN@, path@, 1) == Some(Some(name@))
            },
            MetastoreAction::Remove(name) => {
                &&& event == FileEvent::Removed
                &&& is_metadata_file(path@)
                &&& regex_group(INDEX_NAME_PATTERN@, path@, 1) == Some(Some(name@))
            },
            MetastoreAction::Ignore => {
                ||| event == FileEvent::Other
                ||| !is_metadata_file(path@)
                ||| !(regex_group(INDEX_NAME_PATTERN@, path@, 1) matches Some(Some(_)))
            },
        },
{
    let matched = capture_group(INDEX_METADATA_FILE_PATTERN, path, 0);
    match matched {
        Some(Some(_)) => {},
        _ => return MetastoreAction::Ignore,
    }
    let name = match extract_index_name(path) {
        Ok(name) => name,
        Err(_) => return MetastoreAction::Ignore,
    };
    match event {
        FileEvent::Written => MetastoreAction::Load(name),
        FileEvent::Removed => MetastoreAction::Remove(name),
        FileEvent::Other => MetastoreAction::Ignore,
    }
}

} // verus!
