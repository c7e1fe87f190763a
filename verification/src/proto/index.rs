pub mod query;
pub mod sort;

use vstd::prelude::*;

verus! {

/// A query as it travels between nodes: the code of its kind and its
/// options, a JSON object in bytes.
#[derive(Debug)]
pub struct Query {
    pub kind: i32,
    pub options: Vec<u8>,
}

impl Clone for Query {
    fn clone(&self) -> (copy: Query)
        ensures
            copy.kind == self.kind,
            copy.options@ == self.options@,
    {
        Query { kind: self.kind, options: self.options.clone() }
    }
}

/// How search results are ordered: by the values of a fast field, in the
/// order whose code is `order`.
#[derive(Debug)]
pub struct Sort {
    pub field: String,
    pub order: i32,
}

/// What a search collects.
#[derive(Clone, Copy, Debug, PartialEq, Eq, Structural)]
pub enum CollectionKind {
    Unknown,
    CountAndTopDocs,
    Count,
    TopDocs,
}

/// The wire code of `kind`.
pub open spec fn collection_kind_code(kind: CollectionKind) -> i32 {
    match kind {
        CollectionKind::Unknown => 0,
        CollectionKind::CountAndTopDocs => 1,
        CollectionKind::Count => 2,
        CollectionKind::TopDocs => 3,
    }
}

/// The name of `kind` in the protocol definition.
pub open spec fn collection_kind_proto_name(kind: CollectionKind) -> Seq<char> {
    match kind {
        CollectionKind::Unknown => "UNKNOWN"@,
        CollectionKind::CountAndTopDocs => "COUNT_AND_TOP_DOCS"@,
        CollectionKind::Count => "COUNT"@,
        CollectionKind::TopDocs => "TOP_DOCS"@,
    }
}

impl CollectionKind {
    /// The kind whose wire code is `n`, if any.
    pub fn from_i32(n: i32) -> (kind: Option<CollectionKind>)
        ensures
            match kind {
                Some(k) => collection_kind_code(k) == n,
                None => forall|k: CollectionKind| collection_kind_code(k) != n,
            },
    {
        match n {
            0 => Some(CollectionKind::Unknown),
            1 => Some(CollectionKind::CountAndTopDocs),
            2 => Some(CollectionKind::Count),
            3 => Some(CollectionKind::TopDocs),
            _ => None,
        }
    }

    /// The wire code of this kind.
    pub fn to_i32(&self) -> (n: i32)
        ensures
            n == collection_kind_code(*self),
    {
        match self {
            CollectionKind::Unknown => 0,
            CollectionKind::CountAndTopDocs => 1,
            CollectionKind::Count => 2,
            CollectionKind::TopDocs => 3,
        }
    }

    /// The name of this kind in the protocol definition.
    pub fn as_str_name(&self) -> (name: &'static str)
        ensures
            name@ == collection_kind_proto_name(*self),
    {
        match self {
            CollectionKind::Unknown => "UNKNOWN",
            CollectionKind::CountAndTopDocs => "COUNT_AND_TOP_DOCS",
            CollectionKind::Count => "COUNT",
            CollectionKind::TopDocs => "TOP_DOCS",
        }
    }

    /// Whether a search of this kind counts the matching documents.
    pub fn counts(&self) -> (counts: bool)
        ensures
            counts == (*self == CollectionKind::CountAndTopDocs || *self == CollectionKind::Count),
    {
        match self {
            CollectionKind::CountAndTopDocs | CollectionKind::Count => true,
            _ => false,
        }
    }

    /// Whether a search of this kind collects the top documents.
    pub fn collects_top_docs(&self) -> (collects: bool)
        ensures
            collects == (*self == CollectionKind::CountAndTopDocs || *self
                == CollectionKind::TopDocs),
    {
        match self {
            CollectionKind::CountAndTopDocs | CollectionKind::TopDocs => true,
            _ => false,
        }
    }
}

} // verus!
