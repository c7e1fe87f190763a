pub mod analyzer;
pub mod metadata;
pub mod metastore;
pub mod shard;
pub mod shards;
pub mod token_filter;
pub mod tokenizer;

use vstd::prelude::*;

use crate::text::str_eq;

verus! {

/// The name of the field that holds a document's identifier.
pub const DOC_ID_FIELD_NAME: &'static str = "_id";

/// The key under which a JSON document sent to the cluster carries its
/// identifier.
pub const DOC_ID_KEY: &'static str = "id";

/// The key under which a JSON document sent to the cluster carries its
/// fields.
pub const DOC_FIELDS_KEY: &'static str = "fields";

/// The name of the field that holds a document's indexing time.
pub const DOC_TIMESTAMP_FIELD_NAME: &'static str = "_timestamp";

/// The pattern of the path of an index metadata file; its first group is the
/// index name.
pub const INDEX_METADATA_FILE_PATTERN: &'static str = "^.*/indices/([^/]+)/meta.json$";

/// The directory, under the data directory, that holds the indices.
pub const INDICES_DIR: &'static str = "indices";

/// The file, in an index's directory, that holds its metadata.
pub const INDEX_METADATA_FILE: &'static str = "meta.json";

/// The directory, in an index's directory, that holds its shards.
pub const SHARDS_DIR: &'static str = "shards";

/// Whether `name` is the name of a field that every index has and that the
/// server fills itself: the document identifier or its indexing time.
pub open spec fn is_reserved_name(name: Seq<char>) -> bool {
    name == DOC_ID_FIELD_NAME@ || name == DOC_TIMESTAMP_FIELD_NAME@
}

/// Whether `name` is a reserved field name; a schema as users give it keeps
/// only the other fields.
pub fn is_reserved_field(name: &str) -> (reserved: bool)
    ensures
        reserved == is_reserved_name(name@),
{
    str_eq(name, DOC_ID_FIELD_NAME) || str_eq(name, DOC_TIMESTAMP_FIELD_NAME)
}

} // verus!
