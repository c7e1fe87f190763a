pub mod index;

use vstd::prelude::*;

use vstd::string::StringExecFns;

use crate::cluster::members::{ref_views, Members};
use crate::cluster::message::MessageKind;
use crate::error::{display_error, error_display, framed, framed_text, push_context, texts};
use crate::index::{DOC_FIELDS_KEY, DOC_ID_KEY};
use crate::json::{
    json_object_field_text, json_shape, json_string_field, object_field_text, shape_of, string_field,
};
use crate::text::{debug_text, signed_decimal, signed_decimal_text, str_debug};
use crate::index::metadata::{resized, Metadata, MetadataError};
use crate::index::shard::Shard;
use crate::index::shards::{shard_ids_of, Shards};
use crate::proto::index::sort::{order_code, Order};
use crate::proto::index::{collection_kind_code, CollectionKind};

verus! {

/// The ways in which running a node can fail.
#[derive(Clone, Copy, Debug, PartialEq, Eq, Structural)]
pub enum NodeErrorKind {
    MetadataError,
    InvalidPath,
    IndexNotFound,
    IndexExistenceFailure,
    IndexExists,
    ShardNotFound,
    DocumentDeserializationFailure,
    DocumentSerializationFailure,
    DocumentParseFailure,
    MessageSerializationFailure,
    MembersSerializationFailure,
    FieldNotFound,
    IndexCreationFailure,
    IndexOpenFailure,
    IndexDeletionFailure,
    IndexCommitFailure,
    IndexRollbackFailure,
    IndexSearchFailure,
    FileWriteFailure,
    FileRemoveFailure,
    FileReadFailure,
    DirectoryCreationFailure,
    DirectoryReadFailure,
    SearchFailre,
    SocketBindingFailure,
    ModifyIndexFailure,
    IndexMetadataSerializationFailure,
    SchemaDeserializationFailure,
    SchemaSerializationFailure,
    IndexDirectoryCreationFailure,
    AnalyzerRegistrationFailure,
    IndexConfigDoesNotExist,
}

/// The name of `kind`, as a debug print of it reads.
pub open spec fn node_error_kind_name(kind: NodeErrorKind) -> Seq<char> {
    match kind {
        NodeErrorKind::MetadataError => "MetadataError"@,
        NodeErrorKind::InvalidPath => "InvalidPath"@,
        NodeErrorKind::IndexNotFound => "IndexNotFound"@,
        NodeErrorKind::IndexExistenceFailure => "IndexExistenceFailure"@,
        NodeErrorKind::IndexExists => "IndexExists"@,
        NodeErrorKind::ShardNotFound => "ShardNotFound"@,
        NodeErrorKind::DocumentDeserializationFailure => "DocumentDeserializationFailure"@,
        NodeErrorKind::DocumentSerializationFailure => "DocumentSerializationFailure"@,
        NodeErrorKind::DocumentParseFailure => "DocumentParseFailure"@,
        NodeErrorKind::MessageSerializationFailure => "MessageSerializationFailure"@,
        NodeErrorKind::MembersSerializationFailure => "MembersSerializationFailure"@,
        NodeErrorKind::FieldNotFound => "FieldNotFound"@,
        NodeErrorKind::IndexCreationFailure => "IndexCreationFailure"@,
        NodeErrorKind::IndexOpenFailure => "IndexOpenFailure"@,
        NodeErrorKind::IndexDeletionFailure => "IndexDeletionFailure"@,
        NodeErrorKind::IndexCommitFailure => "IndexCommitFailure"@,
        NodeErrorKind::IndexRollbackFailure => "IndexRollbackFailure"@,
        NodeErrorKind::IndexSearchFailure => "IndexSearchFailure"@,
        NodeErrorKind::FileWriteFailure => "FileWriteFailure"@,
        NodeErrorKind::FileRemoveFailure => "FileRemoveFailure"@,
        NodeErrorKind::FileReadFailure => "FileReadFailure"@,
        NodeErrorKind::DirectoryCreationFailure => "DirectoryCreationFailure"@,
        NodeErrorKind::DirectoryReadFailure => "DirectoryReadFailure"@,
        NodeErrorKind::SearchFailre => "SearchFailre"@,
        NodeErrorKind::SocketBindingFailure => "SocketBindingFailure"@,
        NodeErrorKind::ModifyIndexFailure => "ModifyIndexFailure"@,
        NodeErrorKind::IndexMetadataSerializationFailure => "IndexMetadataSerializationFailure"@,
        NodeErrorKind::SchemaDeserializationFailure => "SchemaDeserializationFailure"@,
        NodeErrorKind::SchemaSerializationFailure => "SchemaSerializationFailure"@,
        NodeErrorKind::IndexDirectoryCreationFailure => "IndexDirectoryCreationFailure"@,
        NodeErrorKind::AnalyzerRegistrationFailure => "AnalyzerRegistrationFailure"@,
        NodeErrorKind::IndexConfigDoesNotExist => "IndexConfigDoesNotExist"@,
    }
}

impl NodeErrorKind {
    /// The name of this kind.
    pub fn name(&self) -> (name: &'static str)
        ensures
            name@ == node_error_kind_name(*self),
    {
        match self {
            NodeErrorKind::MetadataError => "MetadataError",
            NodeErrorKind::InvalidPath => "InvalidPath",
            NodeErrorKind::IndexNotFound => "IndexNotFound",
            NodeErrorKind::IndexExistenceFailure => "IndexExistenceFailure",
            NodeErrorKind::IndexExists => "IndexExists",
            NodeErrorKind::ShardNotFound => "ShardNotFound",
            NodeErrorKind::DocumentDeserializationFailure => "DocumentDeserializationFailure",
            NodeErrorKind::DocumentSerializationFailure => "DocumentSerializationFailure",
            NodeErrorKind::DocumentParseFailure => "DocumentParseFailure",
            NodeErrorKind::MessageSerializationFailure => "MessageSerializationFailure",
            NodeErrorKind::MembersSerializationFailure => "MembersSerializationFailure",
            NodeErrorKind::FieldNotFound => "FieldNotFound",
            NodeErrorKind::IndexCreationFailure => "IndexCreationFailure",
            NodeErrorKind::IndexOpenFailure => "IndexOpenFailure",
            NodeErrorKind::IndexDeletionFailure => "IndexDeletionFailure",
            NodeErrorKind::IndexCommitFailure => "IndexCommitFailure",
            NodeErrorKind::IndexRollbackFailure => "IndexRollbackFailure",
            NodeErrorKind::IndexSearchFailure => "IndexSearchFailure",
            NodeErrorKind::FileWriteFailure => "FileWriteFailure",
            NodeErrorKind::FileRemoveFailure => "FileRemoveFailure",
            NodeErrorKind::FileReadFailure => "FileReadFailure",
            NodeErrorKind::DirectoryCreationFailure => "DirectoryCreationFailure",
            NodeErrorKind::DirectoryReadFailure => "DirectoryReadFailure",
            NodeErrorKind::SearchFailre => "SearchFailre",
            NodeErrorKind::SocketBindingFailure => "SocketBindingFailure",
            NodeErrorKind::ModifyIndexFailure => "ModifyIndexFailure",
            NodeErrorKind::IndexMetadataSerializationFailure => "IndexMetadataSerializationFailure",
            NodeErrorKind::SchemaDeserializationFailure => "SchemaDeserializationFailure",
            NodeErrorKind::SchemaSerializationFailure => "SchemaSerializationFailure",
            NodeErrorKind::IndexDirectoryCreationFailure => "IndexDirectoryCreationFailure",
            NodeErrorKind::AnalyzerRegistrationFailure => "AnalyzerRegistrationFailure",
            NodeErrorKind::IndexConfigDoesNotExist => "IndexConfigDoesNotExist",
        }
    }

    /// An error of this kind, described by `source`.
    pub fn with_error(self, source: String) -> (error: NodeError)
        ensures
            error.kind() == self,
            error.description() == source@,
            error.causes() == Seq::<Seq<char>>::empty(),
    {
        NodeError { kind: self, source, causes: Vec::new() }
    }
}

/// An error met while running a node.
#[derive(Debug)]
pub struct NodeError {
    pub kind: NodeErrorKind,
    source: String,
    causes: Vec<String>,
}

impl NodeError {
    /// What the error says: the context attached last, or the text it was
    /// made with.
    pub closed spec fn description(&self) -> Seq<char> {
        self.source@
    }

    /// What the error said before each context was attached, the most recent
    /// first: the chain of sources behind the description.
    pub closed spec fn causes(&self) -> Seq<Seq<char>> {
        texts(self.causes@)
    }

    /// The kind of this error, as the proofs see it.
    pub closed spec fn spec_kind(&self) -> NodeErrorKind {
        self.kind
    }

    /// The same error with the context `ctx`: `ctx` becomes its description,
    /// and what it said before heads its causes.
    pub fn add_context(self, ctx: &str) -> (error: NodeError)
        ensures
            error.kind() == self.kind(),
            error.description() == ctx@,
            error.causes() == seq![self.description()] + self.causes(),
    {
        let (source, causes) = push_context(ctx, self.source, self.causes);
        NodeError { kind: self.kind, source, causes }
    }

    /// The kind of this error.
    #[verifier::when_used_as_spec(spec_kind)]
    pub fn kind(&self) -> (kind: NodeErrorKind)
        ensures
            kind == self.spec_kind(),
    {
        self.kind
    }

    /// The description of this error.
    pub fn source_text(&self) -> (text: &str)
        ensures
            text@ == self.description(),
    {
        self.source.as_str()
    }

    /// The text that the error prints: its type, its kind and its
    /// description.
    pub fn message(&self) -> (text: String)
        ensures
            text@ == error_display("NodeError"@, node_error_kind_name(self.kind()), self.description()),
    {
        display_error("NodeError", self.kind.name(), self.source.as_str())
    }

    /// The causes of this error, the most recent first.
    pub fn cause_texts(&self) -> (causes: &[String])
        ensures
            texts(causes@) == self.causes(),
    {
        self.causes.as_slice()
    }
}

/// The texts of `strings`, in order.
pub open spec fn texts_of(strings: Seq<String>) -> Seq<Seq<char>> {
    strings.map_values(|s: String| s@)
}

/// Whether the node at `local_addr` holds a replica of the shard `shard_id`:
/// it is among the top `num_replicas` members for that shard.
pub open spec fn holds_replica(
    members: Members,
    shard_id: Seq<char>,
    num_replicas: usize,
    local_addr: Seq<char>,
) -> bool {
    members.lookup_addrs(shard_id, num_replicas as int).contains(local_addr)
}

/// Whether the shard `shard_id` is assigned to the node at `local_addr`.
pub fn is_assigned_shard(
    members: &Members,
    shard_id: &str,
    num_replicas: usize,
    local_addr: &str,
) -> (assigned: bool)
    ensures
        assigned == holds_replica(*members, shard_id@, num_replicas, local_addr@),
{
    let candidates = members.lookup_members(shard_id, num_replicas);
    let ghost addrs = members.lookup_addrs(shard_id@, num_replicas as int);
    assert(ref_views(candidates@).len() == addrs.len());
    let mut k: usize = 0;
    while k < candidates.len()
        invariant
            k <= candidates@.len(),
            candidates@.len() == addrs.len(),
            addrs == members.lookup_addrs(shard_id@, num_replicas as int),
            forall|j: int| 0 <= j < candidates@.len() ==> (#[trigger] candidates@[j])@.addr == addrs[j],
            forall|j: int| 0 <= j < k ==> addrs[j] != local_addr@,
        decreases candidates@.len() - k,
    {
        if candidates[k].addr == local_addr.to_string() {
            assert(candidates@[k as int]@.addr == addrs[k as int]);
            return true;
        }
        k = k + 1;
    }
    false
}

/// How the shards of an index divide between this node and the others.
pub struct ShardAssignment {
    /// The shards that this node must serve, in the order of the index.
    pub assigned: Vec<String>,
    /// The shards that other nodes serve, in the order of the index.
    pub unassigned: Vec<String>,
}

/// Whether the node at `local_addr` holds a replica of a shard, as a
/// predicate on shard identifiers.
pub open spec fn serves(members: Members, num_replicas: usize, local_addr: Seq<char>) -> spec_fn(
    Seq<char>,
) -> bool {
    |id: Seq<char>| holds_replica(members, id, num_replicas, local_addr)
}

/// Whether the node at `local_addr` holds no replica of a shard, as a
/// predicate on shard identifiers.
pub open spec fn serves_not(members: Members, num_replicas: usize, local_addr: Seq<char>) -> spec_fn(
    Seq<char>,
) -> bool {
    |id: Seq<char>| !holds_replica(members, id, num_replicas, local_addr)
}

/// The identifiers of the shards of `shards` that the node at `local_addr`
/// holds replicas of, in order.
pub open spec fn replica_ids(
    shards: Shards,
    members: Members,
    num_replicas: usize,
    local_addr: Seq<char>,
) -> Seq<Seq<char>> {
    shards.shard_ids().filter(serves(members, num_replicas, local_addr))
}

/// The identifiers of the shards of `shards` that the node at `local_addr`
/// holds no replica of, in order.
pub open spec fn other_replica_ids(
    shards: Shards,
    members: Members,
    num_replicas: usize,
    local_addr: Seq<char>,
) -> Seq<Seq<char>> {
    shards.shard_ids().filter(serves_not(members, num_replicas, local_addr))
}

/// Divides the shards of an index into those assigned to the node at
/// `local_addr` and the others.
pub fn assign_shards(
    shards: &Shards,
    members: &Members,
    num_replicas: usize,
    local_addr: &str,
) -> (assignment: ShardAssignment)
    ensures
        texts_of(assignment.assigned@) == replica_ids(*shards, *members, num_replicas, local_addr@),
        texts_of(assignment.unassigned@) == other_replica_ids(
            *shards,
            *members,
            num_replicas,
            local_addr@,
        ),
{
    let list = shards.iter();
    let ghost ids = shards.shard_ids();
    let ghost pred = serves(*members, num_replicas, local_addr@);
    let ghost npred = serves_not(*members, num_replicas, local_addr@);
    let mut assigned: Vec<String> = Vec::new();
    let mut unassigned: Vec<String> = Vec::new();
    let mut i: usize = 0;
    while i < list.len()
        invariant
            i <= list@.len(),
            shard_ids_of(list@) == ids,
            pred == serves(*members, num_replicas, local_addr@),
            npred == serves_not(*members, num_replicas, local_addr@),
            texts_of(assigned@) == ids.take(i as int).filter(pred),
            texts_of(unassigned@) == ids.take(i as int).filter(npred),
        decreases list@.len() - i,
    {
        let id = list[i].id.clone();
        let ghost before_a = texts_of(assigned@);
        let ghost before_u = texts_of(unassigned@);
        proof {
            assert(ids[i as int] == id@);
            assert(ids.take(i + 1) =~= ids.take(i as int).push(id@));
            ids.take(i as int).lemma_filter_push(id@, pred);
            ids.take(i as int).lemma_filter_push(id@, npred);
        }
        if is_assigned_shard(members, id.as_str(), num_replicas, local_addr) {
            assigned.push(id);
            assert(texts_of(assigned@) =~= before_a.push(ids[i as int]));
        } else {
            unassigned.push(id);
            assert(texts_of(unassigned@) =~= before_u.push(ids[i as int]));
        }
        i = i + 1;
    }
    assert(ids.take(list@.len() as int) =~= ids);
    ShardAssignment { assigned, unassigned }
}

/// The names among `held` that are not in `known`, in order: what this node
/// still holds but its metadata no longer lists.
pub fn not_listed(held: &Vec<String>, known: &Vec<String>) -> (stale: Vec<String>)
    ensures
        texts_of(stale@) == texts_of(held@).filter(|name: Seq<char>| !texts_of(known@).contains(name)),
{
    let ghost pred = |name: Seq<char>| !texts_of(known@).contains(name);
    let mut stale: Vec<String> = Vec::new();
    let mut i: usize = 0;
    while i < held.len()
        invariant
            i <= held@.len(),
            pred == (|name: Seq<char>| !texts_of(known@).contains(name)),
            texts_of(stale@) == texts_of(held@).take(i as int).filter(pred),
        decreases held@.len() - i,
    {
        let name = &held[i];
        let ghost before = texts_of(stale@);
        proof {
            assert(texts_of(held@).take(i + 1) =~= texts_of(held@).take(i as int).push(name@));
            texts_of(held@).take(i as int).lemma_filter_push(name@, pred);
        }
        let mut found = false;
        let mut j: usize = 0;
        while j < known.len()
            invariant
                j <= known@.len(),
                found == exists|k: int| 0 <= k < j && texts_of(known@)[k] == name@,
            decreases known@.len() - j,
        {
            if known[j] == *name {
                assert(texts_of(known@)[j as int] == name@);
                found = true;
            }
            j = j + 1;
        }
        if !found {
            stale.push(name.clone());
            assert(texts_of(stale@) =~= before.push(name@));
        }
        i = i + 1;
    }
    assert(texts_of(held@).take(held@.len() as int) =~= texts_of(held@));
    stale
}

/// The identifiers of `shards`.
pub fn shard_id_list(shards: &Shards) -> (ids: Vec<String>)
    ensures
        texts_of(ids@) == shards.shard_ids(),
{
    let list = shards.iter();
    let mut ids: Vec<String> = Vec::new();
    let mut i: usize = 0;
    while i < list.len()
        invariant
            i <= list@.len(),
            shard_ids_of(list@) == shards.shard_ids(),
            texts_of(ids@) == shards.shard_ids().take(i as int),
        decreases list@.len() - i,
    {
        let id = list[i].id.clone();
        let ghost before = texts_of(ids@);
        assert(shard_ids_of(list@)[i as int] == id@);
        ids.push(id);
        assert(texts_of(ids@) =~= before.push(id@));
        assert(texts_of(ids@) =~= shards.shard_ids().take(i + 1));
        i = i + 1;
    }
    assert(shards.shard_ids().take(list@.len() as int) =~= shards.shard_ids());
    ids
}

/// What a node does on its file system when a cluster message arrives.
pub struct MessageSteps {
    /// Create the index directory.
    pub create_index_dir: bool,
    /// Write the index metadata carried by the message.
    pub write_metadata: bool,
    /// Remove the index metadata file.
    pub remove_metadata: bool,
}

/// The file-system steps for a message of `kind`, given whether the index
/// directory and its metadata file exist: creating an index makes what is
/// missing and never overwrites; deleting one removes its metadata file;
/// modifying one overwrites the metadata of an existing index.
pub fn plan_message(kind: MessageKind, index_dir_exists: bool, metadata_exists: bool) -> (steps:
    MessageSteps)
    ensures
        steps.create_index_dir == (kind == MessageKind::CreateIndex && !index_dir_exists),
        steps.write_metadata == ((kind == MessageKind::CreateIndex && !metadata_exists) || (kind
            == MessageKind::ModifyIndex && index_dir_exists)),
        steps.remove_metadata == (kind == MessageKind::DeleteIndex && metadata_exists),
{
    match kind {
        MessageKind::CreateIndex => MessageSteps {
            create_index_dir: !index_dir_exists,
            write_metadata: !metadata_exists,
            remove_metadata: false,
        },
        MessageKind::DeleteIndex => MessageSteps {
            create_index_dir: false,
            write_metadata: false,
            remove_metadata: metadata_exists,
        },
        MessageKind::ModifyIndex => MessageSteps {
            create_index_dir: false,
            write_metadata: index_dir_exists,
            remove_metadata: false,
        },
        MessageKind::Unknown => MessageSteps {
            create_index_dir: false,
            write_metadata: false,
            remove_metadata: false,
        },
    }
}

fn metadata_failure(error: MetadataError) -> (node_error: NodeError)
    ensures
        node_error.kind() == NodeErrorKind::MetadataError,
        node_error.description() == error.display_text(),
        node_error.causes() == seq![error.description()] + error.causes(),
{
    let earlier = error.cause_texts();
    let mut causes: Vec<String> = Vec::new();
    causes.push(String::from_str(error.source_text()));
    let mut i: usize = 0;
    while i < earlier.len()
        invariant
            i <= earlier@.len(),
            texts(earlier@) == error.causes(),
            texts(causes@) == seq![error.description()] + texts(earlier@).take(i as int),
        decreases earlier@.len() - i,
    {
        let ghost before = causes@;
        causes.push(earlier[i].clone());
        assert(texts(earlier@).take(i + 1) =~= texts(earlier@).take(i as int).push(earlier@[i as int]@));
        assert(texts(causes@) =~= texts(before).push(earlier@[i as int]@));
        i = i + 1;
    }
    assert(texts(earlier@).take(earlier@.len() as int) =~= texts(earlier@));
    NodeError { kind: NodeErrorKind::MetadataError, source: error.message(), causes }
}

/// Whether bringing the managed settings `current` to `requested` is
/// refused: one of the counts would change to zero.
pub open spec fn merge_refused(
    current: crate::index::metadata::MetadataSettings,
    requested: crate::index::metadata::MetadataSettings,
) -> bool {
    ||| (requested.writer_threads != current.writer_threads && requested.writer_threads == 0)
    ||| (requested.writer_mem_size != current.writer_mem_size && requested.writer_mem_size == 0)
    ||| (requested.num_replicas != current.num_replicas && requested.num_replicas == 0)
    ||| (requested.num_shards != current.num_shards && requested.num_shards == 0)
}

/// Whether the managed settings `requested` differ from `current` in a
/// count.
pub open spec fn counts_differ(
    current: crate::index::metadata::MetadataSettings,
    requested: crate::index::metadata::MetadataSettings,
) -> bool {
    ||| requested.writer_threads != current.writer_threads
    ||| requested.writer_mem_size != current.writer_mem_size
    ||| requested.num_replicas != current.num_replicas
    ||| requested.num_shards != current.num_shards
}

/// Brings the writer threads, writer memory, replicas and shards of
/// `current` to those of `requested`, one after the other, and tells whether
/// anything changed.  The schema, analyzers and index settings of `current`
/// are kept.  A count that would change to zero is a `MetadataError`, and
/// the settings after it are left as they were.
pub fn merge_index_metadata<S, A, I>(
    current: &mut Metadata<S, A, I>,
    requested: &Metadata<S, A, I>,
) -> (res: Result<bool, NodeError>)
    ensures
        final(current).same_carried(*old(current)),
        res is Err <==> merge_refused(old(current).settings(), requested.settings()),
        res matches Err(e) ==> e.kind() == NodeErrorKind::MetadataError,
        res matches Ok(changed) ==> {
            let o = old(current).settings();
            let r = requested.settings();
            let f = final(current).settings();
            &&& changed == counts_differ(o, r)
            &&& f.writer_threads == r.writer_threads
            &&& f.writer_mem_size == r.writer_mem_size
            &&& f.num_replicas == r.num_replicas
            &&& f.num_shards == r.num_shards
            &&& r.num_shards != o.num_shards ==> resized(o.shards, r.num_shards, f.shards)
            &&& r.num_shards == o.num_shards ==> f.shards == o.shards
        },
{
    let mut changed = false;

    let writer_threads = match current.writer_threads() {
        Ok(n) => n,
        Err(error) => return Err(metadata_failure(error)),
    };
    let new_writer_threads = match requested.writer_threads() {
        Ok(n) => n,
        Err(error) => return Err(metadata_failure(error)),
    };
    if writer_threads != new_writer_threads {
        match current.set_writer_threads(new_writer_threads) {
            Ok(_) => {},
            Err(error) => return Err(metadata_failure(error)),
        }
        changed = true;
    }

    let writer_mem_size = match current.writer_mem_size() {
        Ok(n) => n,
        Err(error) => return Err(metadata_failure(error)),
    };
    let new_writer_mem_size = match requested.writer_mem_size() {
        Ok(n) => n,
        Err(error) => return Err(metadata_failure(error)),
    };
    if writer_mem_size != new_writer_mem_size {
        match current.set_writer_mem_size(new_writer_mem_size) {
            Ok(_) => {},
            Err(error) => return Err(metadata_failure(error)),
        }
        changed = true;
    }

    let num_replicas = match current.num_replicas() {
        Ok(n) => n,
        Err(error) => return Err(metadata_failure(error)),
    };
    let new_num_replicas = match requested.num_replicas() {
        Ok(n) => n,
        Err(error) => return Err(metadata_failure(error)),
    };
    if num_replicas != new_num_replicas {
        match current.set_num_replicas(new_num_replicas) {
            Ok(_) => {},
            Err(error) => return Err(metadata_failure(error)),
        }
        changed = true;
    }

    let num_shards = match current.num_shards() {
        Ok(n) => n,
        Err(error) => return Err(metadata_failure(error)),
    };
    let new_num_shards = match requested.num_shards() {
        Ok(n) => n,
        Err(error) => return Err(metadata_failure(error)),
    };
    if num_shards != new_num_shards {
        match current.set_num_shards(new_num_shards) {
            Ok(_) => {},
            Err(error) => return Err(metadata_failure(error)),
        }
        changed = true;
    }

    Ok(changed)
}

/// What a node does with a JSON document, given what `serde_json` made of
/// it (`shape`), the string under its `"id"` key, and the object under its
/// `"fields"` key written back as text: a document that is not JSON is a
/// `DocumentDeserializationFailure` with the parser's message; one that is
/// not an object is skipped (`Ok(None)`); one without a string `"id"`, or
/// then without an object `"fields"`, is a `DocumentDeserializationFailure`;
/// fields that cannot be written back are a `DocumentSerializationFailure`
/// with the writer's message; otherwise the identifier and the fields text
/// are handed on.
pub fn document_from_reading(
    shape: Result<bool, String>,
    id: Option<String>,
    fields: Option<Result<String, String>>,
) -> (res: Result<Option<(String, String)>, NodeError>)
    ensures
        match shape {
            Err(message) => res matches Err(e) && e.kind()
                == NodeErrorKind::DocumentDeserializationFailure && e.description() == message@
                && e.causes() == Seq::<Seq<char>>::empty(),
            Ok(false) => res matches Ok(None),
            Ok(true) => match (id, fields) {
                (None, _) => res matches Err(e) && e.kind()
                    == NodeErrorKind::DocumentDeserializationFailure && e.description()
                    == "Document ID not found."@ && e.causes() == Seq::<Seq<char>>::empty(),
                (Some(_), None) => res matches Err(e) && e.kind()
                    == NodeErrorKind::DocumentDeserializationFailure && e.description()
                    == "Document fields not found."@ && e.causes() == Seq::<Seq<char>>::empty(),
                (Some(_), Some(Err(message))) => res matches Err(e) && e.kind()
                    == NodeErrorKind::DocumentSerializationFailure && e.description() == message@
                    && e.causes() == Seq::<Seq<char>>::empty(),
                (Some(i), Some(Ok(f))) => res matches Ok(Some((ri, rf))) && ri@ == i@ && rf@
                    == f@,
            },
        },
{
    match shape {
        Err(message) => Err(NodeErrorKind::DocumentDeserializationFailure.with_error(message)),
        Ok(false) => Ok(None),
        Ok(true) => match (id, fields) {
            (None, _) => Err(
                NodeErrorKind::DocumentDeserializationFailure.with_error(
                    String::from_str("Document ID not found."),
                ),
            ),
            (Some(_), None) => Err(
                NodeErrorKind::DocumentDeserializationFailure.with_error(
                    String::from_str("Document fields not found."),
                ),
            ),
            (Some(_), Some(Err(message))) => Err(
                NodeErrorKind::DocumentSerializationFailure.with_error(message),
            ),
            (Some(i), Some(Ok(f))) => Ok(Some((i, f))),
        },
    }
}

/// Reads the JSON document `doc` as a node takes it in: its identifier and
/// the text of its fields, `Ok(None)` for a document that is not an object
/// and is skipped, or the error that `document_from_reading` gives.
pub fn prepare_document(doc: &[u8]) -> (res: Result<Option<(String, String)>, NodeError>)
    ensures
        match json_shape(doc@) {
            Err(message) => res matches Err(e) && e.kind()
                == NodeErrorKind::DocumentDeserializationFailure && e.description() == message,
            Ok(false) => res matches Ok(None),
            Ok(true) => match (
                json_string_field(doc@, DOC_ID_KEY@),
                json_object_field_text(doc@, DOC_FIELDS_KEY@),
            ) {
                (None, _) => res matches Err(e) && e.kind()
                    == NodeErrorKind::DocumentDeserializationFailure && e.description()
                    == "Document ID not found."@,
                (Some(_), None) => res matches Err(e) && e.kind()
                    == NodeErrorKind::DocumentDeserializationFailure && e.description()
                    == "Document fields not found."@,
                (Some(_), Some(Err(message))) => res matches Err(e) && e.kind()
                    == NodeErrorKind::DocumentSerializationFailure && e.description() == message,
                (Some(i), Some(Ok(f))) => res matches Ok(Some((ri, rf))) && ri@ == i && rf@ == f,
            },
        },
{
    match shape_of(doc) {
        Ok(true) => document_from_reading(
            Ok(true),
            string_field(doc, DOC_ID_KEY),
            object_field_text(doc, DOC_FIELDS_KEY),
        ),
        other => document_from_reading(other, None, None),
    }
}

/// The shard that holds the document `doc_id` among `shards`, the shards of
/// an index if it is known.  An unknown index, or an index without shards,
/// is a `ShardNotFound` error.
pub fn assign_shard(shards: &Option<Shards>, doc_id: &str) -> (res: Result<Shard, NodeError>)
    ensures
        match shards {
            None => res matches Err(e) && e.kind() == NodeErrorKind::ShardNotFound,
            Some(s) => if s.shard_seq().len() == 0 {
                res matches Err(e) && e.kind() == NodeErrorKind::ShardNotFound
            } else {
                res == Ok::<Shard, NodeError>(s.lookup_spec(doc_id@, 1)[0])
            },
        },
{
    match shards {
        None => Err(NodeErrorKind::ShardNotFound.with_error(String::from_str("Index not found."))),
        Some(s) => match s.lookup_shard(doc_id) {
            Some(shard) => Ok(shard.clone()),
            None => Err(NodeErrorKind::ShardNotFound.with_error(String::from_str("Key not found."))),
        },
    }
}

/// The type of a field that search results may be sorted by.
#[derive(Clone, Copy, Debug, PartialEq, Eq, Structural)]
pub enum SortFieldType {
    I64,
    F64,
    U64,
    Date,
    /// A type that results cannot be sorted by.
    Other,
}

/// What the schema says of the field named in a sort, with the text that a
/// debug print of its field type gives.
#[derive(Clone, Debug)]
pub struct SortFieldInfo {
    pub field_type: SortFieldType,
    pub is_fast: bool,
    pub type_text: String,
}

/// A sort as a search request gives it: the name of the field, the field as
/// the schema describes it (`None` when the schema has no such field), and
/// the code of the order.
#[derive(Clone, Debug)]
pub struct SortRequest {
    pub name: String,
    pub field: Option<SortFieldInfo>,
    pub order: i32,
}

/// How a search on a shard runs: what it collects, and the field and order
/// it sorts by, if not by score.
#[derive(Clone, Copy, Debug, PartialEq, Eq, Structural)]
pub struct SearchPlan {
    pub kind: CollectionKind,
    pub sort_by: Option<SortBy>,
}

/// The field type and the order that results are sorted by.
#[derive(Clone, Copy, Debug, PartialEq, Eq, Structural)]
pub struct SortBy {
    pub field_type: SortFieldType,
    pub order: Order,
}

/// Whether a field of type `t` can order search results.
pub open spec fn sortable(t: SortFieldType) -> bool {
    t != SortFieldType::Other
}

/// The collection kind whose code is `n`, if any.
pub open spec fn collection_kind_of(n: i32) -> Option<CollectionKind> {
    if n == 0 {
        Some(CollectionKind::Unknown)
    } else if n == 1 {
        Some(CollectionKind::CountAndTopDocs)
    } else if n == 2 {
        Some(CollectionKind::Count)
    } else if n == 3 {
        Some(CollectionKind::TopDocs)
    } else {
        None
    }
}

/// The order whose code is `n`, if any.
pub open spec fn order_of(n: i32) -> Option<Order> {
    if n == 0 {
        Some(Order::Unknown)
    } else if n == 1 {
        Some(Order::Asc)
    } else if n == 2 {
        Some(Order::Desc)
    } else {
        None
    }
}

/// How a search with collection kind code `collection_kind` and the sort
/// `sort` runs, or the kind and the text of the error that refuses it.
pub open spec fn planned_search(collection_kind: i32, sort: Option<SortRequest>) -> Result<
    SearchPlan,
    (NodeErrorKind, Seq<char>),
> {
    match collection_kind_of(collection_kind) {
        None => Err((NodeErrorKind::SearchFailre, "Collection kind not found."@)),
        Some(kind) => match sort {
            None => Ok(SearchPlan { kind, sort_by: None }),
            Some(request) => match request.field {
                None => Err(
                    (
                        NodeErrorKind::IndexSearchFailure,
                        framed_text("Sort field "@, str_debug(request.name@), " does not exist."@),
                    ),
                ),
                Some(info) => if !info.is_fast {
                    Err(
                        (
                            NodeErrorKind::SearchFailre,
                            framed_text("Sort fields "@, info.type_text@, " must be fast field."@),
                        ),
                    )
                } else {
                    match order_of(request.order) {
                        None => Err(
                            (
                                NodeErrorKind::SearchFailre,
                                framed_text(
                                    "Sort order "@,
                                    signed_decimal(request.order as int),
                                    " is not supported."@,
                                ),
                            ),
                        ),
                        Some(order) => if !sortable(info.field_type) || order == Order::Unknown {
                            Err(
                                (
                                    NodeErrorKind::SearchFailre,
                                    framed_text(
                                        "Sort field "@,
                                        str_debug(request.name@),
                                        " is not supported."@,
                                    ),
                                ),
                            )
                        } else {
                            Ok(
                                SearchPlan {
                                    kind,
                                    sort_by: Some(SortBy { field_type: info.field_type, order }),
                                },
                            )
                        },
                    }
                },
            },
        },
    }
}

/// A search runs as asked: when it is planned, it collects what the
/// collection kind code names, and a sort by a fast field of a sortable type
/// in ascending or descending order is planned on that field's type in that
/// very order; such a sort is never refused.
pub proof fn lemma_search_sorts_as_asked(collection_kind: i32, request: SortRequest)
    ensures
        planned_search(collection_kind, None) matches Ok(plan) ==> collection_kind_code(plan.kind)
            == collection_kind && plan.sort_by is None,
        planned_search(collection_kind, Some(request)) matches Ok(plan) ==> {
            &&& collection_kind_code(plan.kind) == collection_kind
            &&& request.field matches Some(info)
            &&& plan.sort_by matches Some(by)
            &&& by.field_type == info.field_type
            &&& order_code(by.order) == request.order
        },
        (request.field matches Some(info) && info.is_fast && sortable(info.field_type) && (
        request.order == order_code(Order::Asc) || request.order == order_code(Order::Desc))
            && exists|k: CollectionKind| collection_kind_code(k) == collection_kind) ==> planned_search(
            collection_kind,
            Some(request),
        ) is Ok,
{
}

/// Decides how a search on a shard runs.  A collection kind code of no kind
/// is a `SearchFailre` error.  A sort on a field the schema lacks is an
/// `IndexSearchFailure` error; on a field that is not fast, with an order
/// code of no order, or with the unknown order or a type that cannot be
/// sorted by, a `SearchFailre` error.  Without a sort, results come by
/// score.
pub fn plan_search(collection_kind: i32, sort: Option<SortRequest>) -> (res: Result<
    SearchPlan,
    NodeError,
>)
    ensures
        match res {
            Ok(plan) => planned_search(collection_kind, sort) == Ok::<
                SearchPlan,
                (NodeErrorKind, Seq<char>),
            >(plan),
            Err(e) => planned_search(collection_kind, sort) == Err::<
                SearchPlan,
                (NodeErrorKind, Seq<char>),
            >((e.kind(), e.description())),
        },        res matches Ok(plan) ==> collection_kind_code(plan.kind) == collection_kind && match sort {
            None => plan.sort_by is None,
            Some(request) => request.field matches Some(info) && plan.sort_by matches Some(by)
                && by.field_type == info.field_type && order_code(by.order) == request.order,
        },
        (sort matches Some(request) && request.field matches Some(info) && info.is_fast && sortable(
            info.field_type,
        ) && (request.order == order_code(Order::Asc) || request.order == order_code(Order::Desc))
            && exists|k: CollectionKind| collection_kind_code(k) == collection_kind) ==> res is Ok,
{
    let kind = match CollectionKind::from_i32(collection_kind) {
        Some(kind) => kind,
        None => {
            assert(collection_kind_code(CollectionKind::Unknown) != collection_kind);
            assert(collection_kind_code(CollectionKind::CountAndTopDocs) != collection_kind);
            assert(collection_kind_code(CollectionKind::Count) != collection_kind);
            assert(collection_kind_code(CollectionKind::TopDocs) != collection_kind);
            return Err(
                NodeErrorKind::SearchFailre.with_error(String::from_str("Collection kind not found.")),
            );
        },
    };
    let request = match sort {
        None => {
            return Ok(SearchPlan { kind, sort_by: None });
        },
        Some(request) => request,
    };
    let SortRequest { name, field, order: code } = request;
    let info = match field {
        Some(info) => info,
        None => {
            let quoted = debug_text(name.as_str());
            return Err(
                NodeErrorKind::IndexSearchFailure.with_error(
                    framed("Sort field ", quoted.as_str(), " does not exist."),
                ),
            );
        },
    };
    if !info.is_fast {
        return Err(
            NodeErrorKind::SearchFailre.with_error(
                framed("Sort fields ", info.type_text.as_str(), " must be fast field."),
            ),
        );
    }
    let order = match Order::from_i32(code) {
        Some(order) => order,
        None => {
            assert(order_code(Order::Unknown) != code);
            assert(order_code(Order::Asc) != code);
            assert(order_code(Order::Desc) != code);
            let value = signed_decimal_text(code as i64);
            return Err(
                NodeErrorKind::SearchFailre.with_error(
                    framed("Sort order ", value.as_str(), " is not supported."),
                ),
            );
        },
    };
    match (info.field_type, order) {
        (SortFieldType::Other, _) | (_, Order::Unknown) => {
            let quoted = debug_text(name.as_str());
            Err(
                NodeErrorKind::SearchFailre.with_error(
                    framed("Sort field ", quoted.as_str(), " is not supported."),
                ),
            )
        },
        (field_type, order) => Ok(SearchPlan { kind, sort_by: Some(SortBy { field_type, order }) }),
    }
}

/// A predicate and its negation split a sequence between them.
proof fn lemma_filter_split(s: Seq<Seq<char>>, p: spec_fn(Seq<char>) -> bool, q: spec_fn(Seq<char>) -> bool)
    requires
        forall|x: Seq<char>| #[trigger] q(x) == !p(x),
    ensures
        s.filter(p).len() + s.filter(q).len() == s.len(),
    decreases s.len(),
{
    if s.len() > 0 {
        lemma_filter_split(s.drop_last(), p, q);
        assert(s.drop_last().push(s.last()) =~= s);
        s.drop_last().lemma_filter_push(s.last(), p);
        s.drop_last().lemma_filter_push(s.last(), q);
    } else {
        assert(s.filter(p) =~= Seq::<Seq<char>>::empty());
        assert(s.filter(q) =~= Seq::<Seq<char>>::empty());
    }
}

/// Every shard of an index is either assigned to a node or not, never both:
/// the shards it serves and the shards it does not serve together are all
/// the shards, each once.
pub proof fn lemma_assignment_partitions(
    shards: Shards,
    members: Members,
    num_replicas: usize,
    local_addr: Seq<char>,
    id: Seq<char>,
)
    ensures
        ({
            let assigned = replica_ids(shards, members, num_replicas, local_addr);
            let unassigned = other_replica_ids(shards, members, num_replicas, local_addr);
            &&& assigned.len() + unassigned.len() == shards.shard_ids().len()
            &&& shards.shard_ids().contains(id) ==> (assigned.contains(id) != unassigned.contains(id))
        }),
{
    let p = serves(members, num_replicas, local_addr);
    let q = serves_not(members, num_replicas, local_addr);
    lemma_filter_split(shards.shard_ids(), p, q);
    broadcast use vstd::seq_lib::group_filter_ensures;
    if shards.shard_ids().contains(id) {
        if p(id) {
            assert(shards.shard_ids().filter(p).contains(id));
        } else {
            assert(shards.shard_ids().filter(q).contains(id));
        }
    }
}

/// The shards of an index that a node holds once it has handled the index's
/// metadata: those it held and those it opened, less those it closed because
/// it holds no replica of them, and less those it held that the metadata no
/// longer lists.
pub open spec fn held_after(
    held: Set<Seq<char>>,
    listed: Seq<Seq<char>>,
    opened: Seq<Seq<char>>,
    closed: Seq<Seq<char>>,
) -> Set<Seq<char>> {
    held.union(opened.to_set()).difference(closed.to_set()).difference(
        held.difference(listed.to_set()),
    )
}

/// Whatever shards a node held before, once it has opened the shards that
/// `assign_shards` assigns to it, closed those it leaves to other nodes, and
/// closed those that `not_listed` finds, it holds exactly the shards of the
/// index whose replicas include its own address.
pub proof fn lemma_node_holds_exactly_its_replicas(
    shards: Shards,
    members: Members,
    num_replicas: usize,
    local_addr: Seq<char>,
    held: Set<Seq<char>>,
)
    ensures
        held_after(
            held,
            shards.shard_ids(),
            replica_ids(shards, members, num_replicas, local_addr),
            other_replica_ids(shards, members, num_replicas, local_addr),
        ) == replica_ids(shards, members, num_replicas, local_addr).to_set(),
{
    broadcast use vstd::seq_lib::group_filter_ensures;

    let ids = shards.shard_ids();
    let p = serves(members, num_replicas, local_addr);
    let q = serves_not(members, num_replicas, local_addr);
    let mine = ids.filter(p);
    let others = ids.filter(q);
    let result = held_after(held, ids, mine, others);
    assert forall|x: Seq<char>| result.contains(x) <==> mine.to_set().contains(x) by {
        if mine.contains(x) {
            ids.lemma_filter_contains_rev(p, x);
            assert(!q(x));
            if others.contains(x) {
                ids.lemma_filter_contains_rev(q, x);
                let k = choose|k: int| 0 <= k < others.len() && others[k] == x;
                ids.lemma_filter_pred(q, k);
            }
            assert(ids.to_set().contains(x));
        }
        if result.contains(x) && !mine.contains(x) {
            assert(ids.contains(x));
            let k = choose|k: int| 0 <= k < ids.len() && ids[k] == x;
            if p(x) {
                ids.lemma_filter_contains(p, k);
            } else {
                ids.lemma_filter_contains(q, k);
            }
        }
    }
    assert(result =~= mine.to_set());
}


} // verus!
