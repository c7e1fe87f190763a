use vstd::prelude::*;
use vstd::string::StringExecFns;

use rand::distributions::DistString;

use crate::error::{display_error, error_display, push_context, texts};
use super::shard::Shard;
use super::shards::{shard_ids_of, Shards};
use crate::text::{lemma_padded_digits_injective, lemma_padded_digits_shape, padded_digits, padded_text, pow10};

verus! {

/// The ways in which reading or changing index metadata can fail.
#[derive(Clone, Copy, Debug, PartialEq, Eq, Structural)]
pub enum MetadataErrorKind {
    RwLockFailure,
    InvalidArgument,
    SchemaError,
    SerializationFailure,
    SaveFailure,
    LoadFailure,
    DeserializationFailure,
}

/// The name of `kind`, as a debug print of it reads.
pub open spec fn metadata_error_kind_name(kind: MetadataErrorKind) -> Seq<char> {
    match kind {
        MetadataErrorKind::RwLockFailure => "RwLockFailure"@,
        MetadataErrorKind::InvalidArgument => "InvalidArgument"@,
        MetadataErrorKind::SchemaError => "SchemaError"@,
        MetadataErrorKind::SerializationFailure => "SerializationFailure"@,
        MetadataErrorKind::SaveFailure => "SaveFailure"@,
        MetadataErrorKind::LoadFailure => "LoadFailure"@,
        MetadataErrorKind::DeserializationFailure => "DeserializationFailure"@,
    }
}

impl MetadataErrorKind {
    /// The name of this kind.
    pub fn name(&self) -> (name: &'static str)
        ensures
            name@ == metadata_error_kind_name(*self),
    {
        match self {
            MetadataErrorKind::RwLockFailure => "RwLockFailure",
            MetadataErrorKind::InvalidArgument => "InvalidArgument",
            MetadataErrorKind::SchemaError => "SchemaError",
            MetadataErrorKind::SerializationFailure => "SerializationFailure",
            MetadataErrorKind::SaveFailure => "SaveFailure",
            MetadataErrorKind::LoadFailure => "LoadFailure",
            MetadataErrorKind::DeserializationFailure => "DeserializationFailure",
        }
    }

    /// An error of this kind, described by `source`.
    pub fn with_error(self, source: String) -> (error: MetadataError)
        ensures
            error.kind() == self,
            error.description() == source@,
            error.causes() == Seq::<Seq<char>>::empty(),
    {
        MetadataError { kind: self, source, causes: Vec::new() }
    }
}

/// An error met while reading or changing index metadata.
#[derive(Debug)]
pub struct MetadataError {
    pub kind: MetadataErrorKind,
    source: String,
    causes: Vec<String>,
}

impl MetadataError {
    /// What the error says: the context attached last, or the text it was
    /// made with.
    pub closed spec fn description(&self) -> Seq<char> {
        self.source@
    }

    /// What the error said before each context was attached, the most recent
    /// first: the chain of sources behind the description.
    pub closed spec fn causes(&self) -> Seq<Seq<char>> {
        texts(self.causes@)
    }

    /// The kind of this error, as the proofs see it.
    pub closed spec fn spec_kind(&self) -> MetadataErrorKind {
        self.kind
    }

    /// The same error with the context `ctx`: `ctx` becomes its description,
    /// and what it said before heads its causes.
    pub fn add_context(self, ctx: &str) -> (error: MetadataError)
        ensures
            error.kind() == self.kind(),
            error.description() == ctx@,
            error.causes() == seq![self.description()] + self.causes(),
    {
        let (source, causes) = push_context(ctx, self.source, self.causes);
        MetadataError { kind: self.kind, source, causes }
    }

    /// The kind of this error.
    #[verifier::when_used_as_spec(spec_kind)]
    pub fn kind(&self) -> (kind: MetadataErrorKind)
        ensures
            kind == self.spec_kind(),
    {
        self.kind
    }

    /// The description of this error.
    pub fn source_text(&self) -> (text: &str)
        ensures
            text@ == self.description(),
    {
        self.source.as_str()
    }

    /// How the error prints: its kind and its description.
    pub open spec fn display_text(&self) -> Seq<char> {
        error_display("MetadataError"@, metadata_error_kind_name(self.kind()), self.description())
    }

    /// The text that the error prints.
    pub fn message(&self) -> (text: String)
        ensures
            text@ == self.display_text(),
            text@ == error_display("MetadataError"@, metadata_error_kind_name(self.kind()), self.description()),
    {
        display_error("MetadataError", self.kind.name(), self.source.as_str())
    }

    /// The causes of this error, the most recent first.
    pub fn cause_texts(&self) -> (causes: &[String])
        ensures
            texts(causes@) == self.causes(),
    {
        self.causes.as_slice()
    }
}

/// The length of a generated shard identifier.
pub const SHARD_ID_LENGTH: usize = 8;

/// The number of indexing threads when the description names none.
pub const DEFAULT_WRITER_THREADS: usize = 1;

/// The indexing memory budget, in bytes, when the description names none.
pub const DEFAULT_WRITER_MEM_SIZE: usize = 100_000_000;

/// The number of replicas when the description names none.
pub const DEFAULT_NUM_REPLICAS: usize = 1;

/// The number of shards when the description names none.
pub const DEFAULT_NUM_SHARDS: usize = 1;

/// Whether `c` is an ASCII letter or digit.
pub open spec fn is_alphanumeric(c: char) -> bool {
    ('a' <= c && c <= 'z') || ('A' <= c && c <= 'Z') || ('0' <= c && c <= '9')
}

/// Whether `id` has the shape of a generated shard identifier.
pub open spec fn is_generated_id(id: Seq<char>) -> bool {
    &&& id.len() == SHARD_ID_LENGTH
    &&& forall|i: int| 0 <= i < id.len() ==> is_alphanumeric(#[trigger] id[i])
}

/// Calls `DistString::sample_string` of `rand::distributions::Alphanumeric` on
/// the thread-local generator: `len` characters drawn from the ASCII letters
/// and digits.  Which characters come out is left open.
#[verifier::external_body]
fn random_alphanumeric(len: usize) -> (text: String)
    ensures
        text@.len() == len,
        forall|i: int| 0 <= i < text@.len() ==> is_alphanumeric(#[trigger] text@[i]),
{
    rand::distributions::Alphanumeric.sample_string(&mut rand::thread_rng(), len)
}

/// A fresh random shard identifier.
pub fn generate_shard_id() -> (id: String)
    ensures
        is_generated_id(id@),
{
    random_alphanumeric(SHARD_ID_LENGTH)
}

/// Whether `shards` are serving shards with generated identifiers.
pub open spec fn are_generated(shards: Seq<Shard>) -> bool {
    forall|i: int|
        0 <= i < shards.len() ==> is_generated_id((#[trigger] shards[i]).id@) && shards[i].state
            == super::shard::State::Serving
}

/// The number of shards below which a fresh generated identifier is always
/// found: the eight-digit decimal identifiers alone are that many.
pub const MAX_GENERATED_SHARDS: usize = 100_000_000;

/// Whether `new` is `old` with serving shards of generated identifiers added
/// towards `n` shards: all that are missing, as long as `n` is at most
/// `MAX_GENERATED_SHARDS`.
pub open spec fn grown(old: Seq<Shard>, n: usize, new: Seq<Shard>) -> bool {
    exists|list: Seq<Shard>|
        #![trigger old + list]
        are_generated(list) && new == old + list && old.len() + list.len() <= n && (n
            <= MAX_GENERATED_SHARDS ==> old.len() + list.len() == n)
}

/// Whether `new` is `old` brought to `n` shards: surplus shards dropped from
/// the end, or missing ones added as serving shards with fresh generated
/// identifiers.
pub open spec fn resized(old: Seq<Shard>, n: usize, new: Seq<Shard>) -> bool {
    &&& old.len() >= n ==> new == old.take(n as int)
    &&& old.len() < n ==> grown(old, n, new)
}

/// The identifier tried after a random one was taken: `j` in eight decimal
/// digits.
pub open spec fn fallback_id(j: nat) -> Seq<char> {
    padded_digits(j, SHARD_ID_LENGTH as nat)
}

/// A generated identifier that no shard of `shards` has: a random one, or,
/// when that is taken, the first fallback identifier that is free, so that a
/// collision never costs a shard.  There is always one while there are fewer
/// than `MAX_GENERATED_SHARDS` shards; past that, `None`, and no shard is
/// added.
fn fresh_shard_id(shards: &Shards) -> (id: Option<String>)
    ensures
        match id {
            Some(s) => is_generated_id(s@) && !shards.shard_ids().contains(s@),
            None => shards.shard_seq().len() >= MAX_GENERATED_SHARDS,
        },
{
    let id = generate_shard_id();
    if !shards.contains(&id) {
        return Some(id);
    }
    let n = shards.len();
    if n >= MAX_GENERATED_SHARDS {
        return None;
    }
    let mut j: u64 = 0;
    while j <= n as u64
        invariant
            n == shards.shard_seq().len(),
            n < MAX_GENERATED_SHARDS,
            j <= n + 1,
            forall|m: nat| m < j ==> shards.shard_ids().contains(#[trigger] fallback_id(m)),
        decreases n + 1 - j,
    {
        let candidate = padded_text(j, SHARD_ID_LENGTH);
        if !shards.contains(&candidate) {
            proof {
                lemma_padded_digits_shape(j as nat, SHARD_ID_LENGTH as nat);
            }
            return Some(candidate);
        }
        j = j + 1;
    }
    proof {
        let ids = shards.shard_ids();
        let c = Seq::new((n + 1) as nat, |m: int| fallback_id(m as nat));
        assert(pow10(SHARD_ID_LENGTH as nat) == MAX_GENERATED_SHARDS) by {
            reveal_with_fuel(pow10, 9);
        }
        assert(c.no_duplicates()) by {
            assert forall|a: int, b: int| 0 <= a < c.len() && 0 <= b < c.len() && a != b implies c[a]
                != c[b] by {
                if c[a] == c[b] {
                    lemma_padded_digits_injective(a as nat, b as nat, SHARD_ID_LENGTH as nat);
                }
            }
        }
        c.unique_seq_to_set();
        assert forall|x: Seq<char>| c.to_set().contains(x) implies ids.to_set().contains(x) by {
            let m = choose|m: int| 0 <= m < c.len() && c[m] == x;
            assert(shards.shard_ids().contains(fallback_id(m as nat)));
        }
        assert(c.to_set().subset_of(ids.to_set()));
        ids.lemma_cardinality_of_set();
        vstd::seq_lib::seq_to_set_is_finite(ids);
        vstd::set_lib::lemma_len_subset(c.to_set(), ids.to_set());
    }
    None
}

/// Adds serving shards with fresh generated identifiers, `count` of them as
/// long as that leaves at most `MAX_GENERATED_SHARDS` shards.
fn add_generated_shards(shards: &mut Shards, count: usize) -> (added: Ghost<Seq<Shard>>)
    ensures
        are_generated(added@),
        final(shards).shard_seq() == old(shards).shard_seq() + added@,
        added@.len() <= count,
        old(shards).shard_seq().len() + count <= MAX_GENERATED_SHARDS ==> added@.len() == count,
{
    let ghost mut list: Seq<Shard> = Seq::empty();
    let mut i: usize = 0;
    assert(old(shards).shard_seq() + list =~= old(shards).shard_seq());
    while i < count
        invariant
            i <= count,
            list.len() == i,
            are_generated(list),
            shards.shard_seq() == old(shards).shard_seq() + list,
        decreases count - i,
    {
        let id = match fresh_shard_id(shards) {
            Some(id) => id,
            None => {
                assert(old(shards).shard_seq().len() + i >= MAX_GENERATED_SHARDS);
                return Ghost(list);
            },
        };
        let shard = Shard::new(id);
        let ghost before = list;
        let _ = shards.push(shard);
        proof {
            assert(!shard_ids_of(old(shards).shard_seq() + before).contains(shard.id@));
            list = list.push(shard);
            assert(old(shards).shard_seq() + list =~= (old(shards).shard_seq() + before).push(shard));
            assert forall|j: int| 0 <= j < list.len() implies is_generated_id((#[trigger] list[j]).id@)
                && list[j].state == super::shard::State::Serving by {
                if j < before.len() {
                    assert(list[j] == before[j]);
                }
            }
        }
        i = i + 1;
    }
    Ghost(list)
}

/// The metadata of an index: its schema, analyzers and index settings, which
/// are carried through untouched, and the settings that this crate manages
/// itself: writer threads and memory, replicas and shards.
pub struct Metadata<S, A, I> {
    schema: S,
    analyzers: A,
    index_settings: I,
    writer_threads: usize,
    writer_mem_size: usize,
    num_replicas: usize,
    num_shards: usize,
    shards: Shards,
}

/// The settings of an index metadata that this crate manages, as the proofs
/// see them.
pub struct MetadataSettings {
    pub writer_threads: usize,
    pub writer_mem_size: usize,
    pub num_replicas: usize,
    pub num_shards: usize,
    pub shards: Seq<Shard>,
}

impl<S, A, I> Metadata<S, A, I> {
    /// The managed settings.
    pub closed spec fn settings(&self) -> MetadataSettings {
        MetadataSettings {
            writer_threads: self.writer_threads,
            writer_mem_size: self.writer_mem_size,
            num_replicas: self.num_replicas,
            num_shards: self.num_shards,
            shards: self.shards.shard_seq(),
        }
    }

    /// The schema that is carried.
    pub closed spec fn schema_view(&self) -> S {
        self.schema
    }

    /// The analyzers that are carried.
    pub closed spec fn analyzers_view(&self) -> A {
        self.analyzers
    }

    /// The index settings that are carried.
    pub closed spec fn index_settings_view(&self) -> I {
        self.index_settings
    }

    /// Metadata with `num_shards` new serving shards with fresh generated
    /// identifiers: random ones, where a random identifier that is already
    /// taken gives way to a free eight-digit decimal one, so that exactly
    /// `num_shards` shards are made up to `MAX_GENERATED_SHARDS`.
    pub fn new(
        schema: S,
        analyzers: A,
        index_settings: I,
        writer_threads: usize,
        writer_mem_size: usize,
        num_replicas: usize,
        num_shards: usize,
    ) -> (metadata: Metadata<S, A, I>)
        ensures
            metadata.schema_view() == schema,
            metadata.analyzers_view() == analyzers,
            metadata.index_settings_view() == index_settings,
            metadata.settings().writer_threads == writer_threads,
            metadata.settings().writer_mem_size == writer_mem_size,
            metadata.settings().num_replicas == num_replicas,
            metadata.settings().num_shards == num_shards,
            grown(Seq::empty(), num_shards, metadata.settings().shards),
    {
        let mut shards = Shards::new();
        let added = add_generated_shards(&mut shards, num_shards);
        assert(Seq::<Shard>::empty() + added@ == shards.shard_seq());
        Metadata {
            schema,
            analyzers,
            index_settings,
            writer_threads,
            writer_mem_size,
            num_replicas,
            num_shards,
            shards,
        }
    }

    /// Metadata with the given `shards`.  When `num_shards` disagrees with the
    /// number of `shards`, the shards win.  This always succeeds.
    pub fn new_with_shards(
        schema: S,
        analyzers: A,
        index_settings: I,
        writer_threads: usize,
        writer_mem_size: usize,
        num_replicas: usize,
        num_shards: usize,
        shards: Shards,
    ) -> (res: Result<Metadata<S, A, I>, MetadataError>)
        ensures
            res matches Ok(metadata) && {
                &&& metadata.schema_view() == schema
                &&& metadata.analyzers_view() == analyzers
                &&& metadata.index_settings_view() == index_settings
                &&& metadata.settings().writer_threads == writer_threads
                &&& metadata.settings().writer_mem_size == writer_mem_size
                &&& metadata.settings().num_replicas == num_replicas
                &&& metadata.settings().num_shards == shards.shard_seq().len()
                &&& metadata.settings().shards == shards.shard_seq()
            },
    {
        let count = shards.len();
        let mut metadata = Metadata {
            schema,
            analyzers,
            index_settings,
            writer_threads,
            writer_mem_size,
            num_replicas,
            num_shards,
            shards,
        };
        if num_shards != count {
            metadata.num_shards = count;
        }
        Ok(metadata)
    }

    /// The number of indexing threads.  Reading always succeeds.
    pub fn writer_threads(&self) -> (res: Result<usize, MetadataError>)
        ensures
            res matches Ok(n) && n == self.settings().writer_threads,
    {
        Ok(self.writer_threads)
    }

    /// The indexing memory budget in bytes.  Reading always succeeds.
    pub fn writer_mem_size(&self) -> (res: Result<usize, MetadataError>)
        ensures
            res matches Ok(n) && n == self.settings().writer_mem_size,
    {
        Ok(self.writer_mem_size)
    }

    /// The number of replicas.  Reading always succeeds.
    pub fn num_replicas(&self) -> (res: Result<usize, MetadataError>)
        ensures
            res matches Ok(n) && n == self.settings().num_replicas,
    {
        Ok(self.num_replicas)
    }

    /// The number of shards.  Reading always succeeds.
    pub fn num_shards(&self) -> (res: Result<usize, MetadataError>)
        ensures
            res matches Ok(n) && n == self.settings().num_shards,
    {
        Ok(self.num_shards)
    }

    /// A copy of the shards.  Reading always succeeds.
    pub fn shards(&self) -> (res: Result<Shards, MetadataError>)
        ensures
            res matches Ok(shards) && shards.shard_seq() == self.settings().shards,
    {
        Ok(self.shards.clone())
    }
}

fn invalid_argument(message: &str) -> (error: MetadataError)
    ensures
        error.kind() == MetadataErrorKind::InvalidArgument,
{
    MetadataErrorKind::InvalidArgument.with_error(String::from_str(message))
}

impl<S, A, I> Metadata<S, A, I> {
    /// Sets the number of indexing threads, which must be positive; zero is an
    /// `InvalidArgument` error and changes nothing.
    pub fn set_writer_threads(&mut self, new_writer_threads: usize) -> (res: Result<
        usize,
        MetadataError,
    >)
        ensures
            new_writer_threads == 0 ==> (res matches Err(e) && e.kind() == MetadataErrorKind::InvalidArgument)
                && *final(self) == *old(self),
            new_writer_threads > 0 ==> res == Ok::<usize, MetadataError>(new_writer_threads)
                && final(self).settings() == (MetadataSettings {
                writer_threads: new_writer_threads,
                ..old(self).settings()
            }) && final(self).same_carried(*old(self)),
    {
        if new_writer_threads == 0 {
            return Err(invalid_argument("Writer threads must be greater than 0"));
        }
        self.writer_threads = new_writer_threads;
        Ok(self.writer_threads)
    }

    /// Sets the indexing memory budget, which must be positive; zero is an
    /// `InvalidArgument` error and changes nothing.
    pub fn set_writer_mem_size(&mut self, new_writer_mem_size: usize) -> (res: Result<
        usize,
        MetadataError,
    >)
        ensures
            new_writer_mem_size == 0 ==> (res matches Err(e) && e.kind() == MetadataErrorKind::InvalidArgument)
                && *final(self) == *old(self),
            new_writer_mem_size > 0 ==> res == Ok::<usize, MetadataError>(new_writer_mem_size)
                && final(self).settings() == (MetadataSettings {
                writer_mem_size: new_writer_mem_size,
                ..old(self).settings()
            }) && final(self).same_carried(*old(self)),
    {
        if new_writer_mem_size == 0 {
            return Err(invalid_argument("Writer memory size must be greater than 0"));
        }
        self.writer_mem_size = new_writer_mem_size;
        Ok(self.writer_mem_size)
    }

    /// Sets the number of replicas, which must be positive; zero is an
    /// `InvalidArgument` error and changes nothing.
    pub fn set_num_replicas(&mut self, num_replicas: usize) -> (res: Result<usize, MetadataError>)
        ensures
            num_replicas == 0 ==> (res matches Err(e) && e.kind() == MetadataErrorKind::InvalidArgument)
                && *final(self) == *old(self),
            num_replicas > 0 ==> res == Ok::<usize, MetadataError>(num_replicas)
                && final(self).settings() == (MetadataSettings {
                num_replicas,
                ..old(self).settings()
            }) && final(self).same_carried(*old(self)),
    {
        if num_replicas == 0 {
            return Err(invalid_argument("Number of replicas must be greater than 0"));
        }
        self.num_replicas = num_replicas;
        Ok(self.num_replicas)
    }

    /// Whether this metadata carries the same schema, analyzers and index
    /// settings as `other`.
    pub open spec fn same_carried(&self, other: Self) -> bool {
        &&& self.schema_view() == other.schema_view()
        &&& self.analyzers_view() == other.analyzers_view()
        &&& self.index_settings_view() == other.index_settings_view()
    }

    /// Sets the number of shards, which must be positive; zero is an
    /// `InvalidArgument` error and changes nothing.  Surplus shards are dropped
    /// from the end; missing ones are added as serving shards with generated
    /// identifiers, each different from those already there (a random
    /// identifier that is taken gives way to a free eight-digit decimal one),
    /// so that the count is reached up to `MAX_GENERATED_SHARDS`.
    pub fn set_num_shards(&mut self, num_shards: usize) -> (res: Result<usize, MetadataError>)
        ensures
            num_shards == 0 ==> (res matches Err(e) && e.kind() == MetadataErrorKind::InvalidArgument)
                && *final(self) == *old(self),
            num_shards > 0 ==> {
                &&& res == Ok::<usize, MetadataError>(num_shards)
                &&& final(self).same_carried(*old(self))
                &&& final(self).settings().writer_threads == old(self).settings().writer_threads
                &&& final(self).settings().writer_mem_size == old(self).settings().writer_mem_size
                &&& final(self).settings().num_replicas == old(self).settings().num_replicas
                &&& final(self).settings().num_shards == num_shards
                &&& resized(old(self).settings().shards, num_shards, final(self).settings().shards)
            },
    {
        if num_shards == 0 {
            return Err(invalid_argument("Number of shards must be greater than 0"));
        }
        self.num_shards = num_shards;
        let len = self.shards.len();
        if len > num_shards {
            let mut remaining = len;
            while remaining > num_shards
                invariant
                    num_shards <= remaining <= len,
                    len == old(self).settings().shards.len(),
                    self.shards.shard_seq() == old(self).settings().shards.take(remaining as int),
                    self.schema == old(self).schema,
                    self.analyzers == old(self).analyzers,
                    self.index_settings == old(self).index_settings,
                    self.writer_threads == old(self).writer_threads,
                    self.writer_mem_size == old(self).writer_mem_size,
                    self.num_replicas == old(self).num_replicas,
                    self.num_shards == num_shards,
                decreases remaining,
            {
                let _ = self.shards.pop();
                assert(old(self).settings().shards.take(remaining as int).drop_last()
                    =~= old(self).settings().shards.take(remaining - 1));
                remaining = remaining - 1;
            }
        } else if len < num_shards {
            let added = add_generated_shards(&mut self.shards, num_shards - len);
            assert(old(self).settings().shards + added@ == self.shards.shard_seq());
        } else {
            assert(old(self).settings().shards.take(num_shards as int)
                =~= old(self).settings().shards);
        }
        Ok(self.num_shards)
    }

    /// Replaces the shards; the number of shards follows.  This always
    /// succeeds and returns a copy of the new shards.
    pub fn set_shards(&mut self, shards: Shards) -> (res: Result<Shards, MetadataError>)
        ensures
            res matches Ok(s) && s.shard_seq() == shards.shard_seq(),
            final(self).same_carried(*old(self)),
            final(self).settings() == (MetadataSettings {
                num_shards: shards.shard_seq().len() as usize,
                shards: shards.shard_seq(),
                ..old(self).settings()
            }),
    {
        self.num_shards = shards.len();
        self.shards = shards;
        Ok(self.shards.clone())
    }
}

impl<S: Clone, A: Clone, I: Clone> Metadata<S, A, I> {
    /// A copy of the schema.  Reading always succeeds.
    pub fn schema(&self) -> (res: Result<S, MetadataError>)
        ensures
            res matches Ok(schema) && cloned(self.schema_view(), schema),
    {
        Ok(self.schema.clone())
    }

    /// Replaces the schema, returning a copy of the new one.  This always
    /// succeeds.
    pub fn set_schema(&mut self, new_schema: S) -> (res: Result<S, MetadataError>)
        ensures
            res matches Ok(schema) && cloned(new_schema, schema),
            final(self).schema_view() == new_schema,
            final(self).analyzers_view() == old(self).analyzers_view(),
            final(self).index_settings_view() == old(self).index_settings_view(),
            final(self).settings() == old(self).settings(),
    {
        self.schema = new_schema;
        Ok(self.schema.clone())
    }

    /// A copy of the analyzers.  Reading always succeeds.
    pub fn analyzers(&self) -> (res: Result<A, MetadataError>)
        ensures
            res matches Ok(analyzers) && cloned(self.analyzers_view(), analyzers),
    {
        Ok(self.analyzers.clone())
    }

    /// Replaces the analyzers, returning a copy of the new ones.  This always
    /// succeeds.
    pub fn set_analyzers(&mut self, new_analyzers: A) -> (res: Result<A, MetadataError>)
        ensures
            res matches Ok(analyzers) && cloned(new_analyzers, analyzers),
            final(self).schema_view() == old(self).schema_view(),
            final(self).analyzers_view() == new_analyzers,
            final(self).index_settings_view() == old(self).index_settings_view(),
            final(self).settings() == old(self).settings(),
    {
        self.analyzers = new_analyzers;
        Ok(self.analyzers.clone())
    }

    /// A copy of the index settings.  Reading always succeeds.
    pub fn index_settings(&self) -> (res: Result<I, MetadataError>)
        ensures
            res matches Ok(settings) && cloned(self.index_settings_view(), settings),
    {
        Ok(self.index_settings.clone())
    }

    /// Replaces the index settings, returning a copy of the new ones.  This
    /// always succeeds.
    pub fn set_index_settings(&mut self, new_index_settings: I) -> (res: Result<
        I,
        MetadataError,
    >)
        ensures
            res matches Ok(settings) && cloned(new_index_settings, settings),
            final(self).schema_view() == old(self).schema_view(),
            final(self).analyzers_view() == old(self).analyzers_view(),
            final(self).index_settings_view() == new_index_settings,
            final(self).settings() == old(self).settings(),
    {
        self.index_settings = new_index_settings;
        Ok(self.index_settings.clone())
    }
}

impl<S: Clone, A: Clone, I: Clone> Clone for Metadata<S, A, I> {
    fn clone(&self) -> (copy: Self)
        ensures
            copy.settings() == self.settings(),
            cloned(self.schema_view(), copy.schema_view()),
            cloned(self.analyzers_view(), copy.analyzers_view()),
            cloned(self.index_settings_view(), copy.index_settings_view()),
    {
        Metadata {
            schema: self.schema.clone(),
            analyzers: self.analyzers.clone(),
            index_settings: self.index_settings.clone(),
            writer_threads: self.writer_threads,
            writer_mem_size: self.writer_mem_size,
            num_replicas: self.num_replicas,
            num_shards: self.num_shards,
            shards: self.shards.clone(),
        }
    }
}

/// A given value is taken as it is, whatever the default; the default
/// stands in only for a missing value.
pub proof fn lemma_given_values_are_kept(value: usize, default: usize)
    ensures
        or_default(Some(value), default) == value,
        or_default(None, default) == default,
        value < default ==> or_default(Some(value), default) < default,
{
}

/// `value` when it is given, otherwise `default`.
pub open spec fn or_default(value: Option<usize>, default: usize) -> usize {
    match value {
        Some(v) => v,
        None => default,
    }
}

impl<S, A, I: Default> Metadata<S, A, I> {
    /// Metadata from a description in which everything but the schema and
    /// the analyzers may be missing.  Missing index settings take their
    /// default; a missing count takes the default of this module.  Given
    /// shards are used as they are, and their number wins over the count;
    /// otherwise the counted number of shards is generated.  This always
    /// succeeds.
    pub fn from_parts(
        schema: S,
        analyzers: A,
        index_settings: Option<I>,
        writer_threads: Option<usize>,
        writer_mem_size: Option<usize>,
        num_replicas: Option<usize>,
        num_shards: Option<usize>,
        shards: Option<Shards>,
    ) -> (res: Result<Metadata<S, A, I>, MetadataError>)
        ensures
            res matches Ok(metadata) && {
                &&& metadata.schema_view() == schema
                &&& metadata.analyzers_view() == analyzers
                &&& index_settings matches Some(i) ==> metadata.index_settings_view() == i
                &&& metadata.settings().writer_threads == or_default(
                    writer_threads,
                    DEFAULT_WRITER_THREADS,
                )
                &&& metadata.settings().writer_mem_size == or_default(
                    writer_mem_size,
                    DEFAULT_WRITER_MEM_SIZE,
                )
                &&& metadata.settings().num_replicas == or_default(
                    num_replicas,
                    DEFAULT_NUM_REPLICAS,
                )
                &&& match shards {
                    Some(given) => {
                        &&& metadata.settings().shards == given.shard_seq()
                        &&& metadata.settings().num_shards == given.shard_seq().len()
                    },
                    None => {
                        &&& metadata.settings().num_shards == or_default(
                            num_shards,
                            DEFAULT_NUM_SHARDS,
                        )
                        &&& grown(
                            Seq::empty(),
                            or_default(num_shards, DEFAULT_NUM_SHARDS),
                            metadata.settings().shards,
                        )
                    },
                }
            },
               res matches Ok(metadata) && {
                &&& writer_threads matches Some(n) ==> metadata.settings().writer_threads == n
                &&& writer_threads is None ==> metadata.settings().writer_threads == 1
                &&& writer_mem_size matches Some(n) ==> metadata.settings().writer_mem_size == n
                &&& writer_mem_size is None ==> metadata.settings().writer_mem_size == 100_000_000
                &&& num_replicas matches Some(n) ==> metadata.settings().num_replicas == n
                &&& num_replicas is None ==> metadata.settings().num_replicas == 1
                &&& shards is None ==> (num_shards matches Some(n) ==> metadata.settings().num_shards
                    == n) && (num_shards is None ==> metadata.settings().num_shards == 1)
            },
    {
        let index_settings = match index_settings {
            Some(settings) => settings,
            None => I::default(),
        };
        let writer_threads = match writer_threads {
            Some(n) => n,
            None => DEFAULT_WRITER_THREADS,
        };
        let writer_mem_size = match writer_mem_size {
            Some(n) => n,
            None => DEFAULT_WRITER_MEM_SIZE,
        };
        let num_replicas = match num_replicas {
            Some(n) => n,
            None => DEFAULT_NUM_REPLICAS,
        };
        let num_shards = match num_shards {
            Some(n) => n,
            None => DEFAULT_NUM_SHARDS,
        };
        match shards {
            Some(given) => Metadata::new_with_shards(
                schema,
                analyzers,
                index_settings,
                writer_threads,
                writer_mem_size,
                num_replicas,
                num_shards,
                given,
            ),
            None => Ok(
                Metadata::new(
                    schema,
                    analyzers,
                    index_settings,
                    writer_threads,
                    writer_mem_size,
                    num_replicas,
                    num_shards,
                ),
            ),
        }
    }
}

} // verus!
