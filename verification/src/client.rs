use vstd::prelude::*;
use vstd::string::StringExecFns;

use crate::error::{display_error, error_display, labelled, labelled_text, push_context, texts};
use crate::text::{signed_decimal, signed_decimal_text};
use crate::cluster::member::{Member, MemberView};
use crate::cluster::members::{
    add_member, addrs_of, lemma_position_of_addr, member_views, position_of_addr, ref_views,
    Members,
};
use crate::index::shards::Shards;
use crate::index::DOC_ID_KEY;
use crate::json::{json_string_field, string_field};
use crate::node::texts_of;
use crate::proto::index::sort::{order_code, Order};

verus! {

/// The ways in which talking to a cluster as a client can fail.
#[derive(Clone, Copy, Debug, PartialEq, Eq, Structural)]
pub enum ClientErrorKind {
    UriCreationFailure,
    MetadataNotFound,
    GrpcAddressNotFound,
}

/// The name of `kind`, as a debug print of it reads.
pub open spec fn client_error_kind_name(kind: ClientErrorKind) -> Seq<char> {
    match kind {
        ClientErrorKind::UriCreationFailure => "UriCreationFailure"@,
        ClientErrorKind::MetadataNotFound => "MetadataNotFound"@,
        ClientErrorKind::GrpcAddressNotFound => "GrpcAddressNotFound"@,
    }
}

impl ClientErrorKind {
    /// The name of this kind.
    pub fn name(&self) -> (name: &'static str)
        ensures
            name@ == client_error_kind_name(*self),
    {
        match self {
            ClientErrorKind::UriCreationFailure => "UriCreationFailure",
            ClientErrorKind::MetadataNotFound => "MetadataNotFound",
            ClientErrorKind::GrpcAddressNotFound => "GrpcAddressNotFound",
        }
    }

    /// An error of this kind, described by `source`.
    pub fn with_error(self, source: String) -> (error: ClientError)
        ensures
            error.kind() == self,
            error.description() == source@,
            error.causes() == Seq::<Seq<char>>::empty(),
    {
        ClientError { kind: self, source, causes: Vec::new() }
    }
}

/// An error met while talking to a cluster as a client.
#[derive(Debug)]
pub struct ClientError {
    pub kind: ClientErrorKind,
    source: String,
    causes: Vec<String>,
}

impl ClientError {
    /// What the error says: the context attached last, or the text it was
    /// made with.
    pub closed spec fn description(&self) -> Seq<char> {
        self.source@
    }

    /// What the error said before each context was attached, the most recent
    /// first: the chain of sources behind the description.
    pub closed spec fn causes(&self) -> Seq<Seq<char>> {
        texts(self.causes@)
    }

    /// The kind of this error, as the proofs see it.
    pub closed spec fn spec_kind(&self) -> ClientErrorKind {
        self.kind
    }

    /// The same error with the context `ctx`: `ctx` becomes its description,
    /// and what it said before heads its causes.
    pub fn add_context(self, ctx: &str) -> (error: ClientError)
        ensures
            error.kind() == self.kind(),
            error.description() == ctx@,
            error.causes() == seq![self.description()] + self.causes(),
    {
        let (source, causes) = push_context(ctx, self.source, self.causes);
        ClientError { kind: self.kind, source, causes }
    }

    /// The kind of this error.
    #[verifier::when_used_as_spec(spec_kind)]
    pub fn kind(&self) -> (kind: ClientErrorKind)
        ensures
            kind == self.spec_kind(),
    {
        self.kind
    }

    /// The description of this error.
    pub fn source_text(&self) -> (text: &str)
        ensures
            text@ == self.description(),
    {
        self.source.as_str()
    }

    /// The text that the error prints: its type, its kind and its
    /// description.
    pub fn message(&self) -> (text: String)
        ensures
            text@ == error_display("ClientError"@, client_error_kind_name(self.kind()), self.description()),
    {
        display_error("ClientError", self.kind.name(), self.source.as_str())
    }

    /// The causes of this error, the most recent first.
    pub fn cause_texts(&self) -> (causes: &[String])
        ensures
            texts(causes@) == self.causes(),
    {
        self.causes.as_slice()
    }
}

/// How the documents gathered from the shards are ordered before a page of
/// them is returned.
#[derive(Clone, Copy, Debug, PartialEq, Eq, Structural)]
pub enum MergeOrder {
    /// By score, as a search without a sort ranks them.
    ByScore,
    /// By sort value, smallest first.
    Ascending,
    /// By sort value, largest first.
    Descending,
}

/// The order in which to merge the documents of a search whose sort order
/// code is `sort_order` (`None` when the search is not sorted).  An order
/// code of no order, or of the unknown order, is refused with a message.
pub fn merge_order(sort_order: Option<i32>) -> (res: Result<MergeOrder, String>)
    ensures
        match sort_order {
            None => res == Ok::<MergeOrder, String>(MergeOrder::ByScore),
            Some(code) => if code == order_code(Order::Asc) {
                res == Ok::<MergeOrder, String>(MergeOrder::Ascending)
            } else if code == order_code(Order::Desc) {
                res == Ok::<MergeOrder, String>(MergeOrder::Descending)
            } else if code == order_code(Order::Unknown) {
                res matches Err(text) && text@ == labelled_text(
                    "Unsupported sort order"@,
                    signed_decimal(code as int),
                )
            } else {
                res matches Err(text) && text@ == labelled_text(
                    "Failed to parse sort order"@,
                    signed_decimal(code as int),
                )
            },
        },
{
    match sort_order {
        None => Ok(MergeOrder::ByScore),
        Some(code) => match Order::from_i32(code) {
            Some(Order::Asc) => Ok(MergeOrder::Ascending),
            Some(Order::Desc) => Ok(MergeOrder::Descending),
            Some(Order::Unknown) => {
                let value = signed_decimal_text(code as i64);
                Err(labelled("Unsupported sort order", value.as_str()))
            },
            None => {
                let value = signed_decimal_text(code as i64);
                Err(labelled("Failed to parse sort order", value.as_str()))
            },
        },
    }
}

/// The hits that each shard is asked for so that the page starting at
/// `offset` can be cut from the merged results: every shard searches from
/// its first hit.
pub fn shard_hits(offset: i32, hits: i32) -> (shard_hits: i32)
    requires
        i32::MIN <= offset + hits <= i32::MAX,
    ensures
        shard_hits == offset + hits,
{
    hits + offset
}

/// The page of `len` merged documents that a search for `hits` documents
/// from `offset` returns: from `offset` up to `offset + hits`, or to the end
/// when fewer documents remain or `hits` is negative.
pub fn result_window(len: usize, offset: i32, hits: i32) -> (window: (usize, usize))
    requires
        0 <= offset <= len,
        len <= i32::MAX,
    ensures
        window.0 == offset,
        window.1 == if hits < 0 || offset + hits > len {
            len as int
        } else {
            offset + hits
        },
        window.0 <= window.1 <= len,
{
    let start = offset as usize;
    let end: usize = if hits < 0 || len - start < hits as usize {
        len
    } else {
        start + hits as usize
    };
    (start, end)
}

/// The shard that a document with identifier `id` goes to, if it can be
/// placed: a document without an identifier, or an index without shards,
/// places nothing.
pub open spec fn routed_shard(shards: Shards, id: Option<String>) -> Option<Seq<char>> {
    match id {
        Some(doc_id) => if shards.shard_seq().len() > 0 {
            Some(shards.lookup_spec(doc_id@, 1)[0].id@)
        } else {
            None
        },
        None => None,
    }
}

/// The shard that each document goes to, in the order of the documents,
/// given the identifier read from each (`None` when it has none): the shard
/// of highest priority for the identifier.
pub fn route_documents(shards: &Shards, doc_ids: &Vec<Option<String>>) -> (routes: Vec<
    Option<String>,
>)
    ensures
        routes@.len() == doc_ids@.len(),
        forall|i: int|
            0 <= i < routes@.len() ==> match #[trigger] routes@[i] {
                Some(shard_id) => routed_shard(*shards, doc_ids@[i]) == Some(shard_id@),
                None => routed_shard(*shards, doc_ids@[i]) is None,
            },
{
    let mut routes: Vec<Option<String>> = Vec::new();
    let mut i: usize = 0;
    while i < doc_ids.len()
        invariant
            i <= doc_ids@.len(),
            routes@.len() == i,
            forall|j: int|
                0 <= j < i ==> match #[trigger] routes@[j] {
                    Some(shard_id) => routed_shard(*shards, doc_ids@[j]) == Some(shard_id@),
                    None => routed_shard(*shards, doc_ids@[j]) is None,
                },
        decreases doc_ids@.len() - i,
    {
        let route = match &doc_ids[i] {
            Some(doc_id) => match shards.lookup_shard(doc_id.as_str()) {
                Some(shard) => Some(shard.id.clone()),
                None => None,
            },
            None => None,
        };
        routes.push(route);
        i = i + 1;
    }
    routes
}

/// The shard that a document with identifier `id` goes to: the shard of
/// highest priority for the identifier, or none in an index without shards.
pub open spec fn shard_for_id(shards: Shards, id: Seq<char>) -> Option<Seq<char>> {
    if shards.shard_seq().len() > 0 {
        Some(shards.lookup_spec(id, 1)[0].id@)
    } else {
        None
    }
}

/// The shard that the JSON document `doc` goes to: none when its identifier
/// cannot be read.
pub open spec fn doc_route(shards: Shards, doc: Seq<u8>) -> Option<Seq<char>> {
    match json_string_field(doc, DOC_ID_KEY@) {
        Some(id) => shard_for_id(shards, id),
        None => None,
    }
}

/// The bytes of each of `docs`, in order.
pub open spec fn doc_views(docs: Seq<Vec<u8>>) -> Seq<Seq<u8>> {
    docs.map_values(|d: Vec<u8>| d@)
}

/// Those of `docs` that go to the shard `shard_id`, in order.
pub open spec fn batch_for(shards: Shards, docs: Seq<Seq<u8>>, shard_id: Seq<char>) -> Seq<Seq<u8>> {
    docs.filter(|d: Seq<u8>| doc_route(shards, d) == Some(shard_id))
}

/// The shard that the JSON document `doc` goes to.
pub fn document_route(shards: &Shards, doc: &[u8]) -> (route: Option<String>)
    ensures
        match route {
            Some(shard_id) => doc_route(*shards, doc@) == Some(shard_id@),
            None => doc_route(*shards, doc@) is None,
        },
{
    match string_field(doc, DOC_ID_KEY) {
        Some(doc_id) => match shards.lookup_shard(doc_id.as_str()) {
            Some(shard) => Some(shard.id.clone()),
            None => None,
        },
        None => None,
    }
}

/// Splits JSON documents into one batch per shard: each document whose
/// identifier can be read goes, in the order given, into the batch of the
/// shard of highest priority for the identifier; the others are dropped.
/// Each shard has at most one batch, and no batch is empty.
pub fn split_documents(shards: &Shards, docs: Vec<Vec<u8>>) -> (batches: Vec<(String, Vec<Vec<u8>>)>)
    ensures
        forall|k: int|
            0 <= k < batches@.len() ==> doc_views((#[trigger] batches@[k]).1@) == batch_for(
                *shards,
                doc_views(docs@),
                batches@[k].0@,
            ),
        forall|k: int| 0 <= k < batches@.len() ==> (#[trigger] batches@[k]).1@.len() > 0,
        forall|a: int, b: int|
            0 <= a < b < batches@.len() ==> (#[trigger] batches@[a]).0@ != (#[trigger] batches@[b]).0@,
        forall|j: int|
            0 <= j < docs@.len() ==> (doc_route(*shards, #[trigger] docs@[j]@) matches Some(shard_id)
                ==> exists|k: int| 0 <= k < batches@.len() && (#[trigger] batches@[k]).0@ == shard_id),
{
    let ghost all = docs@;
    let ghost views = doc_views(docs@);
    let mut rest = docs;
    let mut batches: Vec<(String, Vec<Vec<u8>>)> = Vec::new();
    let mut i: usize = 0;
    let n = rest.len();
    while i < n
        invariant
            n == all.len(),
            views == doc_views(all),
            i <= n,
            rest@ == all.skip(i as int),
            forall|k: int|
                0 <= k < batches@.len() ==> doc_views((#[trigger] batches@[k]).1@) == batch_for(
                    *shards,
                    views.take(i as int),
                    batches@[k].0@,
                ),
            forall|k: int| 0 <= k < batches@.len() ==> (#[trigger] batches@[k]).1@.len() > 0,
            forall|a: int, b: int|
                0 <= a < b < batches@.len() ==> (#[trigger] batches@[a]).0@ != (
                #[trigger] batches@[b]).0@,
            forall|j: int|
                0 <= j < i ==> (doc_route(*shards, #[trigger] all[j]@) matches Some(shard_id)
                    ==> exists|k: int| 0 <= k < batches@.len() && (#[trigger] batches@[k]).0@ == shard_id),
        decreases n - i,
    {
        assert(rest@.len() > 0 && rest@[0] == all[i as int]);
        let doc = rest.remove(0);
        assert(rest@ =~= all.skip(i + 1));
        let ghost d = doc@;
        assert(views[i as int] == d);
        assert(views.take(i + 1) =~= views.take(i as int).push(d));
        let ghost before = batches@;
        match document_route(shards, doc.as_slice()) {
            None => {
                proof {
                    assert forall|k: int| 0 <= k < batches@.len() implies doc_views(
                        (#[trigger] batches@[k]).1@,
                    ) == batch_for(*shards, views.take(i + 1), batches@[k].0@) by {
                        views.take(i as int).lemma_filter_push(
                            d,
                            |x: Seq<u8>| doc_route(*shards, x) == Some(batches@[k].0@),
                        );
                    }
                }
            },
            Some(shard_id) => {
                let mut k: usize = 0;
                let mut found = false;
                while k < batches.len() && !found
                    invariant
                        k <= batches@.len(),
                        batches@ == before,
                        found ==> k < batches@.len() && batches@[k as int].0@ == shard_id@,
                        !found ==> forall|m: int| 0 <= m < k ==> (#[trigger] batches@[m]).0@ != shard_id@,
                    decreases batches@.len() - k + (if found { 0int } else { 1int }),
                {
                    if crate::text::str_eq(batches[k].0.as_str(), shard_id.as_str()) {
                        found = true;
                    } else {
                        k = k + 1;
                    }
                }
                if found {
                    let (id, mut group) = batches.remove(k);
                    let ghost g = group@;
                    let ghost key = id@;
                    group.push(doc);
                    let ghost grown = group@;
                    batches.insert(k, (id, group));
                    proof {
                        assert(key == before[k as int].0@);
                        assert(g == before[k as int].1@);
                        assert(batches@.len() == before.len());
                        assert(batches@[k as int].0@ == key);
                        assert(batches@[k as int].1@ == grown);
                        assert forall|m: int| 0 <= m < batches@.len() && m != k implies batches@[m]
                            == before[m] by {
                            if m < k {
                                assert(batches@[m] == before.remove(k as int)[m]);
                            } else {
                                assert(batches@[m] == before.remove(k as int)[m - 1]);
                            }
                        }
                        assert(doc_views(grown) =~= doc_views(g).push(d));
                        assert forall|m: int| 0 <= m < batches@.len() implies doc_views(
                            (#[trigger] batches@[m]).1@,
                        ) == batch_for(*shards, views.take(i + 1), batches@[m].0@) by {
                            views.take(i as int).lemma_filter_push(
                                d,
                                |x: Seq<u8>| doc_route(*shards, x) == Some(batches@[m].0@),
                            );
                            if m != k {
                                assert(batches@[m] == before[m]);
                            }
                        }
                        assert forall|a: int, b: int|
                            0 <= a < b < batches@.len() implies (#[trigger] batches@[a]).0@ != (
                            #[trigger] batches@[b]).0@ by {
                            assert(batches@[a].0@ == before[a].0@);
                            assert(batches@[b].0@ == before[b].0@);
                        }
                        assert forall|m: int| 0 <= m < batches@.len() implies (
                        #[trigger] batches@[m]).1@.len() > 0 by {
                            if m != k {
                                assert(batches@[m] == before[m]);
                            }
                        }
                        assert forall|j: int|
                            0 <= j < i + 1 implies (doc_route(*shards, #[trigger] all[j]@) matches Some(
                                sid,
                            ) ==> exists|q: int|
                                0 <= q < batches@.len() && (#[trigger] batches@[q]).0@ == sid) by {
                            if j < i {
                                if let Some(sid) = doc_route(*shards, all[j]@) {
                                    let q = choose|q: int|
                                        0 <= q < before.len() && (#[trigger] before[q]).0@ == sid;
                                    assert(batches@[q].0@ == before[q].0@);
                                }
                            } else {
                                assert(batches@[k as int].0@ == shard_id@);
                            }
                        }
                    }
                } else {
                    let mut group: Vec<Vec<u8>> = Vec::new();
                    group.push(doc);
                    let ghost g = group@;
                    let ghost key = shard_id@;
                    batches.push((shard_id, group));
                    proof {
                        assert(batches@.len() == before.len() + 1);
                        assert(batches@[before.len() as int].0@ == key);
                        assert(batches@[before.len() as int].1@ == g);
                        assert(forall|m: int| 0 <= m < before.len() ==> batches@[m] == before[m]);
                        assert(doc_views(g) =~= seq![d]);
                        assert forall|m: int| 0 <= m < batches@.len() implies doc_views(
                            (#[trigger] batches@[m]).1@,
                        ) == batch_for(*shards, views.take(i + 1), batches@[m].0@) by {
                            views.take(i as int).lemma_filter_push(
                                d,
                                |x: Seq<u8>| doc_route(*shards, x) == Some(batches@[m].0@),
                            );
                            if m < before.len() {
                                assert(batches@[m] == before[m]);
                            } else {
                                let p = |x: Seq<u8>| doc_route(*shards, x) == Some(shard_id@);
                                assert forall|j: int| 0 <= j < i implies !p(#[trigger] views[j]) by {
                                    assert(views[j] == all[j]@);
                                    if p(views[j]) {
                                        let q = choose|q: int|
                                            0 <= q < before.len() && (#[trigger] before[q]).0@ == shard_id@;
                                        assert(before[q].0@ != shard_id@);
                                    }
                                }
                                assert(views.take(i as int).filter(p) =~= Seq::<Seq<u8>>::empty()) by {
                                    let t = views.take(i as int);
                                    assert forall|j: int| 0 <= j < t.len() implies !p(#[trigger] t[j]) by {
                                        assert(t[j] == views[j]);
                                    }
                                    if t.filter(p).len() > 0 {
                                        let x = t.filter(p)[0];
                                        t.lemma_filter_pred(p, 0);
                                        assert(t.filter(p).contains(x));
                                        t.lemma_filter_contains_rev(p, x);
                                        let j = choose|j: int| 0 <= j < t.len() && t[j] == x;
                                        assert(!p(t[j]));
                                    }
                                }
                            }
                        }
                        assert forall|a: int, b: int|
                            0 <= a < b < batches@.len() implies (#[trigger] batches@[a]).0@ != (
                            #[trigger] batches@[b]).0@ by {
                            assert(batches@[a] == before[a]);
                            if b < before.len() {
                                assert(batches@[b] == before[b]);
                            }
                        }
                        assert forall|m: int| 0 <= m < batches@.len() implies (
                        #[trigger] batches@[m]).1@.len() > 0 by {
                            if m < before.len() {
                                assert(batches@[m] == before[m]);
                            }
                        }
                        assert forall|j: int|
                            0 <= j < i + 1 implies (doc_route(*shards, #[trigger] all[j]@) matches Some(
                                sid,
                            ) ==> exists|q: int|
                                0 <= q < batches@.len() && (#[trigger] batches@[q]).0@ == sid) by {
                            if j < i {
                                if let Some(sid) = doc_route(*shards, all[j]@) {
                                    let q = choose|q: int|
                                        0 <= q < before.len() && (#[trigger] before[q]).0@ == sid;
                                    assert(batches@[q] == before[q]);
                                }
                            } else {
                                assert(batches@[before.len() as int].0@ == shard_id@);
                            }
                        }
                    }
                }
            },
        }
        i = i + 1;
    }
    assert(views.take(n as int) =~= views);
    batches
}

/// The addresses of the members that hold the replicas of the shard
/// `shard_id`, highest priority first: those a request for the shard is
/// sent to.
pub fn replica_addrs(members: &Members, shard_id: &str, num_replicas: usize) -> (addrs: Vec<
    String,
>)
    ensures
        texts_of(addrs@) == members.lookup_addrs(shard_id@, num_replicas as int),
{
    let holders = members.lookup_members(shard_id, num_replicas);
    let ghost expected = members.lookup_addrs(shard_id@, num_replicas as int);
    assert(ref_views(holders@).len() == expected.len());
    let mut addrs: Vec<String> = Vec::new();
    let mut k: usize = 0;
    while k < holders.len()
        invariant
            k <= holders@.len(),
            holders@.len() == expected.len(),
            expected == members.lookup_addrs(shard_id@, num_replicas as int),
            forall|j: int| 0 <= j < holders@.len() ==> (#[trigger] holders@[j])@.addr == expected[j],
            texts_of(addrs@) == expected.take(k as int),
        decreases holders@.len() - k,
    {
        let addr = holders[k].addr.clone();
        let ghost before = texts_of(addrs@);
        assert(addr@ == expected[k as int]);
        addrs.push(addr);
        assert(texts_of(addrs@) =~= before.push(expected[k as int]));
        assert(texts_of(addrs@) =~= expected.take(k + 1));
        k = k + 1;
    }
    assert(expected.take(holders@.len() as int) =~= expected);
    addrs
}

/// A shard of an index and the members that a request for it goes to.
pub struct ShardTargets {
    pub shard_id: String,
    pub addrs: Vec<String>,
}

/// For each shard of an index, in order, the members holding its replicas:
/// where a write, a commit or a rollback on the index is sent.
pub fn shard_targets(shards: &Shards, members: &Members, num_replicas: usize) -> (targets: Vec<
    ShardTargets,
>)
    ensures
        targets@.len() == shards.shard_seq().len(),
        forall|i: int|
            0 <= i < targets@.len() ==> {
                &&& (#[trigger] targets@[i]).shard_id@ == shards.shard_ids()[i]
                &&& texts_of(targets@[i].addrs@) == members.lookup_addrs(
                    shards.shard_ids()[i],
                    num_replicas as int,
                )
            },
{
    let list = shards.iter();
    let mut targets: Vec<ShardTargets> = Vec::new();
    let mut i: usize = 0;
    while i < list.len()
        invariant
            i <= list@.len(),
            list@ == shards.shard_seq(),
            targets@.len() == i,
            forall|j: int|
                0 <= j < i ==> {
                    &&& (#[trigger] targets@[j]).shard_id@ == shards.shard_ids()[j]
                    &&& texts_of(targets@[j].addrs@) == members.lookup_addrs(
                        shards.shard_ids()[j],
                        num_replicas as int,
                    )
                },
        decreases list@.len() - i,
    {
        let shard_id = list[i].id.clone();
        assert(shards.shard_ids()[i as int] == shard_id@);
        let addrs = replica_addrs(members, shard_id.as_str(), num_replicas);
        targets.push(ShardTargets { shard_id, addrs });
        i = i + 1;
    }
    targets
}

/// `members` after each of `list` has announced itself in turn.
pub open spec fn announce_all(members: Seq<MemberView>, list: Seq<MemberView>) -> Seq<MemberView> {
    list.fold_left(members, |acc: Seq<MemberView>, m: MemberView| add_member(acc, m))
}

/// Whether `member` is among `received`.
pub open spec fn still_member(received: Seq<Seq<char>>, member: MemberView) -> bool {
    received.contains(member.addr)
}

/// Brings the members a client knows up to date with a new member list
/// `received`: each of `accepted` (the received members that can be
/// reached) announces itself, then every member missing from `received`
/// leaves.  Returns the addresses of the members that left, in order.
pub fn refresh_members(current: &mut Members, accepted: Vec<Member>, received: &Members) -> (left:
    Vec<String>)
    ensures
        ({
            let announced = announce_all(old(current)@, member_views(accepted@));
            &&& final(current)@ == announced.filter(
                |m: MemberView| still_member(received.addrs(), m),
            )
            &&& texts_of(left@) == addrs_of(
                announced.filter(|m: MemberView| !still_member(received.addrs(), m)),
            )
        }),
{
    let ghost start = current@;
    let mut i: usize = 0;
    while i < accepted.len()
        invariant
            i <= accepted@.len(),
            current@ == announce_all(start, member_views(accepted@).take(i as int)),
        decreases accepted@.len() - i,
    {
        let member = accepted[i].clone();
        let _ = current.push(member);
        proof {
            let prefix = member_views(accepted@).take(i + 1);
            assert(prefix.drop_last() =~= member_views(accepted@).take(i as int));
            assert(prefix.last() == accepted@[i as int]@);
        }
        i = i + 1;
    }
    assert(member_views(accepted@).take(accepted@.len() as int) =~= member_views(accepted@));
    let ghost mid = current@;
    let ghost keep = |m: MemberView| still_member(received.addrs(), m);
    let ghost drop = |m: MemberView| !still_member(received.addrs(), m);
    let snapshot = current.clone();
    let list = snapshot.iter();
    let _ = current.iter();
    let mut left: Vec<String> = Vec::new();
    let mut k: usize = 0;
    assert(mid.take(0).filter(keep) + mid.skip(0) =~= mid);
    assert(mid.take(0).filter(drop) =~= Seq::<MemberView>::empty());
    assert(texts_of(left@) =~= Seq::<Seq<char>>::empty());
    assert(addrs_of(Seq::<MemberView>::empty()) =~= Seq::<Seq<char>>::empty());
    while k < list.len()
        invariant
            k <= list@.len(),
            member_views(list@) == mid,
            keep == (|m: MemberView| still_member(received.addrs(), m)),
            drop == (|m: MemberView| !still_member(received.addrs(), m)),
            current@ == mid.take(k as int).filter(keep) + mid.skip(k as int),
            current.addrs().no_duplicates(),
            texts_of(left@) == addrs_of(mid.take(k as int).filter(drop)),
        decreases list@.len() - k,
    {
        let member = &list[k];
        let ghost x = mid[k as int];
        let ghost a = mid.take(k as int).filter(keep);
        let ghost d = mid.take(k as int).filter(drop);
        assert(member@ == x);
        proof {
            assert(mid.take(k + 1) =~= mid.take(k as int).push(x));
            mid.take(k as int).lemma_filter_push(x, keep);
            mid.take(k as int).lemma_filter_push(x, drop);
            assert(mid.skip(k as int) =~= seq![x] + mid.skip(k + 1));
        }
        if received.contains(member.addr.as_str()) {
            assert(keep(x));
            assert(current@ =~= a.push(x) + mid.skip(k + 1));
        } else {
            assert(drop(x));
            let ghost before = current@;
            proof {
                assert(before[a.len() as int] == x);
                assert(addrs_of(before)[a.len() as int] == x.addr);
                assert(addrs_of(before).contains(x.addr));
                lemma_position_of_addr(before, x.addr, a.len() as int);
                assert(before.remove(a.len() as int) =~= a + mid.skip(k + 1));
            }
            let _ = current.remove(member.addr.as_str());
            assert(current@ =~= a + mid.skip(k + 1));
            let ghost left_before = texts_of(left@);
            left.push(member.addr.clone());
            assert(texts_of(left@) =~= left_before.push(x.addr));
            assert(addrs_of(d.push(x)) =~= addrs_of(d).push(x.addr));
        }
        k = k + 1;
    }
    assert(mid.take(list@.len() as int) =~= mid);
    assert(mid.skip(list@.len() as int) =~= Seq::<MemberView>::empty());
    assert(current@ =~= mid.filter(keep));
    left
}

} // verus!
