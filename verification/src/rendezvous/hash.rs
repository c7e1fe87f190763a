use std::collections::hash_map::DefaultHasher;
use std::hash::{Hash, Hasher};


use vstd::prelude::*;
use vstd::std_specs::hash::DefaultHasherAdditionalSpecFns;
use vstd::string::StringSliceAdditionalSpecFns;

use super::node::Node;
use crate::text::str_eq;
use super::ranking::{
    bytes_lt,
    candidate_ranking, is_ranking, leave_out, lemma_candidate_ranking, lemma_insert_keeps_ranked,
    lemma_ranking_depends_on_set, lemma_removal_keeps_relative_order,
    lemma_outranks_strict_total, lemma_ranking_is_candidate_ranking, outranks, ranked, text_lt,
};

verus! {

/// The writes, in order, that `<str as Hash>::hash` makes on a hasher when it
/// feeds it `text`.
pub uninterp spec fn str_hash_writes(text: Seq<char>) -> Seq<Seq<u8>>;

/// Calls `<str as Hash>::hash`, which feeds `text` to `hasher`.  The contract
/// says that it appends to what the hasher has been fed the writes that
/// `str_hash_writes` names; which bytes those are is not stated.
#[verifier::external_body]
fn hash_text(text: &str, hasher: &mut DefaultHasher)
    ensures
        final(hasher)@ == old(hasher)@ + str_hash_writes(text@),
{
    text.hash(hasher)
}

/// The writes, in order, that `<i32 as Hash>::hash` makes on a hasher when it
/// feeds it `value`.  These are the bytes of `value` in the target's byte
/// order, so they are fixed within one build but may differ between targets
/// or compiler versions; nothing here depends on which they are.
pub uninterp spec fn int_hash_writes(value: i32) -> Seq<Seq<u8>>;

/// Calls `<i32 as Hash>::hash`, which feeds `value` to `hasher`.  The contract
/// says that it appends to what the hasher has been fed the writes that
/// `int_hash_writes` names; which bytes those are is not stated.
#[verifier::external_body]
fn hash_int(value: i32, hasher: &mut DefaultHasher)
    ensures
        final(hasher)@ == old(hasher)@ + int_hash_writes(value),
{
    value.hash(hasher)
}

/// An item that candidates are ranked for.  The proofs know an item by what
/// hashing it feeds a hasher, so two items that feed the same writes are
/// given the same candidates.
pub trait HashItem {
    /// The writes, in order, that hashing this item makes on a hasher.
    spec fn hash_writes(&self) -> Seq<Seq<u8>>;

    /// Feeds this item to `hasher`.
    fn hash_into(&self, hasher: &mut DefaultHasher)
        ensures
            final(hasher)@ == old(hasher)@ + self.hash_writes(),
    ;
}

impl HashItem for str {
    open spec fn hash_writes(&self) -> Seq<Seq<u8>> {
        str_hash_writes(self@)
    }

    fn hash_into(&self, hasher: &mut DefaultHasher) {
        hash_text(self, hasher)
    }
}

impl HashItem for i32 {
    open spec fn hash_writes(&self) -> Seq<Seq<u8>> {
        int_hash_writes(*self)
    }

    fn hash_into(&self, hasher: &mut DefaultHasher) {
        hash_int(*self, hasher)
    }
}

/// Calculates the hash value of a node for a specific item.
pub trait NodeHasher {
    /// The hash value for the combination of the node identified by `node` and
    /// the item that feeds the writes `item`, as the proofs see it.
    spec fn spec_hash(&self, node: Seq<char>, item: Seq<Seq<u8>>) -> u64;

    /// Returns the hash value for the combination of `node` and `item`.
    fn hash<T: HashItem + ?Sized>(&self, node: &str, item: &T) -> (code: u64)
        ensures
            code == self.spec_hash(node@, item.hash_writes()),
    ;
}

/// The hash that `DefaultNodeHasher` gives: the item is fed first, then the
/// node's identifier, to a fresh `DefaultHasher`.
pub open spec fn default_code(node: Seq<char>, item: Seq<Seq<u8>>) -> u64 {
    DefaultHasher::spec_finish(item + str_hash_writes(node))
}

/// The default `NodeHasher`: it hashes the item, then the node, with the
/// standard library's `DefaultHasher`.
#[derive(Debug, Clone, Copy)]
pub struct DefaultNodeHasher;

impl DefaultNodeHasher {
    /// Makes a new `DefaultNodeHasher`.
    pub fn new() -> (hasher: DefaultNodeHasher)
        ensures
            hasher == DefaultNodeHasher,
    {
        DefaultNodeHasher
    }
}

impl Default for DefaultNodeHasher {
    fn default() -> (hasher: DefaultNodeHasher)
        ensures
            hasher == DefaultNodeHasher,
    {
        DefaultNodeHasher::new()
    }
}

impl NodeHasher for DefaultNodeHasher {
    open spec fn spec_hash(&self, node: Seq<char>, item: Seq<Seq<u8>>) -> u64 {
        default_code(node, item)
    }

    fn hash<T: HashItem + ?Sized>(&self, node: &str, item: &T) -> (code: u64) {
        let mut hasher = DefaultHasher::new();
        item.hash_into(&mut hasher);
        hash_text(node, &mut hasher);
        assert(hasher@ =~= item.hash_writes() + str_hash_writes(node@));
        hasher.finish()
    }
}

/// The identifiers of `nodes`, in order.
pub open spec fn ids_of<N: Node>(nodes: Seq<N>) -> Seq<Seq<char>> {
    nodes.map_values(|n: N| n.id_view())
}

/// The identifiers of the nodes that `nodes` refer to, in order.
pub open spec fn ref_ids_of<N: Node>(nodes: Seq<&N>) -> Seq<Seq<char>> {
    nodes.map_values(|n: &N| n.id_view())
}

/// The identifiers of `ids` picked, in order, by the positions `order`.
pub open spec fn pick(ids: Seq<Seq<char>>, order: Seq<usize>) -> Seq<Seq<char>> {
    order.map_values(|k: usize| ids[k as int])
}

/// A candidate node set of a rendezvous for clients that require the same
/// item: each item ranks the nodes by the hash of the node and the item.
pub struct RendezvousNodes<N: Node, H: NodeHasher> {
    nodes: Vec<N>,
    hasher: H,
    index: usize,
}

impl<N: Node, H: NodeHasher> RendezvousNodes<N, H> {
    /// The nodes, in the order in which they are held.
    pub closed spec fn node_seq(&self) -> Seq<N> {
        self.nodes@
    }

    /// The hasher that ranks the nodes.
    pub closed spec fn hasher_view(&self) -> H {
        self.hasher
    }

    /// The position among the top candidates that `rotate_candidate` hands out
    /// next.
    pub closed spec fn rotation(&self) -> usize {
        self.index
    }

    /// The identifiers of the nodes.
    pub open spec fn ids(&self) -> Seq<Seq<char>> {
        ids_of(self.node_seq())
    }

    /// The hash of each identifier for `item`.
    pub open spec fn code_for(&self, item: Seq<Seq<u8>>) -> spec_fn(Seq<char>) -> u64 {
        |id: Seq<char>| self.hasher_view().spec_hash(id, item)
    }

    /// The identifiers of the candidates for `item`, highest priority first.
    pub open spec fn candidates_for(&self, item: Seq<Seq<u8>>) -> Seq<Seq<char>> {
        candidate_ranking(self.ids(), self.code_for(item))
    }

    /// No two nodes share an identifier, and the rotation can be stepped.
    #[verifier::type_invariant]
    closed spec fn inv(&self) -> bool {
        &&& ids_of(self.nodes@).no_duplicates()
        &&& self.index < usize::MAX
    }

    /// Makes an empty candidate set that ranks with `hasher`.
    pub fn new(hasher: H) -> (nodes: RendezvousNodes<N, H>)
        ensures
            nodes.node_seq() == Seq::<N>::empty(),
            nodes.hasher_view() == hasher,
            nodes.rotation() == 0,
            nodes.ids().no_duplicates(),
    {
        let nodes = RendezvousNodes { nodes: Vec::new(), hasher, index: 0 };
        assert(ids_of(nodes.nodes@) =~= Seq::<Seq<char>>::empty());
        nodes
    }
}


/// `s` with the element at `i` taken out and the last element moved into its
/// place.
pub open spec fn swap_removed<A>(s: Seq<A>, i: int) -> Seq<A> {
    s.update(i, s.last()).drop_last()
}

/// The first `num` of `s`, or all of `s` when it is shorter.
pub open spec fn top_n<A>(s: Seq<A>, num: int) -> Seq<A> {
    if num < s.len() {
        s.take(num)
    } else {
        s
    }
}

/// Whether `a` comes strictly before `b` in byte-wise lexicographic order.
pub fn bytes_less(a: &[u8], b: &[u8]) -> (lt: bool)
    ensures
        lt == bytes_lt(a@, b@),
{
    let mut i: usize = 0;
    assert(a@.skip(0) =~= a@);
    assert(b@.skip(0) =~= b@);
    while i < a.len() && i < b.len()
        invariant
            i <= a@.len(),
            i <= b@.len(),
            bytes_lt(a@, b@) == bytes_lt(a@.skip(i as int), b@.skip(i as int)),
        decreases a@.len() - i,
    {
        if a[i] != b[i] {
            return a[i] < b[i];
        }
        assert(a@.skip(i as int).drop_first() =~= a@.skip(i + 1));
        assert(b@.skip(i as int).drop_first() =~= b@.skip(i + 1));
        i = i + 1;
    }
    i == a.len() && i < b.len()
}

/// Whether the node `id_a` with hash `code_a` ranks above the node `id_b` with
/// hash `code_b`.
fn outranks_exec(code_a: u64, id_a: &str, code_b: u64, id_b: &str) -> (res: bool)
    ensures
        res == (code_a > code_b || (code_a == code_b && text_lt(id_b@, id_a@))),
{
    code_a > code_b || (code_a == code_b && bytes_less(id_b.as_bytes(), id_a.as_bytes()))
}

impl<N: Node, H: NodeHasher> RendezvousNodes<N, H> {
    /// The positions of the nodes, in the order of their rank for `item`.
    fn ranked_positions<T: HashItem + ?Sized>(&self, item: &T) -> (order: Vec<usize>)
        ensures
            order@.len() == self.node_seq().len(),
            forall|k: int| 0 <= k < order@.len() ==> order@[k] < self.node_seq().len(),
            pick(self.ids(), order@) == self.candidates_for(item.hash_writes()),
    {
        proof {
            use_type_invariant(self);
        }
        let n = self.nodes.len();
        let ghost ids = self.ids();
        let ghost code = self.code_for(item.hash_writes());
        let mut codes: Vec<u64> = Vec::new();
        let mut i: usize = 0;
        while i < n
            invariant
                n == self.nodes@.len(),
                ids == self.ids(),
                code == self.code_for(item.hash_writes()),
                i <= n,
                codes@.len() == i,
                forall|k: int| 0 <= k < i ==> codes@[k] == code(#[trigger] ids[k]),
            decreases n - i,
        {
            let c = self.hasher.hash(self.nodes[i].node_id(), item);
            codes.push(c);
            i = i + 1;
        }
        let mut order: Vec<usize> = Vec::new();
        let mut i: usize = 0;
        while i < n
            invariant
                n == self.nodes@.len(),
                ids == self.ids(),
                ids.len() == n,
                ids.no_duplicates(),
                code == self.code_for(item.hash_writes()),
                codes@.len() == n,
                forall|k: int| 0 <= k < n ==> codes@[k] == code(#[trigger] ids[k]),
                i <= n,
                order@.len() == i,
                forall|k: int| 0 <= k < i ==> #[trigger] order@[k] < i,
                forall|k: usize| k < i <==> order@.contains(k),
                ranked(pick(ids, order@), code),
            decreases n - i,
        {
            let ghost r = pick(ids, order@);
            let ghost x = ids[i as int];
            let mut p: usize = 0;
            let mut found = false;
            while !found && p < order.len()
                invariant
                    n == self.nodes@.len(),
                    ids == self.ids(),
                    ids.len() == n,
                    i < n,
                    codes@.len() == n,
                    forall|k: int| 0 <= k < n ==> codes@[k] == code(#[trigger] ids[k]),
                    forall|k: int| 0 <= k < i ==> #[trigger] order@[k] < i,
                    r == pick(ids, order@),
                    x == ids[i as int],
                    order@.len() == i,
                    p <= order@.len(),
                    forall|q: int| 0 <= q < p ==> !outranks(code, x, #[trigger] r[q]),
                    found ==> p < order@.len() && outranks(code, x, r[p as int]),
                decreases order@.len() - p + (if found { 0int } else { 1int }),
            {
                let k = order[p];
                if outranks_exec(codes[i], self.nodes[i].node_id(), codes[k], self.nodes[k].node_id()) {
                    found = true;
                } else {
                    p = p + 1;
                }
            }
            proof {
                assert forall|q: int| 0 <= q < p implies outranks(code, #[trigger] r[q], x) by {
                    assert(r[q] == ids[order@[q] as int]);
                    assert(order@[q] != i);
                    lemma_outranks_strict_total(code, r[q], x, x);
                }
                assert forall|q: int| p <= q < r.len() implies outranks(code, x, #[trigger] r[q]) by {
                    if q > p {
                        assert(outranks(code, r[p as int], r[q]));
                        lemma_outranks_strict_total(code, x, r[p as int], r[q]);
                    }
                }
                lemma_insert_keeps_ranked(r, x, p as int, code);
            }
            let ghost old_order = order@;
            order.insert(p, i);
            proof {
                old_order.insert_ensures(p as int, i);
                assert(pick(ids, order@) =~= r.insert(p as int, x)) by {
                    r.insert_ensures(p as int, x);
                }
                assert forall|k: usize| k < i + 1 <==> order@.contains(k) by {
                    if k < i {
                        assert(old_order.contains(k));
                        let j = choose|j: int| 0 <= j < old_order.len() && old_order[j] == k;
                        if j < p {
                            assert(order@[j] == k);
                        } else {
                            assert(order@[j + 1] == k);
                        }
                    } else if k == i {
                        assert(order@[p as int] == k);
                    }
                    if order@.contains(k) {
                        let j = choose|j: int| 0 <= j < order@.len() && order@[j] == k;
                        if j < p {
                            assert(order@[j] == old_order[j]);
                        } else if j > p {
                            assert(order@[j] == old_order[j - 1]);
                        }
                    }
                }
                assert forall|k: int| 0 <= k < i + 1 implies #[trigger] order@[k] < i + 1 by {
                    if k < p {
                        assert(order@[k] == old_order[k]);
                    } else if k > p {
                        assert(order@[k] == old_order[k - 1]);
                    }
                }
            }
            i = i + 1;
        }
        proof {
            let r = pick(ids, order@);
            assert forall|x: Seq<char>| r.contains(x) <==> ids.contains(x) by {
                if r.contains(x) {
                    let j = choose|j: int| 0 <= j < r.len() && r[j] == x;
                    assert(ids[order@[j] as int] == x);
                }
                if ids.contains(x) {
                    let m = choose|m: int| 0 <= m < ids.len() && ids[m] == x;
                    assert(order@.contains(m as usize));
                    let j = choose|j: int| 0 <= j < order@.len() && order@[j] == m as usize;
                    assert(r[j] == x);
                }
            }
            assert(r.to_set() =~= ids.to_set());
            lemma_ranking_is_candidate_ranking(r, ids, code);
        }
        order
    }

    /// Returns the candidate nodes for `item`, the node with the highest
    /// priority first.
    pub fn calc_candidates<T: HashItem + ?Sized>(&self, item: &T) -> (candidates: Vec<&N>)
        ensures
            ref_ids_of(candidates@) == self.candidates_for(item.hash_writes()),
            forall|k: int| 0 <= k < candidates@.len() ==> self.node_seq().contains(*#[trigger] candidates@[k]),
    {
        let order = self.ranked_positions(item);
        let mut out: Vec<&N> = Vec::new();
        let mut k: usize = 0;
        while k < order.len()
            invariant
                order@.len() == self.node_seq().len(),
                forall|j: int| 0 <= j < order@.len() ==> order@[j] < self.node_seq().len(),
                k <= order@.len(),
                out@.len() == k,
                forall|j: int| 0 <= j < k ==> *#[trigger] out@[j] == self.node_seq()[order@[j] as int],
            decreases order@.len() - k,
        {
            out.push(&self.nodes[order[k]]);
            k = k + 1;
        }
        assert(ref_ids_of(out@) =~= pick(self.ids(), order@));
        out
    }

    /// Returns the top `num` candidate nodes for `item`.
    pub fn calc_top_n_candidates<T: HashItem + ?Sized>(&self, item: &T, num: usize) -> (candidates: Vec<&N>)
        ensures
            ref_ids_of(candidates@) == top_n(self.candidates_for(item.hash_writes()), num as int),
            forall|k: int| 0 <= k < candidates@.len() ==> self.node_seq().contains(*#[trigger] candidates@[k]),
    {
        let all = self.calc_candidates(item);
        let mut out: Vec<&N> = Vec::new();
        let mut k: usize = 0;
        while k < all.len() && k < num
            invariant
                k <= all@.len(),
                k <= num,
                out@ == all@.take(k as int),
            decreases all@.len() - k,
        {
            out.push(all[k]);
            assert(all@.take(k + 1) =~= all@.take(k as int).push(all@[k as int]));
            k = k + 1;
        }
        proof {
            if num < all@.len() {
                assert(out@.len() == num);
                assert forall|j: int| 0 <= j < num implies ref_ids_of(out@)[j] == ref_ids_of(all@)[j] by {
                    assert(out@[j] == all@[j]);
                }
                assert(ref_ids_of(out@) =~= ref_ids_of(all@).take(num as int));
            } else {
                assert(out@ =~= all@);
            }
        }
        out
    }
}


impl<N: Node, H: NodeHasher> RendezvousNodes<N, H> {
    /// The position of the node identified by `node_id`, if there is one.
    fn position_of(&self, node_id: &str) -> (pos: Option<usize>)
        ensures
            match pos {
                Some(i) => i < self.node_seq().len() && self.ids()[i as int] == node_id@,
                None => !self.ids().contains(node_id@),
            },
    {
        let mut i: usize = 0;
        while i < self.nodes.len()
            invariant
                i <= self.nodes@.len(),
                forall|k: int| 0 <= k < i ==> self.ids()[k] != node_id@,
            decreases self.nodes@.len() - i,
        {
            if str_eq(self.nodes[i].node_id(), node_id) {
                return Some(i);
            }
            i = i + 1;
        }
        None
    }

    /// Returns the rotated candidate from the top `num` candidates for `item`:
    /// each call hands out the candidate at the current rotation position and
    /// steps the position on, wrapping around the top candidates.
    pub fn rotate_candidate<T: HashItem + ?Sized>(&mut self, item: &T, num: usize) -> (candidate: Option<&N>)
        requires
            num > 0,
            old(self).node_seq().len() > 0,
        ensures
            final(self).node_seq() == old(self).node_seq(),
            final(self).hasher_view() == old(self).hasher_view(),
            final(self).rotation() == (old(self).rotation() + 1) % (top_n(
                old(self).candidates_for(item.hash_writes()),
                num as int,
            ).len() as int),
            match candidate {
                Some(node) => {
                    &&& old(self).rotation() < top_n(old(self).candidates_for(item.hash_writes()), num as int).len()
                    &&& node.id_view() == old(self).candidates_for(item.hash_writes())[old(self).rotation() as int]
                    &&& old(self).node_seq().contains(*node)
                },
                None => old(self).rotation() >= top_n(old(self).candidates_for(item.hash_writes()), num as int).len(),
            },
    {
        proof {
            use_type_invariant(&*self);
        }
        let order = self.ranked_positions(item);
        let m = if num < order.len() {
            num
        } else {
            order.len()
        };
        let index = self.index;
        self.index = (index + 1) % m;
        if index < m {
            let node = &self.nodes[order[index]];
            assert(pick(old(self).ids(), order@)[index as int] == old(self).ids()[order@[index as int] as int]);
            Some(node)
        } else {
            None
        }
    }

    /// Removes the node identified by `node_id`, returning it, or `None` when
    /// there is no such node.
    pub fn remove(&mut self, node_id: &str) -> (removed: Option<N>)
        ensures
            final(self).hasher_view() == old(self).hasher_view(),
            final(self).rotation() == old(self).rotation(),
            final(self).ids().no_duplicates(),
            final(self).ids().to_set() == old(self).ids().to_set().remove(node_id@),
            final(self).node_seq().to_set() == old(self).node_seq().to_set().filter(
                |n: N| n.id_view() != node_id@,
            ),
            match removed {
                Some(node) => {
                    &&& old(self).node_seq().contains(node)
                    &&& node.id_view() == node_id@
                    &&& node == old(self).node_seq()[old(self).ids().index_of(node_id@)]
                    &&& final(self).node_seq() == swap_removed(
                        old(self).node_seq(),
                        old(self).ids().index_of(node_id@),
                    )
                },
                None => {
                    &&& !old(self).ids().contains(node_id@)
                    &&& final(self).node_seq() == old(self).node_seq()
                },
            },
    {
        proof {
            use_type_invariant(&*self);
        }
        match self.position_of(node_id) {
            Some(i) => {
                let ghost old_nodes = self.nodes@;
                let ghost old_ids = ids_of(old_nodes);
                let mut nodes: Vec<N> = Vec::new();
                std::mem::swap(&mut nodes, &mut self.nodes);
                let node = nodes.swap_remove(i);
                proof {
                    let new_nodes = nodes@;
                    let new_ids = ids_of(new_nodes);
                    let last = old_nodes.len() - 1;
                    assert(new_nodes =~= old_nodes.update(i as int, old_nodes[last]).drop_last());
                    assert forall|j: int| 0 <= j < new_nodes.len() implies #[trigger] new_nodes[j] == (if j == i {
                        old_nodes[last]
                    } else {
                        old_nodes[j]
                    }) by {}
                    assert forall|j: int, k: int| 0 <= j < new_ids.len() && 0 <= k < new_ids.len() && j != k implies new_ids[j] != new_ids[k] by {
                        let oj = if j == i { last } else { j };
                        let ok = if k == i { last } else { k };
                        assert(new_ids[j] == old_ids[oj]);
                        assert(new_ids[k] == old_ids[ok]);
                    }
                    assert forall|x: Seq<char>| new_ids.contains(x) <==> (old_ids.contains(x) && x != node_id@) by {
                        if new_ids.contains(x) {
                            let j = choose|j: int| 0 <= j < new_ids.len() && new_ids[j] == x;
                            let oj = if j == i { last } else { j };
                            assert(old_ids[oj] == x);
                            assert(oj != i);
                        }
                        if old_ids.contains(x) && x != node_id@ {
                            let j = choose|j: int| 0 <= j < old_ids.len() && old_ids[j] == x;
                            assert(j != i);
                            if j == last {
                                assert(new_ids[i as int] == x);
                            } else {
                                assert(new_ids[j] == x);
                            }
                        }
                    }
                    assert(new_ids.to_set() =~= old_ids.to_set().remove(node_id@));
                    assert forall|x: N| new_nodes.contains(x) <==> (old_nodes.contains(x) && x.id_view() != node_id@) by {
                        if new_nodes.contains(x) {
                            let j = choose|j: int| 0 <= j < new_nodes.len() && new_nodes[j] == x;
                            let oj = if j == i { last } else { j };
                            assert(old_nodes[oj] == x);
                            assert(old_ids[oj] == x.id_view());
                            assert(oj != i);
                        }
                        if old_nodes.contains(x) && x.id_view() != node_id@ {
                            let j = choose|j: int| 0 <= j < old_nodes.len() && old_nodes[j] == x;
                            assert(old_ids[j] == x.id_view());
                            assert(j != i);
                            if j == last {
                                assert(new_nodes[i as int] == x);
                            } else {
                                assert(new_nodes[j] == x);
                            }
                        }
                    }
                    assert(new_nodes.to_set() =~= old_nodes.to_set().filter(|n: N| n.id_view() != node_id@));
                    assert(old_nodes.contains(node)) by {
                        assert(old_nodes[i as int] == node);
                    }
                    assert(old_ids[i as int] == node.id_view());
                    assert(old_ids.index_of(node_id@) == i as int);
                    assert(new_nodes =~= swap_removed(old_nodes, i as int));
                }
                self.nodes = nodes;
                Some(node)
            },
            None => {
                proof {
                    let nodes = self.nodes@;
                    assert forall|x: N| nodes.to_set().contains(x) implies x.id_view() != node_id@ by {
                        let j = choose|j: int| 0 <= j < nodes.len() && nodes[j] == x;
                        assert(self.ids()[j] == x.id_view());
                    }
                    assert(nodes.to_set().filter(|n: N| n.id_view() != node_id@) =~= nodes.to_set());
                }
                None
            },
        }
    }

    /// Inserts a new candidate node.  If a node with the same identifier was
    /// there, it is replaced and returned.
    pub fn insert(&mut self, node: N) -> (replaced: Option<N>)
        ensures
            final(self).hasher_view() == old(self).hasher_view(),
            final(self).rotation() == old(self).rotation(),
            final(self).ids().no_duplicates(),
            final(self).ids().to_set() == old(self).ids().to_set().insert(node.id_view()),
            final(self).node_seq().to_set() == old(self).node_seq().to_set().filter(
                |n: N| n.id_view() != node.id_view(),
            ).insert(node),
            match replaced {
                Some(old_node) => {
                    &&& old(self).node_seq().contains(old_node)
                    &&& old_node.id_view() == node.id_view()
                    &&& old_node == old(self).node_seq()[old(self).ids().index_of(node.id_view())]
                    &&& final(self).node_seq() == swap_removed(
                        old(self).node_seq(),
                        old(self).ids().index_of(node.id_view()),
                    ).push(node)
                },
                None => {
                    &&& !old(self).ids().contains(node.id_view())
                    &&& final(self).node_seq() == old(self).node_seq().push(node)
                },
            },
    {
        let replaced = self.remove(node.node_id());
        let ghost mid_nodes = self.nodes@;
        proof {
            use_type_invariant(&*self);
            assert(!ids_of(mid_nodes).contains(node.id_view())) by {
                if ids_of(mid_nodes).contains(node.id_view()) {
                    assert(ids_of(mid_nodes).to_set().contains(node.id_view()));
                }
            }
        }
        let mut nodes: Vec<N> = Vec::new();
        std::mem::swap(&mut nodes, &mut self.nodes);
        nodes.push(node);
        proof {
            let new_ids = ids_of(nodes@);
            assert(new_ids =~= ids_of(mid_nodes).push(node.id_view()));
            assert forall|x: Seq<char>| #[trigger] new_ids.contains(x) <==> (ids_of(mid_nodes).contains(x) || x == node.id_view()) by {
                if new_ids.contains(x) {
                    let j = choose|j: int| 0 <= j < new_ids.len() && new_ids[j] == x;
                    if j < mid_nodes.len() {
                        assert(ids_of(mid_nodes)[j] == x);
                    }
                }
                if ids_of(mid_nodes).contains(x) {
                    let j = choose|j: int| 0 <= j < mid_nodes.len() && ids_of(mid_nodes)[j] == x;
                    assert(new_ids[j] == x);
                }
                if x == node.id_view() {
                    assert(new_ids[mid_nodes.len() as int] == x);
                }
            }
            assert(new_ids.to_set() =~= ids_of(mid_nodes).to_set().insert(node.id_view()));
            assert(new_ids.to_set() =~= old(self).ids().to_set().insert(node.id_view()));
            assert forall|x: N| #[trigger] nodes@.contains(x) <==> (mid_nodes.contains(x) || x == node) by {
                if nodes@.contains(x) {
                    let j = choose|j: int| 0 <= j < nodes@.len() && nodes@[j] == x;
                    if j < mid_nodes.len() {
                        assert(mid_nodes[j] == x);
                    }
                }
                if mid_nodes.contains(x) {
                    let j = choose|j: int| 0 <= j < mid_nodes.len() && mid_nodes[j] == x;
                    assert(nodes@[j] == x);
                }
                if x == node {
                    assert(nodes@[mid_nodes.len() as int] == x);
                }
            }
            assert(nodes@.to_set() =~= mid_nodes.to_set().insert(node));
            assert(new_ids.no_duplicates()) by {
                assert forall|j: int, k: int| 0 <= j < new_ids.len() && 0 <= k < new_ids.len() && j != k implies new_ids[j] != new_ids[k] by {
                    if j == mid_nodes.len() {
                        assert(ids_of(mid_nodes).contains(new_ids[k]));
                    } else if k == mid_nodes.len() {
                        assert(ids_of(mid_nodes).contains(new_ids[j]));
                    } else {
                        assert(new_ids[j] == ids_of(mid_nodes)[j] && new_ids[k] == ids_of(mid_nodes)[k]);
                    }
                }
            }
        }
        self.nodes = nodes;
        replaced
    }

    /// Whether a node identified by `node_id` is in the candidate set.
    pub fn contains(&self, node_id: &str) -> (found: bool)
        ensures
            found == self.ids().contains(node_id@),
    {
        self.position_of(node_id).is_some()
    }

    /// Whether there are no candidate nodes.
    pub fn is_empty(&self) -> (empty: bool)
        ensures
            empty == (self.node_seq().len() == 0),
    {
        self.nodes.len() == 0
    }

    /// The number of candidate nodes.
    pub fn len(&self) -> (count: usize)
        ensures
            count == self.node_seq().len(),
    {
        self.nodes.len()
    }

    /// The nodes of this candidate set, in the order in which they are held.
    pub fn iter(&self) -> (nodes: &[N])
        ensures
            nodes@ == self.node_seq(),
    {
        self.nodes.as_slice()
    }

    /// Removes every candidate node.
    pub fn clear(&mut self)
        ensures
            final(self).node_seq() == Seq::<N>::empty(),
            final(self).hasher_view() == old(self).hasher_view(),
            final(self).rotation() == old(self).rotation(),
            final(self).ids().no_duplicates(),
    {
        proof {
            use_type_invariant(&*self);
        }
        let empty: Vec<N> = Vec::new();
        assert(ids_of(empty@) =~= Seq::<Seq<char>>::empty());
        self.nodes = empty;
    }
}

impl<N: Node> Default for RendezvousNodes<N, DefaultNodeHasher> {
    fn default() -> (nodes: RendezvousNodes<N, DefaultNodeHasher>)
        ensures
            nodes.node_seq() == Seq::<N>::empty(),
            nodes.rotation() == 0,
            nodes.ids().no_duplicates(),
    {
        RendezvousNodes::new(DefaultNodeHasher::new())
    }
}

/// Removing a node keeps the relative order of the other candidates for
/// every item: the candidates afterwards are those before, with the removed
/// node left out.
pub proof fn lemma_remove_keeps_candidate_order<N: Node, H: NodeHasher>(
    before: RendezvousNodes<N, H>,
    after: RendezvousNodes<N, H>,
    removed: Seq<char>,
    item: Seq<Seq<u8>>,
)
    requires
        before.ids().no_duplicates(),
        after.ids().no_duplicates(),
        after.hasher_view() == before.hasher_view(),
        after.ids().to_set() == before.ids().to_set().remove(removed),
    ensures
        after.candidates_for(item) == leave_out(before.candidates_for(item), removed),
{
    assert(after.code_for(item) =~= before.code_for(item));
    lemma_removal_keeps_relative_order(before.ids(), after.ids(), removed, before.code_for(item));
}

/// Inserting a node slots it in among the candidates for every item without
/// reordering the others: leaving the new node out of the candidates
/// afterwards gives the candidates before.
pub proof fn lemma_insert_keeps_candidate_order<N: Node, H: NodeHasher>(
    before: RendezvousNodes<N, H>,
    after: RendezvousNodes<N, H>,
    inserted: Seq<char>,
    item: Seq<Seq<u8>>,
)
    requires
        before.ids().no_duplicates(),
        after.ids().no_duplicates(),
        after.hasher_view() == before.hasher_view(),
        !before.ids().contains(inserted),
        after.ids().to_set() == before.ids().to_set().insert(inserted),
    ensures
        before.candidates_for(item) == leave_out(after.candidates_for(item), inserted),
{
    assert(after.code_for(item) =~= before.code_for(item));
    assert(before.ids().to_set() =~= after.ids().to_set().remove(inserted));
    lemma_removal_keeps_relative_order(after.ids(), before.ids(), inserted, after.code_for(item));
}

/// The candidates for an item depend only on which nodes there are and on
/// the hasher, not on the order in which the nodes were added.
pub proof fn lemma_candidates_depend_on_node_set<N: Node, H: NodeHasher>(
    a: RendezvousNodes<N, H>,
    b: RendezvousNodes<N, H>,
    item: Seq<Seq<u8>>,
)
    requires
        a.ids().no_duplicates(),
        b.ids().no_duplicates(),
        a.hasher_view() == b.hasher_view(),
        a.ids().to_set() == b.ids().to_set(),
    ensures
        a.candidates_for(item) == b.candidates_for(item),
{
    assert(a.code_for(item) =~= b.code_for(item));
    lemma_ranking_depends_on_set(a.ids(), b.ids(), a.code_for(item));
}

/// The candidates for an item are every node exactly once, each ranked above
/// the next: a higher hash first, and on equal hashes the greater
/// identifier.
pub proof fn lemma_candidates_rank_every_node<N: Node, H: NodeHasher>(
    nodes: RendezvousNodes<N, H>,
    item: Seq<Seq<u8>>,
)
    requires
        nodes.ids().no_duplicates(),
    ensures
        is_ranking(nodes.candidates_for(item), nodes.ids(), nodes.code_for(item)),
{
    lemma_candidate_ranking(nodes.ids(), nodes.code_for(item));
}

} // verus!
