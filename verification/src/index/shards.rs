use vstd::prelude::*;

use crate::rendezvous::hash::{
    default_code, ref_ids_of, str_hash_writes, top_n, DefaultNodeHasher, RendezvousNodes,
};
use crate::rendezvous::node::IdNode;
use crate::rendezvous::ranking::{
    candidate_ranking, lemma_candidate_ranking, lemma_ranking_depends_on_set,
};
use crate::text::str_eq;

use super::shard::{Shard, State};

verus! {

/// The identifiers of `shards`, in order.
pub open spec fn shard_ids_of(shards: Seq<Shard>) -> Seq<Seq<char>> {
    shards.map_values(|s: Shard| s.id@)
}

/// The shards that `refs` refer to, in order.
pub open spec fn derefs(refs: Seq<&Shard>) -> Seq<Shard> {
    refs.map_values(|s: &Shard| *s)
}

/// `shards` with `shard` added at the end, unless a shard with its
/// identifier is already there.
pub open spec fn add_shard(shards: Seq<Shard>, shard: Shard) -> Seq<Shard> {
    if shard_ids_of(shards).contains(shard.id@) {
        shards
    } else {
        shards.push(shard)
    }
}

/// The shards that adding each of `list` in turn to no shards leaves.
pub open spec fn collect_shards(list: Seq<Shard>) -> Seq<Shard> {
    list.fold_left(Seq::<Shard>::empty(), |acc: Seq<Shard>, s: Shard| add_shard(acc, s))
}

/// The hash of each shard identifier for the key `key`.
pub open spec fn shard_code(key: Seq<char>) -> spec_fn(Seq<char>) -> u64 {
    |id: Seq<char>| default_code(id, str_hash_writes(key))
}

/// The position of the shard identified by `id` in `shards`.
pub open spec fn position_of_id(shards: Seq<Shard>, id: Seq<char>) -> int {
    choose|k: int| 0 <= k < shards.len() && shards[k].id@ == id
}

/// The shards of an index, in the order in which they were added, with the
/// rendezvous set that assigns keys to them.
pub struct Shards {
    shards: Vec<Shard>,
    hash: RendezvousNodes<IdNode<String>, DefaultNodeHasher>,
}

impl Shards {
    /// The shards, in the order in which they were added.
    pub closed spec fn shard_seq(&self) -> Seq<Shard> {
        self.shards@
    }

    /// The identifiers of the shards, in the order in which they were added.
    pub open spec fn shard_ids(&self) -> Seq<Seq<char>> {
        shard_ids_of(self.shard_seq())
    }

    /// The shard identified by `id`.
    pub open spec fn shard_by_id(&self, id: Seq<char>) -> Shard {
        self.shard_seq()[position_of_id(self.shard_seq(), id)]
    }

    /// The identifiers of the top `num` shards for `key`, highest priority
    /// first.
    pub open spec fn lookup_ids(&self, key: Seq<char>, num: int) -> Seq<Seq<char>> {
        top_n(candidate_ranking(self.shard_ids(), shard_code(key)), num)
    }

    /// The top `num` shards for `key`, highest priority first.
    pub open spec fn lookup_spec(&self, key: Seq<char>, num: int) -> Seq<Shard> {
        self.lookup_ids(key, num).map_values(|id: Seq<char>| self.shard_by_id(id))
    }

    /// No two shards share an identifier, and the rendezvous set holds exactly
    /// the identifiers of the shards.
    #[verifier::type_invariant]
    closed spec fn inv(&self) -> bool {
        &&& shard_ids_of(self.shards@).no_duplicates()
        &&& self.hash.ids().no_duplicates()
        &&& self.hash.ids().to_set() == shard_ids_of(self.shards@).to_set()
    }

    /// No shards.
    pub fn new() -> (shards: Shards)
        ensures
            shards.shard_seq() == Seq::<Shard>::empty(),
            shards.shard_ids().no_duplicates(),
    {
        let list: Vec<Shard> = Vec::new();
        let hash: RendezvousNodes<IdNode<String>, DefaultNodeHasher> = RendezvousNodes::default();
        assert(shard_ids_of(list@) =~= Seq::<Seq<char>>::empty());
        assert(hash.ids() =~= Seq::<Seq<char>>::empty());
        assert(hash.ids().to_set() =~= shard_ids_of(list@).to_set());
        Shards { shards: list, hash }
    }
}


/// In shards with distinct identifiers, the shard identified by `id` sits
/// where its identifier does.
pub proof fn lemma_position_of_id(shards: Seq<Shard>, id: Seq<char>, k: int)
    requires
        shard_ids_of(shards).no_duplicates(),
        0 <= k < shards.len(),
        shards[k].id@ == id,
    ensures
        position_of_id(shards, id) == k,
{
    let j = position_of_id(shards, id);
    assert(shard_ids_of(shards)[k] == id);
    assert(shard_ids_of(shards)[j] == id);
}

/// The shards of `refs` whose state is `state`, in order.
fn select_state<'a>(refs: &Vec<&'a Shard>, state: State) -> (selected: Vec<&'a Shard>)
    ensures
        derefs(selected@) == derefs(refs@).filter(|s: Shard| s.state == state),
{
    let ghost pred = |s: Shard| s.state == state;
    let mut selected: Vec<&'a Shard> = Vec::new();
    let mut i: usize = 0;
    while i < refs.len()
        invariant
            i <= refs@.len(),
            pred == (|s: Shard| s.state == state),
            derefs(selected@) == derefs(refs@).take(i as int).filter(pred),
        decreases refs@.len() - i,
    {
        let shard = refs[i];
        let ghost before = derefs(selected@);
        proof {
            assert(derefs(refs@).take(i + 1) =~= derefs(refs@).take(i as int).push(*shard));
            derefs(refs@).take(i as int).lemma_filter_push(*shard, pred);
        }
        if shard.state == state {
            assert(pred(*shard));
            selected.push(shard);
            assert(derefs(selected@) =~= before.push(*shard));
        } else {
            assert(!pred(*shard));
        }
        assert(derefs(selected@) == derefs(refs@).take(i + 1).filter(pred));
        i = i + 1;
    }
    assert(derefs(refs@).take(refs@.len() as int) =~= derefs(refs@));
    selected
}

impl Shards {
    /// The position of the shard identified by `id`, if there is one.
    fn position(&self, id: &str) -> (pos: Option<usize>)
        ensures
            match pos {
                Some(k) => k < self.shard_seq().len() && self.shard_seq()[k as int].id@ == id@,
                None => !self.shard_ids().contains(id@),
            },
    {
        let mut k: usize = 0;
        while k < self.shards.len()
            invariant
                k <= self.shards@.len(),
                forall|j: int| 0 <= j < k ==> self.shard_ids()[j] != id@,
            decreases self.shards@.len() - k,
        {
            if str_eq(self.shards[k].id.as_str(), id) {
                return Some(k);
            }
            k = k + 1;
        }
        None
    }

    /// Whether the shard identified by `id` is among the shards.
    pub fn contains(&self, id: &String) -> (found: bool)
        ensures
            found == self.shard_ids().contains(id@),
    {
        match self.position(id.as_str()) {
            Some(k) => {
                assert(self.shard_ids()[k as int] == id@);
                true
            },
            None => false,
        }
    }

    /// The shard identified by `id`.
    pub fn get(&self, id: &String) -> (shard: Option<&Shard>)
        ensures
            match shard {
                Some(s) => self.shard_ids().contains(id@) && *s == self.shard_by_id(id@),
                None => !self.shard_ids().contains(id@),
            },
    {
        proof {
            use_type_invariant(self);
        }
        match self.position(id.as_str()) {
            Some(k) => {
                proof {
                    lemma_position_of_id(self.shards@, id@, k as int);
                    assert(self.shard_ids()[k as int] == id@);
                }
                Some(&self.shards[k])
            },
            None => None,
        }
    }

    /// Adds `shard` unless a shard with its identifier is there already; the
    /// result is the added shard, or `None` when nothing was added.
    pub fn push(&mut self, shard: Shard) -> (added: Option<Shard>)
        ensures
            final(self).shard_seq() == add_shard(old(self).shard_seq(), shard),
            final(self).shard_ids().no_duplicates(),
            added == (if old(self).shard_ids().contains(shard.id@) {
                None
            } else {
                Some(shard)
            }),
    {
        proof {
            use_type_invariant(&*self);
        }
        if self.contains(&shard.id) {
            return None;
        }
        let mut this = Shards::new();
        std::mem::swap(&mut this, self);
        let Shards { shards: mut list, hash: mut hash } = this;
        let ghost old_list = list@;
        list.push(shard.clone());
        let _ = hash.insert(IdNode::new(shard.id.clone()));
        proof {
            let ids = shard_ids_of(list@);
            assert(ids =~= shard_ids_of(old_list).push(shard.id@));
            assert(ids.to_set() =~= shard_ids_of(old_list).to_set().insert(shard.id@)) by {
                assert forall|x: Seq<char>| ids.contains(x) <==> (shard_ids_of(old_list).contains(x) || x == shard.id@) by {
                    if ids.contains(x) {
                        let j = choose|j: int| 0 <= j < ids.len() && ids[j] == x;
                        if j < old_list.len() {
                            assert(shard_ids_of(old_list)[j] == x);
                        }
                    }
                    if shard_ids_of(old_list).contains(x) {
                        let j = choose|j: int| 0 <= j < old_list.len() && shard_ids_of(old_list)[j] == x;
                        assert(ids[j] == x);
                    }
                    if x == shard.id@ {
                        assert(ids[old_list.len() as int] == x);
                    }
                }
            }
            assert(ids.no_duplicates()) by {
                assert forall|j: int, k: int| 0 <= j < ids.len() && 0 <= k < ids.len() && j != k implies ids[j] != ids[k] by {
                    if j == old_list.len() {
                        assert(shard_ids_of(old_list).contains(ids[k]));
                    } else if k == old_list.len() {
                        assert(shard_ids_of(old_list).contains(ids[j]));
                    } else {
                        assert(ids[j] == shard_ids_of(old_list)[j] && ids[k] == shard_ids_of(old_list)[k]);
                    }
                }
            }
        }
        *self = Shards { shards: list, hash };
        Some(shard)
    }

    /// Removes the shard identified by `id`, returning it, or `None` when
    /// there is no such shard.
    pub fn remove(&mut self, id: &String) -> (removed: Option<Shard>)
        ensures
            final(self).shard_ids().no_duplicates(),
            match removed {
                Some(s) => {
                    &&& old(self).shard_ids().contains(id@)
                    &&& s == old(self).shard_by_id(id@)
                    &&& final(self).shard_seq() == old(self).shard_seq().remove(
                        position_of_id(old(self).shard_seq(), id@),
                    )
                },
                None => !old(self).shard_ids().contains(id@) && final(self).shard_seq() == old(
                    self,
                ).shard_seq(),
            },
    {
        proof {
            use_type_invariant(&*self);
        }
        match self.position(id.as_str()) {
            Some(k) => {
                proof {
                    lemma_position_of_id(self.shards@, id@, k as int);
                    assert(self.shard_ids()[k as int] == id@);
                }
                let mut this = Shards::new();
                std::mem::swap(&mut this, self);
                let Shards { shards: mut list, hash: mut hash } = this;
                let ghost old_list = list@;
                let shard = list.remove(k);
                let _ = hash.remove(id.as_str());
                proof {
                    let old_ids = shard_ids_of(old_list);
                    let ids = shard_ids_of(list@);
                    old_list.remove_ensures(k as int);
                    assert(ids =~= old_ids.remove(k as int)) by {
                        old_ids.remove_ensures(k as int);
                    }
                    old_ids.remove_ensures(k as int);
                    assert(ids.no_duplicates()) by {
                        assert forall|a: int, b: int| 0 <= a < ids.len() && 0 <= b < ids.len() && a != b implies ids[a] != ids[b] by {
                            let oa = if a < k { a } else { a + 1 };
                            let ob = if b < k { b } else { b + 1 };
                            assert(ids[a] == old_ids[oa]);
                            assert(ids[b] == old_ids[ob]);
                        }
                    }
                    assert(ids.to_set() =~= old_ids.to_set().remove(id@)) by {
                        assert forall|x: Seq<char>| ids.contains(x) <==> (old_ids.contains(x) && x != id@) by {
                            if ids.contains(x) {
                                let a = choose|a: int| 0 <= a < ids.len() && ids[a] == x;
                                let oa = if a < k { a } else { a + 1 };
                                assert(old_ids[oa] == x);
                                assert(oa != k);
                            }
                            if old_ids.contains(x) && x != id@ {
                                let a = choose|a: int| 0 <= a < old_ids.len() && old_ids[a] == x;
                                assert(a != k);
                                if a < k {
                                    assert(ids[a] == x);
                                } else {
                                    assert(ids[a - 1] == x);
                                }
                            }
                        }
                    }
                }
                *self = Shards { shards: list, hash };
                Some(shard)
            },
            None => None,
        }
    }

    /// Removes the most recently added shard, returning it, or `None` when
    /// there are no shards.
    pub fn pop(&mut self) -> (popped: Option<Shard>)
        ensures
            final(self).shard_ids().no_duplicates(),
            match popped {
                Some(s) => {
                    &&& old(self).shard_seq().len() > 0
                    &&& s == old(self).shard_seq().last()
                    &&& final(self).shard_seq() == old(self).shard_seq().drop_last()
                },
                None => old(self).shard_seq().len() == 0 && final(self).shard_seq() == old(
                    self,
                ).shard_seq(),
            },
    {
        proof {
            use_type_invariant(&*self);
        }
        let n = self.shards.len();
        if n == 0 {
            return None;
        }
        let id = self.shards[n - 1].id.clone();
        proof {
            lemma_position_of_id(self.shards@, id@, n - 1);
            assert(self.shard_ids()[n - 1] == id@);
        }
        let popped = self.remove(&id);
        assert(old(self).shard_seq().remove(n - 1) =~= old(self).shard_seq().drop_last());
        popped
    }

    /// The shards built by adding each of `shard_list` in turn; a shard whose
    /// identifier is already there is left out.
    pub fn init(shard_list: Vec<Shard>) -> (shards: Shards)
        ensures
            shards.shard_seq() == collect_shards(shard_list@),
            shards.shard_ids().no_duplicates(),
    {
        let mut shards = Shards::new();
        let mut i: usize = 0;
        while i < shard_list.len()
            invariant
                i <= shard_list@.len(),
                shards.shard_seq() == collect_shards(shard_list@.take(i as int)),
            decreases shard_list@.len() - i,
        {
            let shard = shard_list[i].clone();
            let _ = shards.push(shard);
            proof {
                let prefix = shard_list@.take(i + 1);
                assert(prefix.drop_last() =~= shard_list@.take(i as int));
                assert(prefix.last() == shard_list@[i as int]);
            }
            i = i + 1;
        }
        assert(shard_list@.take(shard_list@.len() as int) =~= shard_list@);
        proof {
            use_type_invariant(&shards);
        }
        shards
    }

    /// The shards, in the order in which they were added.
    pub fn iter(&self) -> (shards: &[Shard])
        ensures
            shards@ == self.shard_seq(),
    {
        self.shards.as_slice()
    }

    /// References to every shard, in the order in which they were added.
    fn all_refs(&self) -> (refs: Vec<&Shard>)
        ensures
            derefs(refs@) == self.shard_seq(),
    {
        let mut refs: Vec<&Shard> = Vec::new();
        let mut i: usize = 0;
        while i < self.shards.len()
            invariant
                i <= self.shards@.len(),
                derefs(refs@) == self.shards@.take(i as int),
            decreases self.shards@.len() - i,
        {
            let ghost before = refs@;
            refs.push(&self.shards[i]);
            assert(derefs(refs@) =~= derefs(before).push(self.shards@[i as int]));
            assert(derefs(refs@) =~= self.shards@.take(i + 1));
            i = i + 1;
        }
        assert(self.shards@.take(self.shards@.len() as int) =~= self.shards@);
        refs
    }

    /// The serving shards.
    pub fn iter_serving_shards(&self) -> (shards: Vec<&Shard>)
        ensures
            derefs(shards@) == self.shard_seq().filter(|s: Shard| s.state == State::Serving),
    {
        select_state(&self.all_refs(), State::Serving)
    }

    /// The draining shards.
    pub fn iter_draining_shards(&self) -> (shards: Vec<&Shard>)
        ensures
            derefs(shards@) == self.shard_seq().filter(|s: Shard| s.state == State::Draining),
    {
        select_state(&self.all_refs(), State::Draining)
    }

    /// The drained shards.
    pub fn iter_drained_shards(&self) -> (shards: Vec<&Shard>)
        ensures
            derefs(shards@) == self.shard_seq().filter(|s: Shard| s.state == State::Drained),
    {
        select_state(&self.all_refs(), State::Drained)
    }

    /// The number of shards.
    pub fn len(&self) -> (count: usize)
        ensures
            count == self.shard_seq().len(),
    {
        self.shards.len()
    }

    /// The number of serving shards.
    pub fn serving_shards_len(&self) -> (count: usize)
        ensures
            count == self.shard_seq().filter(|s: Shard| s.state == State::Serving).len(),
    {
        let shards = self.iter_serving_shards();
        shards.len()
    }

    /// The number of draining shards.
    pub fn draining_shards_len(&self) -> (count: usize)
        ensures
            count == self.shard_seq().filter(|s: Shard| s.state == State::Draining).len(),
    {
        let shards = self.iter_draining_shards();
        shards.len()
    }

    /// The number of drained shards.
    pub fn drained_shards_len(&self) -> (count: usize)
        ensures
            count == self.shard_seq().filter(|s: Shard| s.state == State::Drained).len(),
    {
        let shards = self.iter_drained_shards();
        shards.len()
    }

    /// Whether there are no shards.
    pub fn is_empty(&self) -> (empty: bool)
        ensures
            empty == (self.shard_seq().len() == 0),
    {
        self.shards.len() == 0
    }
}

impl Clone for Shards {
    fn clone(&self) -> (shards: Shards)
        ensures
            shards.shard_seq() == self.shard_seq(),
    {
        proof {
            use_type_invariant(self);
        }
        let mut shards = Shards::new();
        let mut i: usize = 0;
        while i < self.shards.len()
            invariant
                i <= self.shards@.len(),
                shard_ids_of(self.shards@).no_duplicates(),
                shards.shard_seq() == self.shards@.take(i as int),
            decreases self.shards@.len() - i,
        {
            let shard = self.shards[i].clone();
            proof {
                assert(!shard_ids_of(shards.shard_seq()).contains(shard.id@)) by {
                    if shard_ids_of(shards.shard_seq()).contains(shard.id@) {
                        let j = choose|j: int| 0 <= j < i && shard_ids_of(shards.shard_seq())[j] == shard.id@;
                        assert(shard_ids_of(self.shards@)[j] == shard_ids_of(self.shards@)[i as int]);
                    }
                }
            }
            let _ = shards.push(shard);
            assert(shards.shard_seq() =~= self.shards@.take(i + 1));
            i = i + 1;
        }
        assert(self.shards@.take(self.shards@.len() as int) =~= self.shards@);
        shards
    }
}

impl Default for Shards {
    fn default() -> (shards: Shards)
        ensures
            shards.shard_seq() == Seq::<Shard>::empty(),
    {
        Shards::new()
    }
}


impl Shards {
    /// The top `num` shards for `key`, highest priority first.
    pub fn lookup_shards(&self, key: &str, num: usize) -> (shards: Vec<&Shard>)
        ensures
            derefs(shards@) == self.lookup_spec(key@, num as int),
    {
        proof {
            use_type_invariant(self);
        }
        let candidates = self.hash.calc_top_n_candidates(key, num);
        let ghost code = shard_code(key@);
        let ghost ids = self.shard_ids();
        proof {
            assert(self.hash.code_for(str_hash_writes(key@)) =~= code);
            lemma_ranking_depends_on_set(self.hash.ids(), ids, code);
            lemma_candidate_ranking(ids, code);
            assert(ref_ids_of(candidates@) == self.lookup_ids(key@, num as int));
        }
        let mut out: Vec<&Shard> = Vec::new();
        let mut k: usize = 0;
        while k < candidates.len()
            invariant
                k <= candidates@.len(),
                ids == self.shard_ids(),
                ref_ids_of(candidates@) == self.lookup_ids(key@, num as int),
                candidate_ranking(ids, code).to_set() == ids.to_set(),
                code == shard_code(key@),
                derefs(out@) == self.lookup_spec(key@, num as int).take(k as int),
            decreases candidates@.len() - k,
        {
            let id = candidates[k].get();
            proof {
                let r = candidate_ranking(ids, code);
                assert(ref_ids_of(candidates@)[k as int] == id@);
                let lk = self.lookup_ids(key@, num as int);
                assert(lk[k as int] == r[k as int]);
                assert(r.to_set().contains(r[k as int]));
                assert(ids.contains(id@));
            }
            match self.get(id) {
                Some(shard) => {
                    let ghost before = derefs(out@);
                    out.push(shard);
                    assert(derefs(out@) =~= before.push(*shard));
                    assert(derefs(out@) =~= self.lookup_spec(key@, num as int).take(k + 1));
                },
                None => {
                    assert(false);
                },
            }
            k = k + 1;
        }
        assert(self.lookup_spec(key@, num as int).take(candidates@.len() as int) =~= self.lookup_spec(key@, num as int));
        out
    }

    /// The shard of highest priority for `key`, or `None` when there are no
    /// shards.
    pub fn lookup_shard(&self, key: &str) -> (shard: Option<&Shard>)
        ensures
            match shard {
                Some(s) => self.shard_seq().len() > 0 && *s == self.lookup_spec(key@, 1)[0],
                None => self.shard_seq().len() == 0,
            },
    {
        let shards = self.lookup_shards(key, 1);
        proof {
            use_type_invariant(self);
            lemma_candidate_ranking(self.shard_ids(), shard_code(key@));
        }
        let ghost r = candidate_ranking(self.shard_ids(), shard_code(key@));
        assert(self.shard_ids().len() == self.shard_seq().len());
        assert(r.len() == self.shard_seq().len());
        assert(self.lookup_ids(key@, 1).len() == derefs(shards@).len());
        if shards.len() > 0 {
            assert(derefs(shards@)[0] == *shards@[0]);
            Some(shards[0])
        } else {
            None
        }
    }

    /// The top `num` shards for `key` whose state is `state`.
    fn lookup_filterd_shards(&self, key: &str, num: usize, state: State) -> (shards: Vec<&Shard>)
        ensures
            derefs(shards@) == self.lookup_spec(key@, num as int).filter(|s: Shard| s.state == state),
    {
        let shards = self.lookup_shards(key, num);
        select_state(&shards, state)
    }

    /// The serving shards among the top `num` shards for `key`.
    pub fn lookup_serving_shards(&self, key: &str, num: usize) -> (shards: Vec<&Shard>)
        ensures
            derefs(shards@) == self.lookup_spec(key@, num as int).filter(|s: Shard| s.state == State::Serving),
    {
        self.lookup_filterd_shards(key, num, State::Serving)
    }

    /// The shard of highest priority for `key` when it is serving, otherwise
    /// `None`.
    pub fn lookup_serving_shard(&self, key: &str) -> (shard: Option<&Shard>)
        ensures
            match shard {
                Some(s) => *s == self.lookup_spec(key@, 1).filter(|s: Shard| s.state == State::Serving)[0],
                None => self.lookup_spec(key@, 1).filter(|s: Shard| s.state == State::Serving).len() == 0,
            },
    {
        let shards = self.lookup_serving_shards(key, 1);
        if shards.len() > 0 {
            assert(derefs(shards@)[0] == *shards@[0]);
            Some(shards[0])
        } else {
            None
        }
    }

    /// The draining shards among the top `num` shards for `key`.
    pub fn lookup_draining_shards(&self, key: &str, num: usize) -> (shards: Vec<&Shard>)
        ensures
            derefs(shards@) == self.lookup_spec(key@, num as int).filter(|s: Shard| s.state == State::Draining),
    {
        self.lookup_filterd_shards(key, num, State::Draining)
    }

    /// The drained shards among the top `num` shards for `key`.
    pub fn lookup_drained_shards(&self, key: &str, num: usize) -> (shards: Vec<&Shard>)
        ensures
            derefs(shards@) == self.lookup_spec(key@, num as int).filter(|s: Shard| s.state == State::Drained),
    {
        self.lookup_filterd_shards(key, num, State::Drained)
    }
}

/// The top shards for a key depend only on which shard identifiers there
/// are, not on the order in which the shards were added.
pub proof fn lemma_shard_lookup_depends_on_id_set(a: Shards, b: Shards, key: Seq<char>, num: int)
    requires
        a.shard_ids().no_duplicates(),
        b.shard_ids().no_duplicates(),
        a.shard_ids().to_set() == b.shard_ids().to_set(),
    ensures
        a.lookup_ids(key, num) == b.lookup_ids(key, num),
{
    lemma_ranking_depends_on_set(a.shard_ids(), b.shard_ids(), shard_code(key));
}

} // verus!
