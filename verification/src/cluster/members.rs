use vstd::prelude::*;

use super::member::{Member, MemberView};
use super::metadata::same_metadata;
use crate::rendezvous::hash::{
    default_code, ref_ids_of, str_hash_writes, top_n, DefaultNodeHasher, RendezvousNodes,
};
use crate::rendezvous::node::IdNode;
use crate::rendezvous::ranking::{
    candidate_ranking, lemma_candidate_ranking, lemma_ranked_no_duplicates,
    leave_out, lemma_ranking_depends_on_set, lemma_removal_keeps_relative_order,
};
use crate::text::str_eq;

verus! {

/// The views of `members`, in order.
pub open spec fn member_views(members: Seq<Member>) -> Seq<MemberView> {
    members.map_values(|m: Member| m@)
}

/// The views of the members that `refs` refer to, in order.
pub open spec fn ref_views(refs: Seq<&Member>) -> Seq<MemberView> {
    refs.map_values(|m: &Member| m@)
}

/// The addresses of `members`, in order.
pub open spec fn addrs_of(members: Seq<MemberView>) -> Seq<Seq<char>> {
    members.map_values(|m: MemberView| m.addr)
}

/// The position of the member at `addr` in `members`.
pub open spec fn position_of_addr(members: Seq<MemberView>, addr: Seq<char>) -> int {
    choose|k: int| 0 <= k < members.len() && members[k].addr == addr
}

/// `members` after `member` has announced itself: a new address is added at
/// the end; a known address whose metadata changed takes the new metadata and
/// keeps its version; otherwise nothing changes.
pub open spec fn add_member(members: Seq<MemberView>, member: MemberView) -> Seq<MemberView> {
    if addrs_of(members).contains(member.addr) {
        let k = position_of_addr(members, member.addr);
        if members[k].metadata != member.metadata {
            members.update(
                k,
                MemberView {
                    addr: members[k].addr,
                    metadata: member.metadata,
                    version: members[k].version,
                },
            )
        } else {
            members
        }
    } else {
        members.push(member)
    }
}

/// Whether announcing `member` to `members` changes them.
pub open spec fn changes_members(members: Seq<MemberView>, member: MemberView) -> bool {
    !addrs_of(members).contains(member.addr) || members[position_of_addr(
        members,
        member.addr,
    )].metadata != member.metadata
}

/// The members that announcing each of `list` in turn to no members leaves.
pub open spec fn collect_members(list: Seq<MemberView>) -> Seq<MemberView> {
    list.fold_left(
        Seq::<MemberView>::empty(),
        |acc: Seq<MemberView>, m: MemberView| add_member(acc, m),
    )
}

/// The hash of each member address for the key `key`.
pub open spec fn member_code(key: Seq<char>) -> spec_fn(Seq<char>) -> u64 {
    |addr: Seq<char>| default_code(addr, str_hash_writes(key))
}

/// In members with distinct addresses, the member at `addr` sits where its
/// address does.
pub proof fn lemma_position_of_addr(members: Seq<MemberView>, addr: Seq<char>, k: int)
    requires
        addrs_of(members).no_duplicates(),
        0 <= k < members.len(),
        members[k].addr == addr,
    ensures
        position_of_addr(members, addr) == k,
{
    let j = position_of_addr(members, addr);
    assert(addrs_of(members)[k] == addr);
    assert(addrs_of(members)[j] == addr);
}

/// Announcing a member keeps one member per address and takes in the whole
/// announced metadata: a new address joins at the end; at a known address
/// the stored member then announces exactly the new metadata, gRPC and HTTP
/// addresses alike, and keeps its place and version; and nothing changes
/// exactly when the whole metadata was already the same.
pub proof fn lemma_announcing_takes_the_metadata(members: Seq<MemberView>, member: MemberView)
    requires
        addrs_of(members).no_duplicates(),
    ensures
        addrs_of(add_member(members, member)).no_duplicates(),
        !addrs_of(members).contains(member.addr) ==> add_member(members, member) == members.push(
            member,
        ),
        addrs_of(members).contains(member.addr) ==> {
            let k = position_of_addr(members, member.addr);
            let after = add_member(members, member);
            &&& after.len() == members.len()
            &&& position_of_addr(after, member.addr) == k
            &&& after[k].addr == member.addr
            &&& after[k].metadata == member.metadata
            &&& after[k].version == members[k].version
            &&& forall|j: int| 0 <= j < members.len() && j != k ==> after[j] == members[j]
        },
        !changes_members(members, member) <==> (addrs_of(members).contains(member.addr)
            && members[position_of_addr(members, member.addr)].metadata == member.metadata),
        !changes_members(members, member) ==> add_member(members, member) == members,
{
    let after = add_member(members, member);
    if addrs_of(members).contains(member.addr) {
        let j = choose|j: int| 0 <= j < addrs_of(members).len() && addrs_of(members)[j] == member.addr;
        assert(members[j].addr == member.addr);
        lemma_position_of_addr(members, member.addr, j);
        let k = position_of_addr(members, member.addr);
        assert(addrs_of(after) =~= addrs_of(members));
        assert(after[k].addr == member.addr);
        lemma_position_of_addr(after, member.addr, k);
    } else {
        assert(addrs_of(after) =~= addrs_of(members).push(member.addr));
        assert forall|a: int, b: int|
            0 <= a < addrs_of(after).len() && 0 <= b < addrs_of(after).len() && a != b implies addrs_of(
            after,
        )[a] != addrs_of(after)[b] by {
            if a == members.len() {
                assert(addrs_of(members).contains(addrs_of(after)[b]));
            } else if b == members.len() {
                assert(addrs_of(members).contains(addrs_of(after)[a]));
            }
        }
    }
}

/// The members of the cluster, in the order in which they joined, with the
/// rendezvous set that assigns keys to them.
pub struct Members {
    inner: Vec<Member>,
    hash: RendezvousNodes<IdNode<String>, DefaultNodeHasher>,
}

impl View for Members {
    type V = Seq<MemberView>;

    open spec fn view(&self) -> Seq<MemberView> {
        self.member_seq()
    }
}

impl Members {
    /// The members, in the order in which they joined.
    pub closed spec fn member_seq(&self) -> Seq<MemberView> {
        member_views(self.inner@)
    }

    /// The position among the top candidates that `rotate_node` hands out
    /// next.
    pub closed spec fn rotation(&self) -> usize {
        self.hash.rotation()
    }

    /// The addresses of the members, in the order in which they joined.
    pub open spec fn addrs(&self) -> Seq<Seq<char>> {
        addrs_of(self@)
    }

    /// The member at `addr`.
    pub open spec fn member_at(&self, addr: Seq<char>) -> MemberView {
        self@[position_of_addr(self@, addr)]
    }

    /// The addresses of the top `num` members for `key`, highest priority
    /// first.
    pub open spec fn lookup_addrs(&self, key: Seq<char>, num: int) -> Seq<Seq<char>> {
        top_n(candidate_ranking(self.addrs(), member_code(key)), num)
    }

    /// The top `num` members for `key`, highest priority first.
    pub open spec fn lookup_spec(&self, key: Seq<char>, num: int) -> Seq<MemberView> {
        self.lookup_addrs(key, num).map_values(|addr: Seq<char>| self.member_at(addr))
    }

    /// No two members share an address, and the rendezvous set holds exactly
    /// the addresses of the members.
    #[verifier::type_invariant]
    closed spec fn inv(&self) -> bool {
        &&& addrs_of(member_views(self.inner@)).no_duplicates()
        &&& self.hash.ids().no_duplicates()
        &&& self.hash.ids().to_set() == addrs_of(member_views(self.inner@)).to_set()
    }

    /// No members.
    pub fn new() -> (members: Members)
        ensures
            members@ == Seq::<MemberView>::empty(),
            members.addrs().no_duplicates(),
    {
        let list: Vec<Member> = Vec::new();
        let hash: RendezvousNodes<IdNode<String>, DefaultNodeHasher> = RendezvousNodes::default();
        assert(member_views(list@) =~= Seq::<MemberView>::empty());
        assert(addrs_of(member_views(list@)) =~= Seq::<Seq<char>>::empty());
        assert(hash.ids() =~= Seq::<Seq<char>>::empty());
        assert(hash.ids().to_set() =~= addrs_of(member_views(list@)).to_set());
        Members { inner: list, hash }
    }

    /// The position of the member at `addr`, if there is one.
    fn position(&self, addr: &str) -> (pos: Option<usize>)
        ensures
            match pos {
                Some(k) => k < self@.len() && self@[k as int].addr == addr@,
                None => !self.addrs().contains(addr@),
            },
    {
        let mut k: usize = 0;
        while k < self.inner.len()
            invariant
                k <= self.inner@.len(),
                forall|j: int| 0 <= j < k ==> self.addrs()[j] != addr@,
            decreases self.inner@.len() - k,
        {
            if str_eq(self.inner[k].addr.as_str(), addr) {
                return Some(k);
            }
            k = k + 1;
        }
        None
    }

    /// Whether the member at `addr` is in the cluster.
    pub fn contains(&self, addr: &str) -> (found: bool)
        ensures
            found == self.addrs().contains(addr@),
    {
        match self.position(addr) {
            Some(k) => {
                assert(self.addrs()[k as int] == addr@);
                true
            },
            None => false,
        }
    }

    /// The member at `addr`.
    pub fn get(&self, addr: &str) -> (member: Option<&Member>)
        ensures
            match member {
                Some(m) => self.addrs().contains(addr@) && m@ == self.member_at(addr@) && m@.addr
                    == addr@,
                None => !self.addrs().contains(addr@),
            },
    {
        proof {
            use_type_invariant(self);
        }
        match self.position(addr) {
            Some(k) => {
                proof {
                    lemma_position_of_addr(self@, addr@, k as int);
                    assert(self.addrs()[k as int] == addr@);
                }
                Some(&self.inner[k])
            },
            None => None,
        }
    }

    /// The members, in the order in which they joined; no two share an
    /// address.
    pub fn iter(&self) -> (members: &[Member])
        ensures
            member_views(members@) == self@,
            self.addrs().no_duplicates(),
    {
        proof {
            use_type_invariant(self);
        }
        self.inner.as_slice()
    }

    /// The number of members.
    pub fn len(&self) -> (count: usize)
        ensures
            count == self@.len(),
    {
        self.inner.len()
    }

    /// Whether there are no members.
    pub fn is_empty(&self) -> (empty: bool)
        ensures
            empty == (self@.len() == 0),
    {
        self.inner.len() == 0
    }
}

impl Members {
    /// Announces `member`.  A new address joins at the end and the member is
    /// returned; a known address whose metadata changed takes the new
    /// metadata, keeps its version, and the updated member is returned;
    /// otherwise nothing changes and `None` is returned.
    pub fn push(&mut self, member: Member) -> (changed: Option<Member>)
        ensures
            final(self)@ == add_member(old(self)@, member@),
            final(self).addrs().no_duplicates(),
            final(self).rotation() == old(self).rotation(),
            match changed {
                Some(m) => changes_members(old(self)@, member@) && m@ == final(self).member_at(
                    member@.addr,
                ),
                None => !changes_members(old(self)@, member@),
            },
            !old(self).addrs().contains(member@.addr) ==> final(self)@ == old(self)@.push(member@),
            old(self).addrs().contains(member@.addr) ==> final(self).member_at(member@.addr).metadata
                == member@.metadata && final(self).member_at(member@.addr).version == old(
                self,
            ).member_at(member@.addr).version,
            changed is None <==> (old(self).addrs().contains(member@.addr) && old(self).member_at(
                member@.addr,
            ).metadata == member@.metadata),
    {
        proof {
            use_type_invariant(&*self);
            lemma_announcing_takes_the_metadata(self@, member@);
        }
        match self.position(member.addr.as_str()) {
            Some(k) => {
                proof {
                    lemma_position_of_addr(self@, member@.addr, k as int);
                    assert(self.addrs()[k as int] == member@.addr);
                }
                if same_metadata(&self.inner[k].metadata, &member.metadata) {
                    return None;
                }
                let mut this = Members::new();
                std::mem::swap(&mut this, self);
                let Members { inner: mut list, hash } = this;
                let ghost old_list = list@;
                let updated = Member {
                    addr: list[k].addr.clone(),
                    metadata: member.metadata,
                    version: list[k].version,
                };
                let copy = updated.clone();
                list.set(k, updated);
                proof {
                    assert(member_views(list@) =~= member_views(old_list).update(
                        k as int,
                        MemberView {
                            addr: member_views(old_list)[k as int].addr,
                            metadata: member@.metadata,
                            version: member_views(old_list)[k as int].version,
                        },
                    ));
                    assert(addrs_of(member_views(list@)) =~= addrs_of(member_views(old_list)));
                    lemma_position_of_addr(member_views(list@), member@.addr, k as int);
                }
                *self = Members { inner: list, hash };
                Some(copy)
            },
            None => {
                let mut this = Members::new();
                std::mem::swap(&mut this, self);
                let Members { inner: mut list, hash: mut hash } = this;
                let ghost old_list = list@;
                let copy = member.clone();
                let addr = member.addr.clone();
                list.push(member);
                let _ = hash.insert(IdNode::new(addr));
                proof {
                    let old_addrs = addrs_of(member_views(old_list));
                    let addrs = addrs_of(member_views(list@));
                    assert(member_views(list@) =~= member_views(old_list).push(copy@));
                    assert(addrs =~= old_addrs.push(copy@.addr));
                    assert(addrs.to_set() =~= old_addrs.to_set().insert(copy@.addr)) by {
                        assert forall|x: Seq<char>| addrs.contains(x) <==> (old_addrs.contains(x)
                            || x == copy@.addr) by {
                            if addrs.contains(x) {
                                let j = choose|j: int| 0 <= j < addrs.len() && addrs[j] == x;
                                if j < old_list.len() {
                                    assert(old_addrs[j] == x);
                                }
                            }
                            if old_addrs.contains(x) {
                                let j = choose|j: int| 0 <= j < old_addrs.len() && old_addrs[j] == x;
                                assert(addrs[j] == x);
                            }
                            if x == copy@.addr {
                                assert(addrs[old_list.len() as int] == x);
                            }
                        }
                    }
                    assert(addrs.no_duplicates()) by {
                        assert forall|j: int, k: int|
                            0 <= j < addrs.len() && 0 <= k < addrs.len() && j != k implies addrs[j]
                            != addrs[k] by {
                            if j == old_list.len() {
                                assert(old_addrs.contains(addrs[k]));
                            } else if k == old_list.len() {
                                assert(old_addrs.contains(addrs[j]));
                            } else {
                                assert(addrs[j] == old_addrs[j] && addrs[k] == old_addrs[k]);
                            }
                        }
                    }
                    lemma_position_of_addr(member_views(list@), copy@.addr, old_list.len() as int);
                }
                *self = Members { inner: list, hash };
                Some(copy)
            },
        }
    }

    /// Removes the member at `addr`, returning it, or `None` when there is no
    /// such member.
    pub fn remove(&mut self, addr: &str) -> (removed: Option<Member>)
        ensures
            final(self).addrs().no_duplicates(),
            final(self).rotation() == old(self).rotation(),
            match removed {
                Some(m) => {
                    &&& old(self).addrs().contains(addr@)
                    &&& m@ == old(self).member_at(addr@)
                    &&& final(self)@ == old(self)@.remove(position_of_addr(old(self)@, addr@))
                },
                None => !old(self).addrs().contains(addr@) && final(self)@ == old(self)@,
            },
    {
        proof {
            use_type_invariant(&*self);
        }
        match self.position(addr) {
            Some(k) => {
                proof {
                    lemma_position_of_addr(self@, addr@, k as int);
                    assert(self.addrs()[k as int] == addr@);
                }
                let mut this = Members::new();
                std::mem::swap(&mut this, self);
                let Members { inner: mut list, hash: mut hash } = this;
                let ghost old_list = list@;
                let member = list.remove(k);
                let _ = hash.remove(addr);
                proof {
                    let old_views = member_views(old_list);
                    let old_addrs = addrs_of(old_views);
                    let addrs = addrs_of(member_views(list@));
                    old_list.remove_ensures(k as int);
                    assert(member_views(list@) =~= old_views.remove(k as int)) by {
                        old_views.remove_ensures(k as int);
                    }
                    assert(addrs =~= old_addrs.remove(k as int)) by {
                        old_addrs.remove_ensures(k as int);
                    }
                    old_addrs.remove_ensures(k as int);
                    assert(addrs.no_duplicates()) by {
                        assert forall|a: int, b: int|
                            0 <= a < addrs.len() && 0 <= b < addrs.len() && a != b implies addrs[a]
                            != addrs[b] by {
                            let oa = if a < k { a } else { a + 1 };
                            let ob = if b < k { b } else { b + 1 };
                            assert(addrs[a] == old_addrs[oa]);
                            assert(addrs[b] == old_addrs[ob]);
                        }
                    }
                    assert(addrs.to_set() =~= old_addrs.to_set().remove(addr@)) by {
                        assert forall|x: Seq<char>| addrs.contains(x) <==> (old_addrs.contains(x)
                            && x != addr@) by {
                            if addrs.contains(x) {
                                let a = choose|a: int| 0 <= a < addrs.len() && addrs[a] == x;
                                let oa = if a < k { a } else { a + 1 };
                                assert(old_addrs[oa] == x);
                                assert(oa != k);
                            }
                            if old_addrs.contains(x) && x != addr@ {
                                let a = choose|a: int| 0 <= a < old_addrs.len() && old_addrs[a] == x;
                                assert(a != k);
                                if a < k {
                                    assert(addrs[a] == x);
                                } else {
                                    assert(addrs[a - 1] == x);
                                }
                            }
                        }
                    }
                }
                *self = Members { inner: list, hash };
                Some(member)
            },
            None => None,
        }
    }

    /// The members built by announcing each of `member_list` in turn.
    pub fn init(member_list: Vec<Member>) -> (members: Members)
        ensures
            members@ == collect_members(member_views(member_list@)),
            members.addrs().no_duplicates(),
    {
        let mut members = Members::new();
        let mut i: usize = 0;
        while i < member_list.len()
            invariant
                i <= member_list@.len(),
                members@ == collect_members(member_views(member_list@).take(i as int)),
            decreases member_list@.len() - i,
        {
            let member = member_list[i].clone();
            let _ = members.push(member);
            proof {
                let prefix = member_views(member_list@).take(i + 1);
                assert(prefix.drop_last() =~= member_views(member_list@).take(i as int));
                assert(prefix.last() == member_list@[i as int]@);
            }
            i = i + 1;
        }
        assert(member_views(member_list@).take(member_list@.len() as int) =~= member_views(
            member_list@,
        ));
        proof {
            use_type_invariant(&members);
        }
        members
    }
}

impl Default for Members {
    fn default() -> (members: Members)
        ensures
            members@ == Seq::<MemberView>::empty(),
    {
        Members::new()
    }
}

impl Clone for Members {
    fn clone(&self) -> (copy: Members)
        ensures
            copy@ == self@,
    {
        proof {
            use_type_invariant(self);
        }
        let mut members = Members::new();
        let mut i: usize = 0;
        while i < self.inner.len()
            invariant
                i <= self.inner@.len(),
                addrs_of(member_views(self.inner@)).no_duplicates(),
                members@ == member_views(self.inner@).take(i as int),
            decreases self.inner@.len() - i,
        {
            let member = self.inner[i].clone();
            proof {
                let views = member_views(self.inner@);
                assert(!addrs_of(members@).contains(member@.addr)) by {
                    if addrs_of(members@).contains(member@.addr) {
                        let j = choose|j: int| 0 <= j < members@.len() && addrs_of(members@)[j]
                            == member@.addr;
                        assert(addrs_of(views)[j] == addrs_of(views)[i as int]);
                    }
                }
            }
            let _ = members.push(member);
            assert(members@ =~= member_views(self.inner@).take(i + 1));
            i = i + 1;
        }
        assert(member_views(self.inner@).take(self.inner@.len() as int) =~= member_views(
            self.inner@,
        ));
        members
    }
}

impl Members {
    /// The top `num` members for `key`, highest priority first.
    pub fn lookup_members(&self, key: &str, num: usize) -> (members: Vec<&Member>)
        ensures
            ref_views(members@) == self.lookup_spec(key@, num as int),
            forall|k: int|
                0 <= k < members@.len() ==> (#[trigger] members@[k])@.addr == self.lookup_addrs(
                    key@,
                    num as int,
                )[k],
    {
        proof {
            use_type_invariant(self);
        }
        let candidates = self.hash.calc_top_n_candidates(key, num);
        let ghost code = member_code(key@);
        let ghost addrs = self.addrs();
        proof {
            assert(self.hash.code_for(str_hash_writes(key@)) =~= code);
            lemma_ranking_depends_on_set(self.hash.ids(), addrs, code);
            lemma_candidate_ranking(addrs, code);
            assert(ref_ids_of(candidates@) == self.lookup_addrs(key@, num as int));
        }
        let mut out: Vec<&Member> = Vec::new();
        let mut k: usize = 0;
        while k < candidates.len()
            invariant
                k <= candidates@.len(),
                addrs == self.addrs(),
                ref_ids_of(candidates@) == self.lookup_addrs(key@, num as int),
                candidate_ranking(addrs, code).to_set() == addrs.to_set(),
                code == member_code(key@),
                ref_views(out@) == self.lookup_spec(key@, num as int).take(k as int),
                forall|j: int|
                    0 <= j < out@.len() ==> (#[trigger] out@[j])@.addr == self.lookup_addrs(
                        key@,
                        num as int,
                    )[j],
            decreases candidates@.len() - k,
        {
            let addr = candidates[k].get();
            proof {
                let r = candidate_ranking(addrs, code);
                assert(ref_ids_of(candidates@)[k as int] == addr@);
                let lk = self.lookup_addrs(key@, num as int);
                assert(lk[k as int] == r[k as int]);
                assert(r.to_set().contains(r[k as int]));
                assert(addrs.contains(addr@));
            }
            match self.get(addr.as_str()) {
                Some(member) => {
                    let ghost before = ref_views(out@);
                    out.push(member);
                    assert(ref_views(out@) =~= before.push(member@));
                    assert(ref_views(out@) =~= self.lookup_spec(key@, num as int).take(k + 1));
                },
                None => {
                    assert(false);
                },
            }
            k = k + 1;
        }
        assert(self.lookup_spec(key@, num as int).take(candidates@.len() as int)
            =~= self.lookup_spec(key@, num as int));
        out
    }

    /// The member responsible for `key`: the one of highest priority, or
    /// `None` when there are no members.
    pub fn lookup_member(&self, key: &str) -> (member: Option<&Member>)
        ensures
            match member {
                Some(m) => self@.len() > 0 && m@ == self.lookup_spec(key@, 1)[0],
                None => self@.len() == 0,
            },
    {
        let members = self.lookup_members(key, 1);
        proof {
            use_type_invariant(self);
            lemma_candidate_ranking(self.addrs(), member_code(key@));
        }
        let ghost r = candidate_ranking(self.addrs(), member_code(key@));
        assert(self.addrs().len() == self@.len());
        assert(r.len() == self@.len());
        assert(self.lookup_addrs(key@, 1).len() == ref_views(members@).len());
        if members.len() > 0 {
            assert(ref_views(members@)[0] == members@[0]@);
            Some(members[0])
        } else {
            None
        }
    }

    /// Hands out the members for `key` in turn: each call gives the member at
    /// the current rotation position among the top `num` members for `key`,
    /// and steps the position on, wrapping around those members.
    pub fn rotate_node(&mut self, key: &str, num: usize) -> (member: Option<&Member>)
        requires
            num > 0,
            old(self)@.len() > 0,
        ensures
            final(self)@ == old(self)@,
            final(self).rotation() == (old(self).rotation() + 1) % (old(self).lookup_addrs(
                key@,
                num as int,
            ).len() as int),
            match member {
                Some(m) => {
                    &&& old(self).rotation() < old(self).lookup_addrs(key@, num as int).len()
                    &&& m@ == old(self).lookup_spec(key@, num as int)[old(self).rotation() as int]
                },
                None => old(self).rotation() >= old(self).lookup_addrs(key@, num as int).len(),
            },
    {
        proof {
            use_type_invariant(&*self);
        }
        let ghost code = member_code(key@);
        let ghost addrs = self.addrs();
        proof {
            assert(self.hash.code_for(str_hash_writes(key@)) =~= code);
            lemma_ranking_depends_on_set(self.hash.ids(), addrs, code);
            lemma_candidate_ranking(addrs, code);
            assert(self.hash.ids().len() == addrs.len()) by {
                self.hash.ids().unique_seq_to_set();
                addrs.unique_seq_to_set();
            }
        }
        let mut this = Members::new();
        std::mem::swap(&mut this, self);
        let Members { inner: list, hash: mut hash } = this;
        let picked = match hash.rotate_candidate(key, num) {
            Some(node) => Some(node.get().clone()),
            None => None,
        };
        *self = Members { inner: list, hash };
        match picked {
            Some(addr) => {
                proof {
                    let r = candidate_ranking(addrs, code);
                    assert(r.to_set().contains(r[old(self).rotation() as int]));
                }
                let found = self.get(addr.as_str());
                assert(found is Some);
                found
            },
            None => None,
        }
    }
}

/// Every node computes the same members for a key: the top members depend
/// only on which addresses are members, not on the order in which they
/// joined.
pub proof fn lemma_lookup_depends_on_addr_set(a: Members, b: Members, key: Seq<char>, num: int)
    requires
        a.addrs().no_duplicates(),
        b.addrs().no_duplicates(),
        a.addrs().to_set() == b.addrs().to_set(),
    ensures
        a.lookup_addrs(key, num) == b.lookup_addrs(key, num),
{
    lemma_ranking_depends_on_set(a.addrs(), b.addrs(), member_code(key));
}

/// The top `num` members for a key are distinct members, and there are as
/// many of them as `num`, or as there are members when they are fewer.
pub proof fn lemma_lookup_is_distinct_members(members: Members, key: Seq<char>, num: int)
    requires
        members.addrs().no_duplicates(),
        num >= 0,
    ensures
        members.lookup_addrs(key, num).no_duplicates(),
        members.lookup_addrs(key, num).len() == if num < members@.len() {
            num
        } else {
            members@.len() as int
        },
        forall|addr: Seq<char>|
            #[trigger] members.lookup_addrs(key, num).contains(addr) ==> members.addrs().contains(
                addr,
            ),
{
    let r = candidate_ranking(members.addrs(), member_code(key));
    lemma_candidate_ranking(members.addrs(), member_code(key));
    lemma_ranked_no_duplicates(r, member_code(key));
    let l = members.lookup_addrs(key, num);
    assert forall|addr: Seq<char>| #[trigger] l.contains(addr) implies members.addrs().contains(
        addr,
    ) by {
        let j = choose|j: int| 0 <= j < l.len() && l[j] == addr;
        assert(r[j] == addr);
        assert(r.to_set().contains(addr));
    }
}

/// When a member leaves, it is no longer found, and the ranking of the
/// others for every key keeps its order: the members that served a key keep
/// serving it, in the same order, and only the leaver is skipped.
pub proof fn lemma_member_removal_keeps_order(
    before: Members,
    after: Members,
    addr: Seq<char>,
    key: Seq<char>,
)
    requires
        before.addrs().no_duplicates(),
        before.addrs().contains(addr),
        after@ == before@.remove(position_of_addr(before@, addr)),
    ensures
        !after.addrs().contains(addr),
        candidate_ranking(after.addrs(), member_code(key)) == leave_out(
            candidate_ranking(before.addrs(), member_code(key)),
            addr,
        ),
{
    let k = position_of_addr(before@, addr);
    let j = choose|j: int| 0 <= j < before.addrs().len() && before.addrs()[j] == addr;
    assert(before@[j].addr == addr);
    lemma_position_of_addr(before@, addr, j);
    let old_addrs = before.addrs();
    let addrs = after.addrs();
    assert(addrs =~= old_addrs.remove(k));
    old_addrs.remove_ensures(k);
    assert(addrs.no_duplicates()) by {
        assert forall|a: int, b: int| 0 <= a < addrs.len() && 0 <= b < addrs.len() && a != b implies addrs[a]
            != addrs[b] by {
            let oa = if a < k { a } else { a + 1 };
            let ob = if b < k { b } else { b + 1 };
            assert(addrs[a] == old_addrs[oa]);
            assert(addrs[b] == old_addrs[ob]);
        }
    }
    assert(addrs.to_set() =~= old_addrs.to_set().remove(addr)) by {
        assert forall|x: Seq<char>| addrs.contains(x) <==> (old_addrs.contains(x) && x != addr) by {
            if addrs.contains(x) {
                let a = choose|a: int| 0 <= a < addrs.len() && addrs[a] == x;
                let oa = if a < k { a } else { a + 1 };
                assert(old_addrs[oa] == x);
                assert(oa != k);
            }
            if old_addrs.contains(x) && x != addr {
                let a = choose|a: int| 0 <= a < old_addrs.len() && old_addrs[a] == x;
                assert(a != k);
                if a < k {
                    assert(addrs[a] == x);
                } else {
                    assert(addrs[a - 1] == x);
                }
            }
        }
    }
    assert(!addrs.to_set().contains(addr));
    lemma_removal_keeps_relative_order(old_addrs, addrs, addr, member_code(key));
}

} // verus!
