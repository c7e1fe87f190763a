use vstd::prelude::*;

use super::member::{Member, MemberView};
use super::members::{add_member, addrs_of, changes_members, member_views, position_of_addr, Members};
use super::metadata::same_metadata;
use crate::error::{display_error, error_display, push_context, texts};

verus! {

/// The ways in which keeping track of cluster membership can fail.
#[derive(Clone, Copy, Debug, PartialEq, Eq, Structural)]
pub enum MembershipErrorKind {
    SocketBindingFailure,
    MembersSerializationFailure,
    BroadcastFailure,
    FileWriteFailure,
}

/// The name of `kind`, as a debug print of it reads.
pub open spec fn membership_error_kind_name(kind: MembershipErrorKind) -> Seq<char> {
    match kind {
        MembershipErrorKind::SocketBindingFailure => "SocketBindingFailure"@,
        MembershipErrorKind::MembersSerializationFailure => "MembersSerializationFailure"@,
        MembershipErrorKind::BroadcastFailure => "BroadcastFailure"@,
        MembershipErrorKind::FileWriteFailure => "FileWriteFailure"@,
    }
}

impl MembershipErrorKind {
    /// The name of this kind.
    pub fn name(&self) -> (name: &'static str)
        ensures
            name@ == membership_error_kind_name(*self),
    {
        match self {
            MembershipErrorKind::SocketBindingFailure => "SocketBindingFailure",
            MembershipErrorKind::MembersSerializationFailure => "MembersSerializationFailure",
            MembershipErrorKind::BroadcastFailure => "BroadcastFailure",
            MembershipErrorKind::FileWriteFailure => "FileWriteFailure",
        }
    }

    /// An error of this kind, described by `source`.
    pub fn with_error(self, source: String) -> (error: MembershipError)
        ensures
            error.kind() == self,
            error.description() == source@,
            error.causes() == Seq::<Seq<char>>::empty(),
    {
        MembershipError { kind: self, source, causes: Vec::new() }
    }
}

/// An error met while keeping track of cluster membership.
#[derive(Debug)]
pub struct MembershipError {
    pub kind: MembershipErrorKind,
    source: String,
    causes: Vec<String>,
}

impl MembershipError {
    /// What the error says: the context attached last, or the text it was
    /// made with.
    pub closed spec fn description(&self) -> Seq<char> {
        self.source@
    }

    /// What the error said before each context was attached, the most recent
    /// first: the chain of sources behind the description.
    pub closed spec fn causes(&self) -> Seq<Seq<char>> {
        texts(self.causes@)
    }

    /// The kind of this error, as the proofs see it.
    pub closed spec fn spec_kind(&self) -> MembershipErrorKind {
        self.kind
    }

    /// The same error with the context `ctx`: `ctx` becomes its description,
    /// and what it said before heads its causes.
    pub fn add_context(self, ctx: &str) -> (error: MembershipError)
        ensures
            error.kind() == self.kind(),
            error.description() == ctx@,
            error.causes() == seq![self.description()] + self.causes(),
    {
        let (source, causes) = push_context(ctx, self.source, self.causes);
        MembershipError { kind: self.kind, source, causes }
    }

    /// The kind of this error.
    #[verifier::when_used_as_spec(spec_kind)]
    pub fn kind(&self) -> (kind: MembershipErrorKind)
        ensures
            kind == self.spec_kind(),
    {
        self.kind
    }

    /// The description of this error.
    pub fn source_text(&self) -> (text: &str)
        ensures
            text@ == self.description(),
    {
        self.source.as_str()
    }

    /// The text that the error prints: its type, its kind and its
    /// description.
    pub fn message(&self) -> (text: String)
        ensures
            text@ == error_display("MembershipError"@, membership_error_kind_name(self.kind()), self.description()),
    {
        display_error("MembershipError", self.kind.name(), self.source.as_str())
    }

    /// The causes of this error, the most recent first.
    pub fn cause_texts(&self) -> (causes: &[String])
        ensures
            texts(causes@) == self.causes(),
    {
        self.causes.as_slice()
    }
}

/// What the failure detector reports about the cluster.
pub enum MembershipEvent {
    /// `0` became reachable, or announced new metadata.
    MemberUp(Member),
    /// `0` became unreachable.
    MemberDown(Member),
    /// Anything that does not change who is a member.
    Other,
}

/// `members` without the member at `addr`, if there is one.
pub open spec fn remove_member(members: Seq<MemberView>, addr: Seq<char>) -> Seq<MemberView> {
    if addrs_of(members).contains(addr) {
        members.remove(position_of_addr(members, addr))
    } else {
        members
    }
}

/// `members` after `event`.
pub open spec fn apply_event(members: Seq<MemberView>, event: MembershipEvent) -> Seq<MemberView> {
    match event {
        MembershipEvent::MemberUp(m) => add_member(members, m@),
        MembershipEvent::MemberDown(m) => remove_member(members, m@.addr),
        MembershipEvent::Other => members,
    }
}

/// Whether `event` changes `members`.
pub open spec fn event_changes(members: Seq<MemberView>, event: MembershipEvent) -> bool {
    match event {
        MembershipEvent::MemberUp(m) => changes_members(members, m@),
        MembershipEvent::MemberDown(m) => addrs_of(members).contains(m@.addr),
        MembershipEvent::Other => false,
    }
}

/// `members` after the events of `events`, taken from the last to the first.
pub open spec fn apply_events(members: Seq<MemberView>, events: Seq<MembershipEvent>) -> Seq<
    MemberView,
>
    decreases events.len(),
{
    if events.len() == 0 {
        members
    } else {
        apply_events(apply_event(members, events.last()), events.drop_last())
    }
}

/// Whether any of `events`, taken from the last to the first, changes the
/// members.
pub open spec fn events_change(members: Seq<MemberView>, events: Seq<MembershipEvent>) -> bool
    decreases events.len(),
{
    if events.len() == 0 {
        false
    } else {
        event_changes(members, events.last()) || events_change(
            apply_event(members, events.last()),
            events.drop_last(),
        )
    }
}

/// Applies the reported `events` to `members`, the most recent report
/// first, and tells whether the members changed, in which case they are
/// saved and announced.
pub fn apply_events_to(members: &mut Members, events: Vec<MembershipEvent>) -> (changed: bool)
    ensures
        final(members)@ == apply_events(old(members)@, events@),
        changed == events_change(old(members)@, events@),
{
    let mut events = events;
    let mut changed = false;
    let ghost original = events@;
    while events.len() > 0
        invariant
            apply_events(members@, events@) == apply_events(old(members)@, original),
            (changed || events_change(members@, events@)) == events_change(
                old(members)@,
                original,
            ),
        decreases events@.len(),
    {
        let ghost before = members@;
        let ghost rest = events@;
        let event = events.pop().unwrap();
        assert(event == rest.last());
        assert(events@ == rest.drop_last());
        match event {
            MembershipEvent::MemberUp(member) => {
                let pushed = members.push(member);
                changed = changed || pushed.is_some();
            },
            MembershipEvent::MemberDown(member) => {
                let removed = members.remove(member.addr.as_str());
                changed = changed || removed.is_some();
            },
            MembershipEvent::Other => {},
        }
    }
    changed
}

fn same_member(a: &Member, b: &Member) -> (same: bool)
    ensures
        same == (a@ == b@),
{
    a.addr == b.addr && same_metadata(&a.metadata, &b.metadata) && a.version == b.version
}

/// Every member but `local`, in the order in which they joined.
pub fn remote_members(members: &Members, local: &Member) -> (remote: Vec<Member>)
    ensures
        member_views(remote@) == members@.filter(|m: MemberView| m != local@),
{
    let all = members.iter();
    let ghost pred = |m: MemberView| m != local@;
    let mut remote: Vec<Member> = Vec::new();
    let mut i: usize = 0;
    while i < all.len()
        invariant
            i <= all@.len(),
            member_views(all@) == members@,
            pred == (|m: MemberView| m != local@),
            member_views(remote@) == member_views(all@).take(i as int).filter(pred),
        decreases all@.len() - i,
    {
        let member = &all[i];
        let ghost before = member_views(remote@);
        proof {
            assert(member_views(all@).take(i + 1) =~= member_views(all@).take(i as int).push(
                member@,
            ));
            member_views(all@).take(i as int).lemma_filter_push(member@, pred);
        }
        if !same_member(member, local) {
            let copy = member.clone();
            remote.push(copy);
            assert(member_views(remote@) =~= before.push(member@));
        }
        i = i + 1;
    }
    assert(member_views(all@).take(all@.len() as int) =~= member_views(all@));
    remote
}

/// When no event is reported to change the members, they are as they were:
/// skipping the save and the announcement then loses nothing.
pub proof fn lemma_unchanged_unless_reported(members: Seq<MemberView>, events: Seq<MembershipEvent>)
    requires
        !events_change(members, events),
    ensures
        apply_events(members, events) == members,
    decreases events.len(),
{
    if events.len() > 0 {
        let e = events.last();
        assert(apply_event(members, e) == members) by {
            match e {
                MembershipEvent::MemberUp(m) => {},
                MembershipEvent::MemberDown(m) => {},
                MembershipEvent::Other => {},
            }
        }
        lemma_unchanged_unless_reported(members, events.drop_last());
    }
}

} // verus!
