use vstd::prelude::*;

use super::metadata::{clone_metadata, metadata_view, Metadata, MetadataView};
use crate::clock::now_unix_timestamp;

verus! {

/// A member of the cluster: the textual address of its gossip endpoint, what
/// it announces of itself, and the time at which this identity was made.
#[derive(Debug)]
pub struct Member {
    pub addr: String,
    pub metadata: Option<Metadata>,
    pub version: i64,
}

/// A member as the proofs see it.
pub struct MemberView {
    pub addr: Seq<char>,
    pub metadata: Option<MetadataView>,
    pub version: i64,
}

impl View for Member {
    type V = MemberView;

    open spec fn view(&self) -> MemberView {
        MemberView { addr: self.addr@, metadata: metadata_view(self.metadata), version: self.version }
    }
}

impl Member {
    /// A member at `addr` that announces nothing, stamped with the current
    /// time.
    pub fn new(addr: String) -> (member: Member)
        ensures
            member@.addr == addr@,
            member@.metadata is None,
    {
        Member { addr, metadata: None, version: now_unix_timestamp() }
    }

    /// A member at `addr` that announces `metadata`, stamped with the current
    /// time.
    pub fn new_with_metadata(addr: String, metadata: Metadata) -> (member: Member)
        ensures
            member@.addr == addr@,
            member@.metadata == Some(metadata@),
    {
        Member { addr, metadata: Some(metadata), version: now_unix_timestamp() }
    }

    /// Whether `other` is the same endpoint, whatever its version: a peer that
    /// knows only the address can join through it.
    pub fn has_same_prefix(&self, other: &Member) -> (same: bool)
        ensures
            same == (self@.addr == other@.addr),
    {
        self.addr == other.addr
    }

    /// A fresh identity for this member: the same address and metadata,
    /// stamped with the current time.  Renewal always succeeds.
    pub fn renew(&self) -> (renewed: Option<Member>)
        ensures
            renewed matches Some(m) && m@.addr == self@.addr && m@.metadata == self@.metadata,
    {
        Some(
            Member {
                addr: self.addr.clone(),
                metadata: clone_metadata(&self.metadata),
                version: now_unix_timestamp(),
            },
        )
    }
}

impl Clone for Member {
    fn clone(&self) -> (copy: Member)
        ensures
            copy@ == self@,
    {
        Member {
            addr: self.addr.clone(),
            metadata: clone_metadata(&self.metadata),
            version: self.version,
        }
    }
}

} // verus!
