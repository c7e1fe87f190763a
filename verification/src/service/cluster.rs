use vstd::prelude::*;

use crate::cluster::member::{Member, MemberView};
use crate::cluster::members::{member_views, Members};
use crate::cluster::membership::remote_members;
use crate::cluster::metadata::{Metadata, MetadataView};

verus! {

/// The addresses that a node of the cluster listing announces; an address
/// that the member does not announce is listed as the empty text.
#[derive(Debug)]
pub struct NodeMetadata {
    pub grpc_address: String,
    pub http_address: String,
}

/// One node of the cluster listing: its gossip address and, when it announces
/// any, its metadata.
#[derive(Debug)]
pub struct NodeEntry {
    pub address: String,
    pub metadata: Option<NodeMetadata>,
}

/// A listed node as the proofs see it: its address, and the gRPC and HTTP
/// addresses that it announces.
pub struct NodeEntryView {
    pub address: Seq<char>,
    pub metadata: Option<(Seq<char>, Seq<char>)>,
}

impl View for NodeEntry {
    type V = NodeEntryView;

    open spec fn view(&self) -> NodeEntryView {
        NodeEntryView {
            address: self.address@,
            metadata: match self.metadata {
                Some(m) => Some((m.grpc_address@, m.http_address@)),
                None => None,
            },
        }
    }
}

/// An optional address as listed: its text, or the empty text.
pub open spec fn listed_address(address: Option<Seq<char>>) -> Seq<char> {
    match address {
        Some(text) => text,
        None => Seq::empty(),
    }
}

/// How a member is listed.
pub open spec fn entry_of(member: MemberView) -> NodeEntryView {
    NodeEntryView {
        address: member.addr,
        metadata: match member.metadata {
            Some(m) => Some((listed_address(m.grpc_address), listed_address(m.http_address))),
            None => None,
        },
    }
}

/// The views of a sequence of listed nodes.
pub open spec fn entry_views(entries: Seq<NodeEntry>) -> Seq<NodeEntryView> {
    entries.map_values(|e: NodeEntry| e@)
}

fn listed_text(address: &Option<String>) -> (text: String)
    ensures
        text@ == listed_address(match address {
            Some(a) => Some(a@),
            None => None,
        }),
{
    match address {
        Some(a) => a.clone(),
        None => String::new(),
    }
}

fn listed_metadata(metadata: &Metadata) -> (listed: NodeMetadata)
    ensures
        listed.grpc_address@ == listed_address(metadata@.grpc_address),
        listed.http_address@ == listed_address(metadata@.http_address),
{
    NodeMetadata {
        grpc_address: listed_text(&metadata.grpc_address),
        http_address: listed_text(&metadata.http_address),
    }
}

/// How `member` is listed: its address, and its announced addresses where it
/// announces metadata.
pub fn node_entry(member: &Member) -> (entry: NodeEntry)
    ensures
        entry@ == entry_of(member@),
{
    let metadata = match &member.metadata {
        Some(m) => Some(listed_metadata(m)),
        None => None,
    };
    NodeEntry { address: member.addr.clone(), metadata }
}

/// The nodes of the cluster as the local node sees them: the local member
/// first, then every other known member in the order in which they are kept.
pub fn get_nodes(local: &Member, members: &Members) -> (nodes: Vec<NodeEntry>)
    ensures
        entry_views(nodes@) == seq![entry_of(local@)] + members@.filter(
            |m: MemberView| m != local@,
        ).map_values(|m: MemberView| entry_of(m)),
{
    let remote = remote_members(members, local);
    let mut nodes: Vec<NodeEntry> = Vec::new();
    nodes.push(node_entry(local));
    let mut i: usize = 0;
    while i < remote.len()
        invariant
            i <= remote@.len(),
            entry_views(nodes@) == seq![entry_of(local@)] + member_views(remote@).take(
                i as int,
            ).map_values(|m: MemberView| entry_of(m)),
        decreases remote@.len() - i,
    {
        let ghost before = entry_views(nodes@);
        let ghost done = member_views(remote@).take(i as int);
        let entry = node_entry(&remote[i]);
        nodes.push(entry);
        proof {
            assert(entry_views(nodes@) =~= before.push(entry_of(remote@[i as int]@)));
            assert(member_views(remote@).take(i + 1) =~= done.push(remote@[i as int]@));
            assert(done.push(remote@[i as int]@).map_values(|m: MemberView| entry_of(m))
                =~= done.map_values(|m: MemberView| entry_of(m)).push(entry_of(remote@[i as int]@)));
        }
        i = i + 1;
    }
    assert(member_views(remote@).take(remote@.len() as int) =~= member_views(remote@));
    nodes
}

} // verus!
