use vstd::prelude::*;

use crate::text::str_eq;

verus! {

/// What a member announces of itself: the addresses of its gRPC and HTTP
/// servers, each in its textual `host:port` form.
#[derive(Debug)]
pub struct Metadata {
    pub grpc_address: Option<String>,
    pub http_address: Option<String>,
}

/// The addresses that a `Metadata` announces, as text.
pub struct MetadataView {
    pub grpc_address: Option<Seq<char>>,
    pub http_address: Option<Seq<char>>,
}

/// The text of an optional address.
pub open spec fn address_view(address: Option<String>) -> Option<Seq<char>> {
    match address {
        Some(text) => Some(text@),
        None => None,
    }
}

impl View for Metadata {
    type V = MetadataView;

    open spec fn view(&self) -> MetadataView {
        MetadataView {
            grpc_address: address_view(self.grpc_address),
            http_address: address_view(self.http_address),
        }
    }
}

/// The view of an optional `Metadata`.
pub open spec fn metadata_view(metadata: Option<Metadata>) -> Option<MetadataView> {
    match metadata {
        Some(m) => Some(m@),
        None => None,
    }
}

fn clone_address(address: &Option<String>) -> (copy: Option<String>)
    ensures
        address_view(copy) == address_view(*address),
{
    match address {
        Some(text) => Some(text.clone()),
        None => None,
    }
}

fn same_address(a: &Option<String>, b: &Option<String>) -> (same: bool)
    ensures
        same == (address_view(*a) == address_view(*b)),
{
    match (a, b) {
        (Some(x), Some(y)) => str_eq(x.as_str(), y.as_str()),
        (None, None) => true,
        _ => false,
    }
}

impl Metadata {
    /// Metadata that announces `grpc_address` and `http_address`.
    pub fn new(grpc_address: Option<String>, http_address: Option<String>) -> (metadata: Metadata)
        ensures
            metadata.grpc_address == grpc_address,
            metadata.http_address == http_address,
    {
        Metadata { grpc_address, http_address }
    }
}

impl Clone for Metadata {
    fn clone(&self) -> (copy: Metadata)
        ensures
            copy@ == self@,
    {
        Metadata {
            grpc_address: clone_address(&self.grpc_address),
            http_address: clone_address(&self.http_address),
        }
    }
}

impl Default for Metadata {
    fn default() -> (metadata: Metadata)
        ensures
            metadata.grpc_address is None,
            metadata.http_address is None,
    {
        Metadata { grpc_address: None, http_address: None }
    }
}

/// A copy of an optional `Metadata`.
pub fn clone_metadata(metadata: &Option<Metadata>) -> (copy: Option<Metadata>)
    ensures
        metadata_view(copy) == metadata_view(*metadata),
{
    match metadata {
        Some(m) => Some(m.clone()),
        None => None,
    }
}

/// Whether two optional `Metadata` announce the same addresses.
pub fn same_metadata(a: &Option<Metadata>, b: &Option<Metadata>) -> (same: bool)
    ensures
        same == (metadata_view(*a) == metadata_view(*b)),
{
    match (a, b) {
        (Some(x), Some(y)) => {
            let same_grpc = same_address(&x.grpc_address, &y.grpc_address);
            let same_http = same_address(&x.http_address, &y.http_address);
            same_grpc && same_http
        },
        (None, None) => true,
        _ => false,
    }
}

} // verus!
