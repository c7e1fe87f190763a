//! Verified core of a distributed full-text search server: rendezvous
//! hashing of shards and members, the cluster message wire format, index
//! metadata bookkeeping, search request arguments and the error types shared
//! by the server.

pub mod client;
pub mod clock;
pub mod cluster;
pub mod error;
pub mod index;
pub mod json;
pub mod node;
pub mod proto;
pub mod rendezvous;
pub mod search;
pub mod service;
pub mod text;
