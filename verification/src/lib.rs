//! Liveness tracking for a bounded set of registered masternodes.
//!
//! A masternode is a peer that has registered with the [`registry`]. Each
//! validating node reports, in a signed heartbeat, the registered peers it is
//! connected to; a peer whose last heartbeat is too old counts as off line.
//!
//! - [`status`] derives a node's status from the age of its last heartbeat.
//! - [`registry`] holds the registered peers, their records and the heartbeat
//!   schedule, and carries out the commands and queries.
//! - [`scheduler`] decides at each height whether a node sends a heartbeat,
//!   and composes the claim.
//! - [`heartbeat`] defines the claim and the rule by which it is admitted.
//! - [`discovery`] prepares the peer query and reads its answer.
//! - [`rpc`] completes the queries served to RPC clients.
//! - [`peer_map`] and [`bytes`] keep peers in ascending order of identity.
//! - [`base58`] names peers as the RPC endpoint does.
//! - [`laws`] states what holds of the registry in every state.

pub mod base58;
pub mod bytes;
pub mod discovery;
pub mod heartbeat;
pub mod laws;
pub mod peer_map;
pub mod registry;
pub mod rpc;
pub mod scheduler;
pub mod status;
