//! Server-side state replication: a binary wire codec, delta compression,
//! message batching, remote-call dispatch, dirty-bit replication and
//! snapshot interpolation.
pub mod le;
pub mod varint;
pub mod writer;
pub mod reader;
pub mod stable_hash;
pub mod delta;
pub mod batcher;
pub mod ema;
pub mod snapshot;
pub mod behaviour;
pub mod identity;
pub mod rpc;
pub mod messages;
pub mod network_messages;
pub mod components;
pub mod network_loop;
pub mod connection;
pub mod transform;
