//! Replicated state-machine nodes for a line-delimited JSON message transport:
//! echo, unique ids, gossip broadcast, a grow-only counter, a transactional
//! key-value store and per-key append-only logs.
//!
//! Every protocol is a pair of a node state and a message body type. The body
//! turns an inbound message into an optional reply while updating the state
//! (`Reply`), and the node reacts to inbound messages and periodic ticks by
//! returning the envelopes to send (`Node`). Reading and writing the transport
//! is left to the caller.

pub mod keyed;
pub mod intset;
pub mod node;
pub mod init;
pub mod echo;
pub mod generate_id;
pub mod kafka;
pub mod broadcast;
pub mod grow_counter;
pub mod kv_store;
pub mod body;
