//! Core of a small networked key-value store.
//!
//! The store itself is a linearizable map from text keys to opaque byte
//! values; a server drives one connection loop per inbound connection, all
//! loops sharing one store under mutual exclusion. On the client side, many
//! independent producers funnel typed commands through a bounded FIFO queue
//! to a single multiplexer worker that owns the one outbound connection and
//! routes each reply back through the producer's private single-use reply
//! slot.
//!
//! Everything here is the decision logic of those components, stated and
//! proved over mathematical models. The wire framing, command parsing and
//! the transport itself are outside collaborators: the surrounding binary
//! reads and writes fully framed units and hands this crate plain values.

pub mod mux;
pub mod protocol;
pub mod server;
pub mod store;
