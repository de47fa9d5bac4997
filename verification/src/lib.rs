//! Flooding-style gossip propagation over a random peer graph.
//!
//! The crate holds the decisions of the simulation: how a topology is drawn,
//! how a node reacts to an inbound packet, how the harness counts delivery
//! reports, how packets are framed on the wire and how the measurements are
//! summarised. Channels, tasks and timers live with the caller.
pub mod config;
pub mod network;
pub mod sampling;
pub mod order;
pub mod packet;
pub mod node;
pub mod stats;
pub mod plot;
pub mod propagation;
