//! Relay network traffic into per-process service procedures.
//!
//! This library holds the verified core of a door-style relay daemon: the
//! round-robin worker selection policy, the configuration grammar, the call
//! frame and descriptor bookkeeping of the RPC transport, the privilege-drop
//! state machine of a connected fork, and the per-identity backend cache.
//! Everything that must touch the kernel (sockets, doors, fork, setuid) lives
//! outside this crate and consumes the decisions made here.

pub mod addr;
pub mod config;
pub mod counter;
pub mod descriptor;
pub mod door;
pub mod fork;
pub mod plan;
pub mod relay;
pub mod relay_plan;
pub mod server_procedure;
pub mod text;
