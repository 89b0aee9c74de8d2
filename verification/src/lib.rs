//! Core protocol engine of a simulated packet-switched overlay network of
//! "drone" nodes: source-routed forwarding with reverse-path error
//! construction, a loop-safe topology-flooding algorithm, and a command-driven
//! lifecycle state machine.  All node-local logic is verified; channel I/O and
//! the actor loop live outside this crate and drive it through the returned
//! action lists.

pub mod drone;
pub mod laws;
pub mod packet;
