//! Rendezvous-mediated NAT hole punching: wire protocol, rendezvous server
//! logic, and the two peer-agent choreographies, with verified contracts.
//!
//! The networking itself (UDP/TCP sockets, timers) lives outside this crate;
//! here stand the decisions: how bytes are encoded and decoded, how the
//! server's registration table and single-slot punch session evolve, and
//! which action each agent takes on each event.

pub mod addr;
pub mod agent;
pub mod codec;
pub mod hybrid;
pub mod server;
pub mod simple;

pub use addr::{IpAddress, SockAddr};
