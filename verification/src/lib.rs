//! Core of a real-time message router: a registry hub that owns session and
//! room state, a per-connection session state machine, the wire-level message
//! envelope, and the token helpers of the boundary layer.
//!
//! The hub and the session are modelled as pure state machines: every routing
//! decision is a function from state and event to the next state and the
//! actions to perform (frames to reply, intents to forward, deliveries to
//! enqueue).  The transport, the actor mailboxes and the timers that drive
//! these machines live outside the library and only carry plain values in and
//! out.

pub mod api;
pub mod db;
pub mod model;
pub mod route;
pub mod server;
pub mod token;
