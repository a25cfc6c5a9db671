//! Signalling core of a WebRTC rendezvous server: the registry of rooms and
//! peers, the rules by which an inbound message changes it, and the messages
//! that go out in answer. Sockets, clocks and the metrics exporter stay with
//! the caller, which hands in plain values and carries out the returned effects.

pub mod config;
pub mod effect;
pub mod error;
pub mod handler;
pub mod laws;
pub mod metrics;
pub mod peer;
pub mod registry;
pub mod room;
pub mod session;
pub mod signaller_message;
pub mod state;
pub mod twilio_helper;
