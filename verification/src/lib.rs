//! Core logic of a screen-lock handling daemon: it watches screensaver
//! lock/unlock signals on the session bus, starts a named system unit on
//! each transition, mutes every unmuted audio output device on lock, and
//! restores exactly those devices on unlock.
//!
//! This crate holds the verified decision core: the device model, the
//! per-signal dispatch rules, and the trace semantics that the daemon's
//! guarantees are stated over. The surrounding process (bus connection,
//! signal streams, the audio server) performs the effects that this core
//! decides on.

pub mod coordinator;
pub mod devices;
pub mod multiplexer;
pub mod trace;
pub mod units;
