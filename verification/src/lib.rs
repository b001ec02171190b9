//! Observation pipeline for a running platform-game process: revision
//! descriptors giving the byte layout of the game's state struct, a decoder
//! from raw bytes to snapshots, a state machine turning successive snapshots
//! into milestone events, and the text protocol in which those events are
//! delivered to timing clients.

pub mod protocol;
pub mod revision;
pub mod snapshot;
pub mod tracker;
pub mod text;
