//! Decision logic of a single-device audio server: the session orchestrator
//! that owns at most one playback and one recording pipeline, the auto-stop
//! timer of a recording, the monitor of a pipeline's bus, and the chunked
//! file-transfer protocol.
//!
//! Everything here is pure: each function maps plain values to plain values
//! and leaves pipelines, clocks, files and sockets to its caller.

pub mod ack;
pub mod bus;
pub mod command;
pub mod download;
pub mod message;
pub mod pipeline;
pub mod session;
pub mod store;
pub mod text;
pub mod timer;
pub mod upload;
pub mod world;
