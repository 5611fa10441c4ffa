//! Coordination substrate for a voice-enabled chat client.
//!
//! Long-running operations (audio playback, audio capture, streamed chat
//! completions) run on execution contexts that cannot be preempted, so this
//! library provides the cooperative machinery that supervises them: a
//! generation-based supersession guard per resource class, a cancellation
//! marker for recording sessions, a telemetry cell read by a polling
//! observer, a duty-cycle coordinator for an audible progress cue, an
//! incremental frame splitter for blank-line-delimited event streams, and a
//! per-request event buffer with an atomic drain.
//!
//! The embedding program owns the devices, sockets and threads; it calls in
//! here for every decision, so the decisions are verified while the I/O
//! around them stays ordinary Rust.

pub mod beep;
pub mod chat;
pub mod errors;
pub mod events;
pub mod generation;
pub mod playback;
pub mod recording;
pub mod sse;
pub mod telemetry;
pub mod tokens;
