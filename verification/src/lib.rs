//! Session engine for a text-based game service reached over a framed
//! real-time transport: wire-frame codec, liveness supervision, and a
//! trigger engine that matches prompts in a rolling output buffer and
//! decides which scripted command to send next.
pub mod text;
pub mod buffer;
pub mod outcome;
pub mod select;
pub mod engine;
pub mod supervisor;
pub mod frames;
pub mod json;
pub mod driver;
pub mod laws;
