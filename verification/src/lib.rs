//! Core of a desktop video-trimming tool's backend: it builds the command
//! line for an external transcoder, parses the transcoder's line-oriented
//! progress stream, keeps a registry of live render tasks so that a caller
//! can cancel one mid-flight, and drives each task through a small state
//! machine from start to exactly one terminal outcome.
//!
//! Process spawning, the async read loop and the UI event channel live in
//! the surrounding application; everything here is ordinary data and logic,
//! verified against the contracts below.

pub mod command;
pub mod listing;
pub mod progress;
pub mod protocol;
pub mod registry;
pub mod request;
pub mod runner;
pub mod text;
