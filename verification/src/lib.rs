//! Core of a personal music synchronization service.
//!
//! The library models and verifies the reconciliation pipeline that drives
//! each remote playlist item from "discovered" through "audio acquired",
//! "metadata resolved", "library-categorized" and "mirrored": the persistent
//! state model, the per-item state machine, the metadata-resolver query
//! planning, the rate-limiter arithmetic, the semantic audio-tag model and
//! the library path handling. I/O (HTTP, subprocesses, the on-disk database
//! engine and the audio containers themselves) stays outside; the library
//! takes and returns plain values.

pub mod auth;
pub mod brainz;
pub mod config;
pub mod jellyfin;
pub mod limiter;
pub mod minicli;
pub mod models;
pub mod musicfiles;
pub mod scheduler;
pub mod store;
pub mod tags;
pub mod text;
pub mod yt_api;
pub mod ytdlp;
pub mod time;
