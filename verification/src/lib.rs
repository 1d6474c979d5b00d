//! Core logic of a terminal dashboard for a Prometheus-compatible metrics
//! backend: expression expansion, peak-preserving downsampling, a query
//! cache with in-flight deduplication and retry policy, the time-window
//! controller, and the interaction state machine. Terminal rendering and
//! all I/O live outside this crate.

pub mod dashboard;
pub mod engine;
pub mod expand;
pub mod input;
pub mod panel;
pub mod sample;
pub mod state;
pub mod text;
