//! Allocation profiling and Linux memory telemetry for Rust services: the
//! verified core.
//!
//! The global allocator wrapper's decisions and records ([`tracker`],
//! [`profile`], [`sampler`]), the pprof profile model ([`pprof`]), stack
//! capture ([`trace`]), environment configuration ([`env`]), allocator
//! identity and statistics ([`allocator`]) and the Linux memory views
//! ([`stats`]) live here; reading the operating system and encoding the
//! output is left to the embedding program.
pub mod allocator;
pub mod env;
pub mod pprof;
pub mod profile;
pub mod proto;
pub mod sampler;
pub mod stats;
pub mod text;
pub mod trace;
pub mod tracker;

pub use crate::env::{Allocator, ALLOCATOR_ENV, PPROF_BACKEND_ENV, PPROF_SAMPLE_RATE_ENV};
pub use crate::sampler::DEFAULT_PPROF_SAMPLE_RATE;
pub use crate::trace::{capture_mode, CaptureMode};
pub use crate::tracker::{
    allocation_stats, configure, configure_with_default, generate_jemalloc_pprof, pprof_summary,
    snapshot, MemorySnapshot, PprofAlloc, PprofSummary, TrackingState,
};
