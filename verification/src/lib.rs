//! Container run orchestration and correlation-scoped log demultiplexing.
//!
//! The library models one registration's lifecycle: building a container
//! spec with an injected correlation key, the pull-on-miss run sequence,
//! and the per-subscriber filtering of the container's log stream.

pub mod api;
pub mod demux;
pub mod register;
pub mod run;
pub mod text;

pub use api::Health;
