//! Keeps per-agent instruction files in sync with a YAML-backed registry of
//! codebases. The verified core models the daemon runtime: debounced file
//! watching, a single-consumer sync processor, the line-delimited socket
//! protocol, and size-based log rotation.

pub mod debounce;
pub mod detector;
pub mod diff;
pub mod launchd;
pub mod paths;
pub mod protocol;
pub mod renderer;
pub mod report;
pub mod rotation;
pub mod runtime;
pub mod staleness;
pub mod strmap;
pub mod strutil;
pub mod sync;
pub mod types;
pub mod watcher;
