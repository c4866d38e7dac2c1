//! Storage and remote-resource backends for a module-bundling pipeline.
//!
//! The library models the pipeline's I/O layer: an in-memory filesystem for
//! hermetic, deterministic builds, a marker handle for the real-disk backend,
//! the shaping of remote-fetch responses, and the resolver that derives a
//! persistent cache directory and lockfile from a working directory and a
//! package-manager mode.

pub mod cache;
pub mod errors;
pub mod http;
pub mod memory_fs;
pub mod paths;
pub mod system_fs;
