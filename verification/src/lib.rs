//! A trusted-acquisition pipeline for remote git repositories.
//!
//! The library covers the security core of the tool: the staged,
//! sandbox-isolated fetch/checkout protocol, the checksum engine that
//! produces and verifies a deterministic per-repository integrity
//! fingerprint, and the trust-decision policy that maps a trust mode,
//! checksum availability and scan results onto prompt/abort/continue
//! actions.  File, process and network I/O live outside the library and
//! hand it plain values.

pub mod bytes;
pub mod checksum;
pub mod config;
pub mod pipeline;
pub mod policy;
pub mod resolve;
pub mod sandbox;
pub mod scan;
pub mod search;
pub mod suggest;
pub mod text;
pub mod types;
