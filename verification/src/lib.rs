//! Userspace pipeline for a kernel event tracer.
//!
//! The kernel-side instrumentation emits one fixed-layout binary record per
//! event into a per-CPU stream, together with a side table of process names
//! and a store of captured stack traces.  This crate holds the consumer side:
//! decoding the records, correlating them with the process-name table,
//! resolving stack identifiers into symbolic frames, and rendering the
//! ordered, human-readable trace lines.

pub mod codec;
pub mod comm;
pub mod consumer;
pub mod filter;
pub mod resolver;
pub mod sink;

use vstd::prelude::*;

verus! {

/// Sentinel for the core-filter slot: no filtering, match any core.
pub const UNSPECIFIED: u32 = u32::MAX;

} // verus!
