//! Core-affinity filter and stack-capture toggle.
//!
//! Written once from external configuration before any consumer starts,
//! read-only thereafter.  The stored sentinel for "no filtering" is
//! [`crate::UNSPECIFIED`] (the maximum `u32`), the binary configuration
//! contract this pipeline commits to; it is distinct from every real CPU
//! index, so disabling the filter is always representable.

use crate::UNSPECIFIED;
use vstd::prelude::*;

verus! {

/// The core selector and stack-capture toggle, immutable once consumers run.
#[derive(Clone, Copy, Debug, PartialEq, Eq, Structural)]
pub struct FilterConfig {
    core_index: u32,
    capture: bool,
}

impl FilterConfig {
    /// The stored core selector, sentinel included.
    pub closed spec fn spec_core(&self) -> u32 {
        self.core_index
    }

    /// Whether stack capture is enabled.
    pub closed spec fn spec_capture_stack(&self) -> bool {
        self.capture
    }

    /// Whether an event attributed to `cpu` passes the filter.
    pub open spec fn spec_matches(&self, cpu: u32) -> bool {
        self.spec_core() == UNSPECIFIED || self.spec_core() == cpu
    }

    /// Build the configuration; an absent core index disables filtering.
    pub fn new(core: Option<u32>, capture_stack: bool) -> (r: FilterConfig)
        ensures
            r.spec_core() == (match core {
                Some(c) => c,
                None => UNSPECIFIED,
            }),
            r.spec_capture_stack() == capture_stack,
    {
        let core_index = match core {
            Some(c) => c,
            None => UNSPECIFIED,
        };
        FilterConfig { core_index, capture: capture_stack }
    }

    /// The configured core, or nothing when filtering is disabled.
    pub fn core_selector(&self) -> (r: Option<u32>)
        ensures
            r == (if self.spec_core() == UNSPECIFIED {
                None
            } else {
                Some(self.spec_core())
            }),
    {
        if self.core_index == UNSPECIFIED {
            None
        } else {
            Some(self.core_index)
        }
    }

    /// The raw selector value as the producer's single-slot store holds
    /// it: a real CPU index, or [`UNSPECIFIED`].
    pub fn core_slot(&self) -> (r: u32)
        ensures
            r == self.spec_core(),
    {
        self.core_index
    }

    /// Whether stack capture is enabled.
    pub fn capture_stack(&self) -> (r: bool)
        ensures
            r == self.spec_capture_stack(),
    {
        self.capture
    }

    /// Whether an event attributed to `cpu` passes the filter.
    pub fn matches_core(&self, cpu: u32) -> (r: bool)
        ensures
            r == self.spec_matches(cpu),
    {
        self.core_index == UNSPECIFIED || self.core_index == cpu
    }
}

/// With a core configured, exactly that core's events pass the filter;
/// with none configured, every core's do.
pub proof fn lemma_filter_selective(cfg: FilterConfig, cpu: u32)
    ensures
        cfg.spec_core() != UNSPECIFIED ==> (cfg.spec_matches(cpu) <==> cpu == cfg.spec_core()),
        cfg.spec_core() == UNSPECIFIED ==> cfg.spec_matches(cpu),
{
}

} // verus!
