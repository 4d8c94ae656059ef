//! A tracer that only says whether tracing is on.

use vstd::prelude::*;

verus! {

/// Execution tracer for tests: records nothing, reports whether it is enabled.
#[derive(Debug, Default)]
pub struct SimpleTracer {
    pub enabled: bool,
}

impl SimpleTracer {
    pub fn is_enabled(&self) -> (r: bool)
        ensures
            r == self.enabled,
    {
        self.enabled
    }
}

} // verus!
