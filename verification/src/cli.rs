//! The configuration surface the core consumes from its caller.

use vstd::prelude::*;

verus! {

/// Startup configuration.  Argument handling lives outside the library;
/// this is the plain value it produces.
#[derive(Debug, Clone)]
pub struct Cli {
    /// Repository root to report on; the working directory when absent.
    pub path: Option<String>,
    /// Output template; JSON rendering when absent.
    pub format: Option<String>,
    /// Print one snapshot and exit instead of watching.
    pub once: bool,
    /// Debounce window in milliseconds.
    pub debounce_ms: u64,
    /// Emit on every signal even when the snapshot is unchanged.
    pub always_print: bool,
}

} // verus!
