//! Compile-time timing instrumentation for functions.
//!
//! The library rewrites a function definition so that a start timestamp is
//! captured on entry and an "epilogue" — building a [`LogContext`] and
//! reporting it — runs on every path out of the function, immediately before
//! the exit value escapes.  The function definition is modelled by the small
//! abstract syntax in [`ast`]; the attribute configuration that selects a
//! reporting callback is parsed by [`config`]; the rewrite itself lives in
//! [`rewrite`], and the laws it obeys are proved in [`laws`].

use vstd::prelude::*;

pub mod ast;
pub mod config;
pub mod laws;
pub mod rewrite;

verus! {

/// Context passed to a custom logging function by the instrumented code.
pub struct LogContext {
    /// The name of the function being profiled.
    pub function: String,
    /// The time the function took to complete.
    pub duration: std::time::Duration,
}

} // verus!
