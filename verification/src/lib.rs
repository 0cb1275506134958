//! A heuristic, line-oriented linter for Ruby source text.
//!
//! The core is a single-pass scanner that tracks block nesting and
//! string-literal state across lines and reports syntax-shaped errors
//! and style warnings without building a parse tree.

use vstd::prelude::*;

pub mod laws;
pub mod report;
pub mod scan;
pub mod text;

pub use report::first_error_message;
pub use scan::SimpleLintResult;
pub use scan::simple_lint_ruby;

verus! {

/// Adds two numbers; the inputs must not overflow a `u64`.
pub fn add(left: u64, right: u64) -> (r: u64)
    requires
        left + right <= u64::MAX,
    ensures
        r == left + right,
{
    left + right
}

} // verus!
