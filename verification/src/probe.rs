//! The external probe boundary and the compiler-identity heuristic.

use vstd::prelude::*;
use vstd::string::*;
use crate::text::{contains_sub, spec_contains};

verus! {

/// The injected capability that runs an external command and captures its
/// standard output, or reports a human-readable failure reason. Nothing is
/// promised of the result: a probe may answer differently on every call,
/// and all verified logic downstream holds for every possible answer. The
/// host supplies a real process runner; tests substitute deterministic or
/// counting stubs.
pub trait CommandRunner {
    /// Runs `name` with `args`, one single attempt, and hands back its
    /// captured standard output or the reason it could not.
    fn run(&mut self, name: &str, args: &Vec<String>) -> Result<String, String>;
}

/// The compiler identity read off a `--version` banner: an ordered
/// substring scan, clang first by convention, then the gcc family banner,
/// else an explicit unknown sentinel.
pub open spec fn spec_classify(s: Seq<char>) -> Seq<char> {
    if spec_contains(s, "clang"@) {
        "clang"@
    } else if spec_contains(s, "Free Software Foundation"@) {
        "gcc"@
    } else {
        "Unknown compiler"@
    }
}

/// Classifies a compiler's version banner by the first matching rule.
pub fn classify_compiler(stdout: &str) -> (r: String)
    ensures
        r@ == spec_classify(stdout@),
{
    if contains_sub(stdout, "clang") {
        String::from_str("clang")
    } else if contains_sub(stdout, "Free Software Foundation") {
        String::from_str("gcc")
    } else {
        String::from_str("Unknown compiler")
    }
}

} // verus!
