//! Discovers, compiles and catalogs a directory of independently buildable
//! runtime benchmark crates, and exposes them as a filterable suite.
//!
//! `discovery` selects the unit directories, `cargo_cmd` lays out each
//! unit's build invocation, `interpret` consumes the build driver's
//! structured output stream and enumerates the built executable's
//! benchmarks, `assemble` folds the per-unit outcomes into a suite with a
//! globally unique benchmark namespace, and `filter` and `suite` answer
//! queries over the result. Process handling and filesystem access stay with
//! the caller, which hands the library plain values.
use vstd::prelude::*;

pub mod assemble;
pub mod cargo_cmd;
pub mod discovery;
pub mod filter;
pub mod interpret;
pub mod strutil;
pub mod suite;

verus! {

/// Directory containing runtime benchmarks, relative to the repository root.
/// Building and timing the crates inside it is a proxy for the quality of the
/// code that the compiler generates.
pub fn runtime_benchmark_dir() -> (r: String)
    ensures
        r@ == "collector/runtime-benchmarks"@,
{
    String::from_str("collector/runtime-benchmarks")
}

} // verus!
