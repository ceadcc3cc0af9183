//! The build invocation: which program to run, with which arguments,
//! environment overrides and working directory, to build one benchmark unit
//! in release mode with a structured, line-delimited output stream.
use crate::filter::opt_view;
use crate::suite::Toolchain;
use vstd::prelude::*;
use vstd::string::StringExecFns;

verus! {

/// Whether a build reuses the ambient build cache or is redirected into a
/// fresh temporary directory with the unit's lock file protected.
#[derive(Debug)]
pub enum CargoIsolationMode {
    Cached,
    Isolated,
}

/// Options for compiling the benchmark units.
#[derive(Debug)]
pub struct RuntimeCompilationOpts {
    /// Debug-info verbosity handed to the build through its environment,
    /// when set.
    pub debug_info: Option<String>,
}

impl Default for RuntimeCompilationOpts {
    /// The default options: no debug-info override.
    fn default() -> (r: Self)
        ensures
            r.debug_info is None,
    {
        RuntimeCompilationOpts { debug_info: None }
    }
}

impl RuntimeCompilationOpts {
    /// Sets the debug-info verbosity to hand to the build.
    pub fn debug_info(self, debug_info: &str) -> (r: Self)
        ensures
            r.debug_info matches Some(d) && d@ == debug_info@,
    {
        RuntimeCompilationOpts { debug_info: Some(debug_info.to_owned()) }
    }
}

/// One build invocation, as plain values: the program, its arguments, the
/// environment overrides, and the working directory. The caller runs it with
/// standard input closed, standard output captured and standard error
/// discarded.
#[derive(Debug)]
pub struct CargoBuildPlan {
    pub program: String,
    pub args: Vec<String>,
    pub env: Vec<(String, String)>,
    pub current_dir: String,
}

/// Lays out the build invocation for one unit: the toolchain's build driver,
/// run in the unit's directory, building in release mode with structured
/// short-diagnostic messages on standard output; the compiler driver is
/// selected through the environment, the target directory and debug-info
/// verbosity are appended only when given.
pub fn cargo_build_command(
    toolchain: &Toolchain,
    benchmark_dir: &str,
    target_dir: Option<&str>,
    opts: &RuntimeCompilationOpts,
) -> (r: CargoBuildPlan)
    ensures
        r.program == toolchain.cargo,
        r.current_dir@ == benchmark_dir@,
        r.args@.len() == (if target_dir is Some {
            6int
        } else {
            4int
        }),
        r.args@[0]@ == "build"@,
        r.args@[1]@ == "--release"@,
        r.args@[2]@ == "--message-format"@,
        r.args@[3]@ == "json-diagnostic-short"@,
        target_dir matches Some(t) ==> r.args@[4]@ == "--target-dir"@ && r.args@[5]@ == t@,
        r.env@.len() == (if opts.debug_info is Some {
            2int
        } else {
            1int
        }),
        r.env@[0].0@ == "RUSTC"@,
        r.env@[0].1 == toolchain.rustc,
        opts.debug_info matches Some(d) ==> r.env@[1].0@ == "CARGO_PROFILE_RELEASE_DEBUG"@
            && r.env@[1].1 == d,
{
    let mut args: Vec<String> = Vec::new();
    args.push(String::from_str("build"));
    args.push(String::from_str("--release"));
    args.push(String::from_str("--message-format"));
    args.push(String::from_str("json-diagnostic-short"));
    match target_dir {
        Some(t) => {
            args.push(String::from_str("--target-dir"));
            args.push(t.to_owned());
        },
        None => {},
    }
    let mut env: Vec<(String, String)> = Vec::new();
    env.push((String::from_str("RUSTC"), toolchain.rustc.clone()));
    match &opts.debug_info {
        Some(d) => {
            env.push((String::from_str("CARGO_PROFILE_RELEASE_DEBUG"), d.clone()));
        },
        None => {},
    }
    CargoBuildPlan {
        program: toolchain.cargo.clone(),
        args,
        env,
        current_dir: benchmark_dir.to_owned(),
    }
}

} // verus!
