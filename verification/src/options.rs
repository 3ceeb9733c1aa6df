//! What a run of the compiler is asked to do, and how it ends.

use vstd::prelude::*;

verus! {

/// Where the compiled library goes.
#[derive(Debug)]
pub enum CompilationDestination {
    /// Into this file.
    Path { lib_file: String },
    /// Into a file of this directory whose name depends on what is compiled.
    Cache { cache_dir: String },
}

/// How a run ended.
#[derive(Debug)]
pub enum CompilationTermination {
    /// Without errors; the library, where one was asked for, is in this file.
    Compiled { lib_file: String },
    /// With errors in what was to be compiled.
    FatalDiagnostic,
}

/// What a run is asked to do.
#[derive(Debug)]
pub struct Opts {
    pub dry_run: bool,
    pub defines: Vec<String>,
    pub codegen_opts: Vec<String>,
    pub input: String,
    pub output: CompilationDestination,
    pub target_cpu: String,
    pub dump_mir: bool,
    pub dump_unopt_mir: bool,
    pub dump_ir: bool,
    pub dump_unopt_ir: bool,
    pub dump_unopt_json: bool,
    pub dump_unopt_json_with_split: bool,
}

} // verus!
