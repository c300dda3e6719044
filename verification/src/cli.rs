//! The commands and options of the `csalt` command line, as plain data.
use vstd::prelude::*;

verus! {

/// The parsed command line.
pub struct Args {
    pub command: Commands,
}

/// A `csalt` sub-command.
pub enum Commands {
    /// Initialise a project in a directory.
    Init { dir: String },
    /// Create a new project directory.
    New(NewArgs),
    /// Update the `csalt` binary.
    Update,
    /// Build by calling a compiler directly.
    Compile(CompileArgs),
    /// Build through a build system.
    Build(BuildArgs),
}

/// Options of `csalt new`.
pub struct NewArgs {
    pub name: String,
    pub dir: Option<String>,
    pub full: bool,
    pub stealth: bool,
    pub init_git: bool,
}

/// Options of `csalt compile`.
pub struct CompileArgs {
    pub backend: Option<String>,
    pub mode: Option<String>,
    pub run: bool,
    pub backend_flags: Vec<String>,
}

/// Options of `csalt build`.
pub struct BuildArgs {
    pub backend: Option<String>,
    pub backend_flags: Vec<String>,
}

} // verus!
