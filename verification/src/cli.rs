//! The command line of the tool, as plain values.

use vstd::prelude::*;

verus! {

/// A parsed command line.
#[derive(Debug)]
pub struct Cli {
    pub command: Commands,
}

/// The tool's commands and their arguments.
#[derive(Debug)]
pub enum Commands {
    /// Initialize a new environment.
    Init { env: String },
    /// Execute a command in an environment.
    Exec { env: String, tty: bool, cwd: Option<String>, command: Vec<String> },
    /// Enter an environment shell.
    Shell { env: String, cwd: Option<String> },
    /// Run the environment's setup hooks.
    Setup { env: String, force: bool },
    /// List all environments.
    Ls,
    /// Show resolved environment configuration.
    Show { env: String },
}

} // verus!
