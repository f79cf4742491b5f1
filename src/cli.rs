//! The command-line surface: global flags and the two commands.

use vstd::prelude::*;

verus! {

/// Parsed command-line arguments.
#[derive(Debug)]
pub struct Cli {
    /// The command to run; none means a check of the current directory.
    pub command: Option<Command>,
    /// Show only errors.
    pub quiet: bool,
    /// Suppress all output.
    pub silent: bool,
    /// Show verbose output, skip warnings included.
    pub verbose: bool,
    /// Path of the configuration file, overriding discovery.
    pub config: Option<String>,
}

/// The available commands.
#[derive(Debug)]
pub enum Command {
    /// Check files against their line limits.
    Check(CheckArgs),
    /// Write a new configuration.
    Init(InitArgs),
}

/// Arguments of the check command.
#[derive(Debug)]
pub struct CheckArgs {
    /// Files or directories to check.
    pub paths: Vec<String>,
}

/// Arguments of the init command.
#[derive(Debug)]
pub struct InitArgs {
    /// Exempt every current violation in the generated configuration.
    pub baseline: bool,
}

} // verus!
