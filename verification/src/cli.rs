//! The commands of the command line, as plain values.

use vstd::prelude::*;
use std::path::PathBuf;

verus! {

/// A filesystem path, carried through unchanged.
#[verifier::external_type_specification]
#[verifier::external_body]
pub struct ExPathBuf(PathBuf);

/// The parsed command line.
#[derive(Debug)]
pub struct Cli {
    pub verbose: bool,
    pub command: Commands,
}

#[derive(Debug)]
pub enum Commands {
    /// Launch an IDE, submit the given tasks and keep driving them.
    Run { app: Runner, tasks: Vec<String> },
    /// Manage the configuration file.
    Config { command: ConfigCommands },
}

/// The IDEs that can be driven.
#[derive(PartialEq, Eq, Structural, Debug, Clone, Copy)]
pub enum Runner {
    Trae,
}

#[derive(Debug)]
pub enum ConfigCommands {
    /// Write the default configuration file.
    Init { path: Option<PathBuf>, force: bool },
    /// Load and validate the configuration file.
    Check { path: Option<PathBuf> },
}

} // verus!
