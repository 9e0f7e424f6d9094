//! The command line of the tool: its options and commands.

use vstd::prelude::*;

verus! {

/// Command line options
pub struct Cli {
    /// Configuration file
    pub config: Option<String>,
    /// Verbose output
    pub verbose: bool,
    /// The command to run
    pub command: Commands,
}

/// Commands of the tool
pub enum Commands {
    /// Start an environment
    Start { python: Option<String>, name: Option<String>, path: Option<String>, env: Vec<String> },
    /// Leave and stop the environment
    Kill { force: bool },
    /// Remove unused environments
    Clean,
    /// Save the environment as an image
    Save { name: Option<String> },
    /// Load a saved image
    Load { name: Option<String> },
    /// List environments
    List,
    /// Check the environment state
    Check,
}

} // verus!
