//! The command surface as plain data: what the user asked for, after
//! argument parsing and before any work.

use vstd::prelude::*;

verus! {

/// A parsed command line.
pub struct Cli {
    pub command: Commands,
}

/// The two commands: run a problem on a target, or view stored logs.
pub enum Commands {
    /// Run a problem on a target, or explain it without side effects.
    Run { problem: String, target: String, dry_run: bool },
    /// List available runs, or print one phase's stored output.
    Logs { problem: String, target: String, run: Option<String>, phase: Option<String> },
}

impl Commands {
    /// The problem name every command carries.
    pub fn problem_name(&self) -> (r: &String)
        ensures
            r@ == match self {
                Commands::Run { problem, .. } => problem@,
                Commands::Logs { problem, .. } => problem@,
            },
    {
        match self {
            Commands::Run { problem, .. } => problem,
            Commands::Logs { problem, .. } => problem,
        }
    }

    /// The target name every command carries.
    pub fn target_name(&self) -> (r: &String)
        ensures
            r@ == match self {
                Commands::Run { target, .. } => target@,
                Commands::Logs { target, .. } => target@,
            },
    {
        match self {
            Commands::Run { target, .. } => target,
            Commands::Logs { target, .. } => target,
        }
    }
}

} // verus!
