//! The commands of the command line and what each one leads to.

use vstd::prelude::*;
use crate::resolver::{doctor, sync};

verus! {

broadcast use vstd::string::group_string_axioms;

/// A command given on the command line.
#[derive(Debug)]
pub enum Command {
    /// Add the git dependency at `url`, at `tag` or else its newest tag.
    Add { url: String, tag: Option<String> },
    /// Create the project's manifest.
    Init,
    /// Bring the project in line with its manifest.
    Sync { locked: bool, allow_high_sensitivity: bool },
    /// Check the project.
    Doctor,
}

/// What a command leads to: work in the working directory, or its outcome
/// (the error message when it failed).
#[derive(Debug)]
pub enum CliOutcome {
    /// Add the dependency at `url` to the project in the working directory.
    AddDependency { url: String, tag: Option<String> },
    /// Create the manifest of the project in the working directory.
    ScaffoldInit,
    Finished(Result<(), String>),
}

/// Dispatches a command.
pub fn run(command: Command) -> (r: CliOutcome)
    ensures
        match command {
            Command::Add { url, tag } => r matches CliOutcome::AddDependency { url: u, tag: t }
                && u == url && t == tag,
            Command::Init => r is ScaffoldInit,
            Command::Sync { .. } => r matches CliOutcome::Finished(Err(m)) && m@
                == "sync is not implemented yet"@,
            Command::Doctor => r matches CliOutcome::Finished(Err(m)) && m@
                == "doctor is not implemented yet"@,
        },
{
    match command {
        Command::Add { url, tag } => CliOutcome::AddDependency { url, tag },
        Command::Init => CliOutcome::ScaffoldInit,
        Command::Sync { locked, allow_high_sensitivity } => match sync(
            locked,
            allow_high_sensitivity,
        ) {
            Ok(()) => CliOutcome::Finished(Ok(())),
            Err(e) => CliOutcome::Finished(Err(e.message)),
        },
        Command::Doctor => match doctor() {
            Ok(()) => CliOutcome::Finished(Ok(())),
            Err(e) => CliOutcome::Finished(Err(e.message)),
        },
    }
}

} // verus!
