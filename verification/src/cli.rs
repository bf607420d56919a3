//! The command line surface of the application: what each subcommand takes.
//! The argument-parsing front end lives with the binary; these are the plain
//! values it hands over.

use vstd::prelude::*;

use crate::cosmos::CelestialBodyKind;

verus! {

/// The parsed command line.
#[derive(Debug)]
pub struct Cli {
    /// Sets the current working directory for the given command.
    pub dir: Option<String>,
    /// Adds more logging messages.
    pub verbose: u8,
    /// The subcommand to run, if any.
    pub command: Option<Commands>,
}

/// The subcommands the application offers.
#[derive(Debug)]
pub enum Commands {
    /// Initialize a new Galaxy in the current directory.
    Init(InitArgs),
    /// List the celestial bodies in the Galaxy.
    List(ListArgs),
    /// Create a new celestial body.
    New(NewArgs),
}

/// Arguments of the subcommand that initializes a new project.
#[derive(Debug)]
pub struct InitArgs {
    /// Title for the new project.
    pub title: String,
    /// Description for the new project.
    pub description: Option<String>,
}

/// Arguments of the subcommand that lists celestial bodies.
#[derive(Debug)]
pub struct ListArgs {
    /// List recursively, or just list top-level.
    pub recursive: bool,
}

/// Arguments of the subcommand that creates a new celestial body.
#[derive(Debug)]
pub struct NewArgs {
    /// Type of celestial body to create.
    pub kind: CelestialBodyKind,
    /// Title for the new celestial body.
    pub title: String,
    /// Description for the new celestial body.
    pub description: Option<String>,
}

} // verus!
