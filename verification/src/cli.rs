//! What the agent is told on its command line.

use vstd::prelude::*;
use vstd::string::*;

verus! {

/// Name of the file with the settings that the agent reads when it is not
/// told another.
pub open spec fn default_config_file() -> Seq<char> {
    "alumet-config.toml"@
}

/// What the agent is to do.
#[derive(Debug)]
pub enum Command {
    /// Measure until the agent is stopped.
    Run,
    /// Start a command and measure until it ends.
    Exec { program: String, args: Vec<String> },
}

/// The arguments of the command line.
#[derive(Debug)]
pub struct Cli {
    /// Path of the file with the settings, if one was given.
    pub config: Option<String>,
    pub command: Command,
}

impl Cli {
    /// The path of the file with the settings: the one that was given, or
    /// `alumet-config.toml`.
    pub fn config_path(&self) -> (path: String)
        ensures
            path@ == match self.config {
                Some(p) => p@,
                None => default_config_file(),
            },
    {
        match &self.config {
            Some(p) => p.clone(),
            None => String::from_str("alumet-config.toml"),
        }
    }
}

} // verus!
