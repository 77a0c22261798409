//! Basic invocation configuration.

use vstd::prelude::*;

verus! {

/// Configuration derived from the command line.
#[derive(Debug, Clone, Copy, PartialEq, Eq, Structural)]
pub struct Config {
    /// Quiet mode: suppress non-error output.
    pub quiet: bool,
}

impl Default for Config {
    /// The default configuration: quiet mode off.
    fn default() -> (r: Self)
        ensures
            !r.quiet,
    {
        Config { quiet: false }
    }
}

impl Config {
    /// Create a configuration with default values.
    pub fn new() -> (r: Self)
        ensures
            !r.quiet,
    {
        Config { quiet: false }
    }

    /// Create a configuration from command-line arguments.
    pub fn from_cli(quiet: bool) -> (r: Self)
        ensures
            r.quiet == quiet,
    {
        Config { quiet }
    }

    /// Whether quiet mode is enabled.
    pub fn is_quiet(&self) -> (r: bool)
        ensures
            r == self.quiet,
    {
        self.quiet
    }
}

} // verus!
