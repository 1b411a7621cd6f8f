//! What the command line asks for.

use vstd::prelude::*;

verus! {

/// Output format for `ls` and `diff`.
#[derive(Copy, Clone, Debug, PartialEq, Eq, Structural)]
pub enum Format {
    /// Human-readable table or report.
    Text,
    /// Single-line JSON document.
    Json,
}

impl Default for Format {
    fn default() -> (format: Self)
        ensures
            format == Format::Text,
    {
        Format::Text
    }
}

/// A shell for which there is a completion script.
#[derive(Copy, Clone, Debug, PartialEq, Eq, Structural)]
pub enum Shell {
    Bash,
    Elvish,
    Fish,
    PowerShell,
    Zsh,
}

/// The command line.
#[derive(Debug)]
pub struct Cli {
    pub command: Command,
}

/// The subcommands.
#[derive(Debug)]
pub enum Command {
    /// Run a build and record it to the local database.
    Record {
        /// Arguments forwarded to `cargo build`.
        cargo_args: Vec<String>,
    },
    /// Run a build with a real-time dashboard.
    Watch {
        /// Arguments forwarded to `cargo build`.
        cargo_args: Vec<String>,
    },
    /// List recent builds from the database.
    Ls {
        /// Number of most recent builds to display.
        last: usize,
        format: Format,
    },
    /// Compare two recorded builds.
    Diff {
        /// Number of the earlier build.
        before: i64,
        /// Number of the later build.
        after: i64,
        format: Format,
    },
    /// Generate a shell completion script.
    Completions { shell: Shell },
}

} // verus!
