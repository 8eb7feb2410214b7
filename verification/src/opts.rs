//! The command-line surface, as plain data.  Flag parsing itself happens
//! outside the crate; the values it produces are handed in through these
//! types.

use vstd::prelude::*;

verus! {

/// Global options: an optional explicit path to the configuration file, and
/// the subcommand to run.
#[derive(Debug)]
pub struct Opts {
    pub config: Option<String>,
    pub subcommand: SubCommand,
}

/// The three terminal operations.
#[derive(Debug)]
pub enum SubCommand {
    Install(InstallCmd),
    Link(LinkCmd),
    Exec(ExecCmd),
}

/// Makes some or all links for a host.
#[derive(Debug)]
pub struct LinkCmd {
    pub hostname: String,
    pub args: Vec<String>,
}

/// Runs all tasks for a host, then makes all its links.
#[derive(Debug)]
pub struct InstallCmd {
    pub hostname: String,
}

/// Executes a particular task for a host.
#[derive(Debug)]
pub struct ExecCmd {
    pub hostname: String,
    pub task_name: String,
}

} // verus!
