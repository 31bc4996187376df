//! The arguments of the tool, as plain values.

use vstd::prelude::*;

verus! {

/// Where the configuration is kept when no path is given.
pub fn default_config_path() -> (path: String)
    ensures
        path@ == "~/.cign.toml"@,
{
    String::from_str("~/.cign.toml")
}

/// What the tool was called with.
#[derive(Debug, PartialEq, Eq)]
pub struct Cli {
    /// Path to the configuration. It is created if not found.
    pub config_path: String,
    /// Print more.
    pub verbose: bool,
    /// Fail on errors instead of skipping where that is possible.
    pub no_skip: bool,
    /// What to do; the scan, where nothing is named.
    pub action: Option<Action>,
}

/// What the tool is asked to do.
#[derive(Debug, PartialEq, Eq)]
pub enum Action {
    /// Add the repository at `dir` to the configuration.
    Add { dir: String },
    /// Remove the repository at `dir` from the configuration.
    Del { dir: String },
    /// Visit all failing directories one by one, running `cmd` in each.
    Fix { cmd: String },
    /// Show all configured repositories.
    List,
    /// Run the refresh command for every configured entry.
    Refresh,
}

/// The remediation command used when none is given: the user's shell,
/// which the caller has looked up in the environment, or `sh` where the
/// environment names none.
pub fn default_fix_cmd(shell: Option<String>) -> (cmd: String)
    ensures
        cmd@ == match shell {
            Some(named) => named@,
            None => "sh"@,
        },
{
    match shell {
        Some(named) => named,
        None => String::from_str("sh"),
    }
}

impl Cli {
    /// Whether the configuration is written back after the action. It is
    /// after every action but a scan that found unfinished business, which
    /// ends the process with the status `exit_status` at once.
    pub fn saves_config(&self, exit_status: i32) -> (saves: bool)
        ensures
            saves == (self.action is Some || exit_status == 0),
    {
        self.action.is_some() || exit_status == 0
    }
}

} // verus!
