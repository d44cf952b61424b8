//! The command line's settings, as plain values.

use vstd::prelude::*;

verus! {

#[derive(Debug)]
pub struct Args {
    /// How much more to log.
    pub verbose: u8,
    /// How much less to log.
    pub quiet: u8,
    pub subcommand: SubCommand,
}

#[derive(Debug)]
pub enum SubCommand {
    Check(Check),
    Vulns(Vulns),
    SupportedIssues,
}

#[derive(Debug, Clone)]
pub struct Check {
    /// Directories that hold a recipe.
    pub paths: Vec<String>,
    /// Directories with one subdirectory per package.
    pub scan_directory: Vec<String>,
    /// Packages to check out before scanning.
    pub arch_build_system: Vec<String>,
    /// Look for signed tags behind release archives.
    pub discover_sigs: bool,
    /// Names of the findings to report; all when empty.
    pub filters: Vec<String>,
    /// Print the targets with findings.
    pub report: bool,
    /// How many scans may run at once.
    pub concurrency: Option<usize>,
}

#[derive(Debug, Clone)]
pub struct Vulns {
    /// Run the recipe's prepare step before scanning.
    pub prepare: bool,
    /// Delete untracked files after scanning.
    pub clean_after: bool,
    pub check: Check,
}

/// The log level that the verbosity flags select.
pub fn log_level(quiet: u8, verbose: u8) -> (r: &'static str)
    ensures
        r@ == if quiet == 0 && verbose == 0 {
            "info"@
        } else if quiet == 0 {
            "debug"@
        } else if quiet == 1 {
            "warn"@
        } else {
            "error"@
        },
{
    if quiet == 0 && verbose == 0 {
        "info"
    } else if quiet == 0 {
        "debug"
    } else if quiet == 1 {
        "warn"
    } else {
        "error"
    }
}

} // verus!
