//! The worker dispatch table: a closed enumeration of the known worker
//! identifiers and the mapping from a probe's declared function name onto
//! it. An unknown name is not an error — the probe is silently skipped at
//! tick time, as a plug-in that is not yet registered.

use vstd::prelude::*;

use crate::strutil::str_eq;

verus! {

/// The workers the agent knows how to run.
#[derive(Debug, Clone, Copy, PartialEq, Eq, Structural)]
pub enum WorkerId {
    /// Time an HTTP GET of a URL.
    CheckUrl,
    /// Sample the system load average.
    LoadAvg,
    /// Run a command and report how long it took.
    TimeThis,
    /// Run a command and report the number it prints.
    RunThis,
    /// Report a filesystem's used space.
    Df,
}

/// The worker registered under a function name, if any.
pub open spec fn spec_lookup(name: Seq<char>) -> Option<WorkerId> {
    if name == "check_url"@ {
        Some(WorkerId::CheckUrl)
    } else if name == "load_avg"@ {
        Some(WorkerId::LoadAvg)
    } else if name == "timethis"@ {
        Some(WorkerId::TimeThis)
    } else if name == "runthis"@ {
        Some(WorkerId::RunThis)
    } else if name == "df"@ {
        Some(WorkerId::Df)
    } else {
        None
    }
}

/// Look a function name up in the dispatch table.
pub fn lookup(name: &str) -> (r: Option<WorkerId>)
    ensures
        r == spec_lookup(name@),
{
    if str_eq(name, "check_url") {
        Some(WorkerId::CheckUrl)
    } else if str_eq(name, "load_avg") {
        Some(WorkerId::LoadAvg)
    } else if str_eq(name, "timethis") {
        Some(WorkerId::TimeThis)
    } else if str_eq(name, "runthis") {
        Some(WorkerId::RunThis)
    } else if str_eq(name, "df") {
        Some(WorkerId::Df)
    } else {
        None
    }
}

} // verus!
