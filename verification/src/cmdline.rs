//! The command-line-supplied override probe: built from already-parsed flag
//! values, appended after all file-derived probes. Flag grammar and process
//! bootstrap live outside the library; this module holds the rules for
//! defaults and for the derived display name.

use vstd::prelude::*;

use crate::metric::{default_metric_view, Metric, MetricView};
use crate::strutil::ws_tokens;

verus! {

/// The interval a command-line probe gets when no interval flag is given:
/// effectively "almost never".
pub const DEFAULT_EVERY: u64 = 9999999;

/// The display name derived for an unnamed command-line probe: the first
/// whitespace token of the command string (empty if there is none), an
/// underscore, and the host identifier (`no_hostname` when unknown).
pub open spec fn placeholder_name_v(command: Seq<char>, hostname: Option<Seq<char>>) -> Seq<char> {
    let cmd = if ws_tokens(command).len() >= 1 {
        ws_tokens(command)[0]
    } else {
        Seq::empty()
    };
    let host = match hostname {
        Some(h) => h,
        None => "no_hostname"@,
    };
    cmd + "_"@ + host
}

/// Derive the display name for an unnamed command-line probe.
pub fn placeholder_name(command: &str, hostname: Option<&str>) -> (r: String)
    ensures
        r@ == placeholder_name_v(
            command@,
            match hostname {
                Some(h) => Some(h@),
                None => None,
            },
        ),
{
    let toks = crate::strutil::split_ws(command);
    let mut r: String = if toks.len() >= 1 {
        proof {
            assert(toks@[0]@ == ws_tokens(command@)[0]);
        }
        toks[0].clone()
    } else {
        String::new()
    };
    r.append("_");
    match hostname {
        Some(h) => r.append(h),
        None => r.append("no_hostname"),
    }
    assert(r@ =~= placeholder_name_v(
        command@,
        match hostname {
            Some(h) => Some(h@),
            None => None,
        },
    ));
    r
}

/// The probe the command-line flags declare, if any: none when the trailing
/// command string is empty; otherwise one probe with the flagged interval
/// (or the almost-never default), worker (or `timethis`), name (or the
/// derived placeholder), bounds, the command string as its arguments, and
/// the default group — the command line has no group flag.
pub open spec fn cmdline_probe_v(
    every: Option<u32>,
    once: bool,
    name: Option<Seq<char>>,
    worker: Option<Seq<char>>,
    min_value: Option<Seq<char>>,
    max_value: Option<Seq<char>>,
    command: Seq<char>,
    hostname: Option<Seq<char>>,
) -> Option<MetricView> {
    if command.len() == 0 {
        None
    } else {
        Some(
            MetricView {
                n: match every {
                    Some(e) => e as u64,
                    None => DEFAULT_EVERY,
                },
                once,
                function: match worker {
                    Some(w) => w,
                    None => "timethis"@,
                },
                group: "Default"@,
                args: command,
                short_name: match name {
                    Some(nm) => nm,
                    None => placeholder_name_v(command, hostname),
                },
                min_value,
                max_value,
                ..default_metric_view()
            },
        )
    }
}

/// Build the override probe from already-parsed command-line values.
pub fn parse_config_from_args(
    every: Option<u32>,
    once: bool,
    name: Option<String>,
    worker: Option<String>,
    min_value: Option<String>,
    max_value: Option<String>,
    command: String,
    hostname: Option<String>,
) -> (r: Option<Metric>)
    ensures
        r.deep_view() == cmdline_probe_v(
            every,
            once,
            name.deep_view(),
            worker.deep_view(),
            min_value.deep_view(),
            max_value.deep_view(),
            command@,
            hostname.deep_view(),
        ),
{
    if command.unicode_len() == 0 {
        return None;
    }
    let short_name = match name {
        Some(nm) => nm,
        None => placeholder_name(
            command.as_str(),
            match &hostname {
                Some(h) => Some(h.as_str()),
                None => None,
            },
        ),
    };
    let mut m = Metric::default();
    m.n = match every {
        Some(e) => e as u64,
        None => DEFAULT_EVERY,
    };
    m.once = once;
    m.function = match worker {
        Some(w) => w,
        None => "timethis".to_owned(),
    };
    m.group = "Default".to_owned();
    m.args = command;
    m.short_name = short_name;
    m.min_value = min_value;
    m.max_value = max_value;
    Some(m)
}

} // verus!
