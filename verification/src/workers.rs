//! What the probe workers decide and report, separated from the I/O they
//! perform. The concrete workers run commands, fetch URLs and read system
//! state outside the library; each hands its raw outcome to a builder here,
//! which fixes the measurement's fields exactly.

use vstd::prelude::*;

use crate::metric::{Metric, MetricView};
use crate::strutil::{dec_digits, trim, trim_v, u64_to_string};

verus! {

/// The URL the `check_url` worker probes: the trimmed argument string, or
/// a fixed default when it is blank.
pub open spec fn check_url_target_v(args: Seq<char>) -> Seq<char> {
    if trim_v(args).len() == 0 {
        "https://lwn.net"@
    } else {
        trim_v(args)
    }
}

/// Pick the URL for a `check_url` probe.
pub fn check_url_target(args: &str) -> (r: String)
    ensures
        r@ == check_url_target_v(args@),
{
    let t = trim(args);
    if t.is_empty() {
        "https://lwn.net".to_owned()
    } else {
        t.to_owned()
    }
}

/// How an HTTP fetch ended, as the worker's surroundings report it.
pub enum UrlOutcome {
    /// The response arrived with a success status, after this many
    /// milliseconds.
    Success { elapsed_ms: u64 },
    /// The response arrived with a non-success status, described by the
    /// given status line.
    HttpError { elapsed_ms: u64, status_line: String },
    /// No response arrived at all.
    RequestFailed,
}

/// The measurement of a `check_url` probe: the fetch duration in
/// milliseconds on any response, with the status line in the message on a
/// non-success status; a failed request reports an error with value zero.
pub fn check_url_metric(probe: &Metric, outcome: UrlOutcome) -> (r: Metric)
    requires
        outcome matches UrlOutcome::Success { elapsed_ms } ==> elapsed_ms <= i64::MAX,
        outcome matches UrlOutcome::HttpError { elapsed_ms, .. } ==> elapsed_ms <= i64::MAX,
    ensures
        r@ == match outcome {
            UrlOutcome::Success { elapsed_ms } => MetricView {
                value: Some(dec_digits(elapsed_ms as int)),
                units: Some("ms"@),
                message: Some("Success"@),
                graph_value: Some(elapsed_ms as i64),
                ..probe@
            },
            UrlOutcome::HttpError { elapsed_ms, status_line } => MetricView {
                value: Some(dec_digits(elapsed_ms as int)),
                units: Some("ms"@),
                message: Some("HTTP error: "@ + status_line@),
                graph_value: Some(elapsed_ms as i64),
                ..probe@
            },
            UrlOutcome::RequestFailed => MetricView {
                value: Some("0"@),
                units: Some("ms"@),
                message: Some("ERROR"@),
                status: "error"@,
                ..probe@
            },
        },
{
    let mut r = probe.duplicate();
    match outcome {
        UrlOutcome::Success { elapsed_ms } => {
            r.value = Some(u64_to_string(elapsed_ms));
            r.units = Some("ms".to_owned());
            r.message = Some("Success".to_owned());
            r.graph_value = Some(elapsed_ms as i64);
        },
        UrlOutcome::HttpError { elapsed_ms, status_line } => {
            r.value = Some(u64_to_string(elapsed_ms));
            r.units = Some("ms".to_owned());
            let mut msg = "HTTP error: ".to_owned();
            msg.append(status_line.as_str());
            r.message = Some(msg);
            r.graph_value = Some(elapsed_ms as i64);
        },
        UrlOutcome::RequestFailed => {
            r.value = Some("0".to_owned());
            r.units = Some("ms".to_owned());
            r.message = Some("ERROR".to_owned());
            r.status = "error".to_owned();
        },
    }
    r
}

/// The host a `load_avg` probe reports under: the trimmed argument string,
/// or `localhost` when it is blank.
pub open spec fn load_avg_host_v(args: Seq<char>) -> Seq<char> {
    if trim_v(args).len() == 0 {
        "localhost"@
    } else {
        trim_v(args)
    }
}

/// The display key of a `load_avg` measurement.
pub fn load_avg_short_name(args: &str) -> (r: String)
    ensures
        r@ == "load_avg_"@ + load_avg_host_v(args@),
{
    let t = trim(args);
    let mut r = "load_avg_".to_owned();
    if t.is_empty() {
        r.append("localhost");
    } else {
        r.append(t);
    }
    r
}

/// The measurement of a `load_avg` probe, from the sampled load scaled to
/// an integer and its exact textual form.
pub fn load_avg_metric(probe: &Metric, value_text: String, graph_value: i64) -> (r: Metric)
    ensures
        r@ == (MetricView {
            value: Some(value_text@),
            message: Some("Hey"@),
            graph_value: Some(graph_value),
            graph_short_name: Some("load_avg_"@ + load_avg_host_v(probe@.args)),
            ..probe@
        }),
{
    let mut r = probe.duplicate();
    r.graph_short_name = Some(load_avg_short_name(probe.args.as_str()));
    r.value = Some(value_text);
    r.message = Some("Hey".to_owned());
    r.graph_value = Some(graph_value);
    r
}

/// The measurement of a `timethis` probe: how many milliseconds the
/// command took. A command that could not run or failed reports an error
/// with the elapsed time negated and a fixed failure message.
pub fn timethis_metric(probe: &Metric, elapsed_ms: u64, success: bool) -> (r: Metric)
    requires
        elapsed_ms <= i64::MAX,
    ensures
        r@ == if success {
            MetricView {
                value: Some(dec_digits(elapsed_ms as int)),
                units: Some("ms"@),
                message: Some("OK"@),
                graph_value: Some(elapsed_ms as i64),
                graph_type: Some("time"@),
                graph_short_name: Some(probe@.short_name),
                ..probe@
            }
        } else {
            MetricView {
                value: Some(seq!['-'] + dec_digits(elapsed_ms as int)),
                units: Some("ms"@),
                message: Some("Failed to execute command"@),
                graph_value: Some((-(elapsed_ms as int)) as i64),
                graph_short_name: Some(probe@.short_name),
                status: "error"@,
                ..probe@
            }
        },
{
    let mut r = probe.duplicate();
    r.units = Some("ms".to_owned());
    r.graph_short_name = Some(probe.short_name.clone());
    if success {
        r.value = Some(u64_to_string(elapsed_ms));
        r.message = Some("OK".to_owned());
        r.graph_value = Some(elapsed_ms as i64);
        r.graph_type = Some("time".to_owned());
    } else {
        let mut v = "-".to_owned();
        let digits = u64_to_string(elapsed_ms);
        v.append(digits.as_str());
        proof {
            reveal_strlit("-");
        }
        assert(v@ =~= seq!['-'] + dec_digits(elapsed_ms as int));
        r.value = Some(v);
        r.message = Some("Failed to execute command".to_owned());
        r.graph_value = Some(-(elapsed_ms as i64));
        r.status = "error".to_owned();
    }
    r
}

/// The measurement of a `runthis` probe: the number the command printed
/// (zero when its output was not a number), or an error measurement with
/// the sentinel value when the command could not run or failed.
pub fn runthis_metric(probe: &Metric, printed: Option<i32>) -> (r: Metric)
    ensures
        r@ == match printed {
            Some(v) => MetricView {
                value: Some(crate::strutil::dec_int(v as int)),
                units: None,
                message: Some("OK"@),
                graph_value: Some(v as i64),
                graph_short_name: Some(probe@.short_name),
                ..probe@
            },
            None => MetricView {
                value: Some("-1"@),
                units: None,
                message: Some("Failed to execute command"@),
                graph_value: Some(-1i64),
                graph_short_name: Some(probe@.short_name),
                status: "error"@,
                ..probe@
            },
        },
{
    let mut r = probe.duplicate();
    r.units = None;
    r.graph_short_name = Some(probe.short_name.clone());
    match printed {
        Some(v) => {
            r.value = Some(crate::strutil::i64_to_string(v as i64));
            r.message = Some("OK".to_owned());
            r.graph_value = Some(v as i64);
        },
        None => {
            r.value = Some("-1".to_owned());
            proof {
                reveal_strlit("-1");
                reveal_strlit("-");
                reveal_strlit("1");
            }
            assert(r@.value == Some("-1"@));
            r.message = Some("Failed to execute command".to_owned());
            r.graph_value = Some(-1i64);
            r.status = "error".to_owned();
        },
    }
    r
}

/// The first listed disk mounted at `path`, given each disk's mount point,
/// total space and available space.
pub fn find_disk(disks: &Vec<(String, u64, u64)>, path: &str) -> (r: Option<usize>)
    ensures
        match r {
            Some(i) => i < disks@.len() && disks@[i as int].0@ == path@ && forall|j: int|
                0 <= j < i ==> disks@[j].0@ != path@,
            None => forall|j: int| 0 <= j < disks@.len() ==> disks@[j].0@ != path@,
        },
{
    let n = disks.len();
    let mut i: usize = 0;
    while i < n
        invariant
            n == disks@.len(),
            i <= n,
            forall|j: int| 0 <= j < i ==> disks@[j].0@ != path@,
        decreases n - i,
    {
        if crate::strutil::str_eq(disks[i].0.as_str(), path) {
            return Some(i);
        }
        i = i + 1;
    }
    None
}

/// The measurement of a `df` probe whose filesystem is not mounted: value
/// zero and a message naming the missing path.
pub fn df_not_found_metric(probe: &Metric) -> (r: Metric)
    ensures
        r@ == (MetricView {
            value: Some("0"@),
            graph_value: Some(0i64),
            message: Some("Filesystem '"@ + probe@.args + "' not found"@),
            ..probe@
        }),
{
    let mut r = probe.duplicate();
    r.value = Some("0".to_owned());
    r.graph_value = Some(0i64);
    let mut msg = "Filesystem '".to_owned();
    msg.append(probe.args.as_str());
    msg.append("' not found");
    assert(msg@ =~= "Filesystem '"@ + probe@.args + "' not found"@);
    r.message = Some(msg);
    r
}

} // verus!
