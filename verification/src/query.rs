//! What the generic API-query worker decides before and after its HTTP
//! round trip: parsing its `key=value` argument string, choosing the HTTP
//! method, splitting the jq-like path, and shaping its error measurements.
//! The request itself and the walk over the response document happen
//! outside the library.

use vstd::prelude::*;

use crate::metric::{Metric, MetricView};
use crate::strutil::{seq_ieq, split_eq, split_eq_v, split_ws, str_ieq, ws_tokens};

verus! {

/// The `key=value` pairs of an argument string: its whitespace-separated
/// tokens that contain `=`, each split at its first `=`, in order.
pub open spec fn pairs_of(toks: Seq<Seq<char>>) -> Seq<(Seq<char>, Seq<char>)>
    decreases toks.len(),
{
    if toks.len() == 0 {
        Seq::empty()
    } else {
        let rest = pairs_of(toks.drop_first());
        match split_eq_v(toks[0]) {
            Some(kv) => seq![kv] + rest,
            None => rest,
        }
    }
}

/// See [`pairs_of`].
pub open spec fn parse_args_v(args: Seq<char>) -> Seq<(Seq<char>, Seq<char>)> {
    pairs_of(ws_tokens(args))
}

/// Parse a worker argument string into its `key=value` pairs, in order;
/// tokens without `=` are ignored.
pub fn parse_args(args: &str) -> (r: Vec<(String, String)>)
    ensures
        r.deep_view() == parse_args_v(args@),
{
    let toks = split_ws(args);
    let n = toks.len();
    let mut out: Vec<(String, String)> = Vec::new();
    let mut i: usize = 0;
    proof {
        assert(toks.deep_view().skip(0) =~= toks.deep_view());
        assert(out.deep_view() + pairs_of(toks.deep_view()) =~= pairs_of(toks.deep_view()));
    }
    while i < n
        invariant
            n == toks@.len(),
            i <= n,
            parse_args_v(args@) == out.deep_view() + pairs_of(toks.deep_view().skip(i as int)),
            toks.deep_view() == ws_tokens(args@),
        decreases n - i,
    {
        let ghost rest = toks.deep_view().skip(i as int);
        proof {
            assert(rest[0] == toks.deep_view()[i as int]);
            assert(toks.deep_view()[i as int] == toks@[i as int]@);
            assert(rest.drop_first() =~= toks.deep_view().skip(i + 1));
        }
        match split_eq(toks[i].as_str()) {
            Some(kv) => {
                let ghost prev = out.deep_view();
                let ghost kvv = (kv.0@, kv.1@);
                out.push(kv);
                assert(out.deep_view() =~= prev + seq![kvv]);
            },
            None => {},
        }
        i = i + 1;
    }
    proof {
        assert(toks.deep_view().skip(n as int) =~= Seq::<Seq<char>>::empty());
        assert(out.deep_view() + Seq::<(Seq<char>, Seq<char>)>::empty() =~= out.deep_view());
    }
    out
}

/// The value of the last pair with key `key`, if any: a later `key=value`
/// overrides an earlier one.
pub open spec fn lookup_arg_v(pairs: Seq<(Seq<char>, Seq<char>)>, key: Seq<char>) -> Option<
    Seq<char>,
>
    decreases pairs.len(),
{
    if pairs.len() == 0 {
        None
    } else if pairs.last().0 == key {
        Some(pairs.last().1)
    } else {
        lookup_arg_v(pairs.drop_last(), key)
    }
}

/// Look an argument up by key, the last occurrence winning.
pub fn lookup_arg(pairs: &Vec<(String, String)>, key: &str) -> (r: Option<String>)
    ensures
        match r {
            Some(v) => lookup_arg_v(pairs.deep_view(), key@) == Some(v@),
            None => lookup_arg_v(pairs.deep_view(), key@) is None,
        },
{
    let n = pairs.len();
    let mut i: usize = n;
    proof {
        assert(pairs.deep_view().take(n as int) =~= pairs.deep_view());
    }
    while i > 0
        invariant
            n == pairs@.len(),
            i <= n,
            lookup_arg_v(pairs.deep_view(), key@) == lookup_arg_v(
                pairs.deep_view().take(i as int),
                key@,
            ),
        decreases i,
    {
        i = i - 1;
        let ghost part = pairs.deep_view().take(i + 1);
        proof {
            assert(part.last() == pairs.deep_view()[i as int]);
            assert(pairs.deep_view()[i as int] == (pairs@[i as int].0@, pairs@[i as int].1@));
            assert(part.drop_last() =~= pairs.deep_view().take(i as int));
        }
        if crate::strutil::str_eq(pairs[i].0.as_str(), key) {
            return Some(pairs[i].1.clone());
        }
    }
    proof {
        assert(pairs.deep_view().take(0) =~= Seq::<(Seq<char>, Seq<char>)>::empty());
    }
    None
}

/// The HTTP methods the query worker can issue.
#[derive(Debug, Clone, Copy, PartialEq, Eq, Structural)]
pub enum HttpMethod {
    Get,
    Post,
    Put,
    Delete,
    Patch,
}

/// The method a token names, compared without regard to ASCII case.
pub open spec fn method_of(m: Seq<char>) -> Option<HttpMethod> {
    if seq_ieq(m, "get"@) {
        Some(HttpMethod::Get)
    } else if seq_ieq(m, "post"@) {
        Some(HttpMethod::Post)
    } else if seq_ieq(m, "put"@) {
        Some(HttpMethod::Put)
    } else if seq_ieq(m, "delete"@) {
        Some(HttpMethod::Delete)
    } else if seq_ieq(m, "patch"@) {
        Some(HttpMethod::Patch)
    } else {
        None
    }
}

/// Recognise an HTTP method name.
pub fn parse_method(m: &str) -> (r: Option<HttpMethod>)
    ensures
        r == method_of(m@),
{
    if str_ieq(m, "get") {
        Some(HttpMethod::Get)
    } else if str_ieq(m, "post") {
        Some(HttpMethod::Post)
    } else if str_ieq(m, "put") {
        Some(HttpMethod::Put)
    } else if str_ieq(m, "delete") {
        Some(HttpMethod::Delete)
    } else if str_ieq(m, "patch") {
        Some(HttpMethod::Patch)
    } else {
        None
    }
}

/// The keys of a jq-like path: every leading `.` dropped, the remainder
/// split at each `.`, empty keys kept.
pub open spec fn jq_keys_v(path: Seq<char>) -> Seq<Seq<char>> {
    crate::strutil::split_dots_v(skip_dots(path))
}

/// `s` without its leading dots.
pub open spec fn skip_dots(s: Seq<char>) -> Seq<char>
    decreases s.len(),
{
    if s.len() > 0 && s[0] == '.' {
        skip_dots(s.drop_first())
    } else {
        s
    }
}

/// Split a jq-like path into the keys to follow, in order.
pub fn jq_keys(path: &str) -> (r: Vec<String>)
    ensures
        r.deep_view() == jq_keys_v(path@),
{
    let stripped = skip_dots_exec(path);
    crate::strutil::split_dots(stripped)
}

/// Drop leading dots from a string slice.
fn skip_dots_exec(s: &str) -> (r: &str)
    ensures
        r@ == skip_dots(s@),
    decreases s@.len(),
{
    let n = s.unicode_len();
    if n > 0 && s.get_char(0) == '.' {
        let rest = s.substring_char(1, n);
        assert(rest@ == s@.drop_first());
        skip_dots_exec(rest)
    } else {
        s
    }
}

/// An error measurement of the query worker: status `"error"`, the given
/// message, and the sentinel value.
pub fn query_error_metric(probe: &Metric, message: &str) -> (r: Metric)
    ensures
        r@ == (MetricView {
            status: "error"@,
            message: Some(message@),
            value: Some("-1"@),
            ..probe@
        }),
{
    let mut r = probe.duplicate();
    r.status = "error".to_owned();
    r.message = Some(message.to_owned());
    r.value = Some("-1".to_owned());
    r
}

/// A successful measurement of the query worker: the number found at the
/// end of the path, as its exact textual form and its integer
/// representation, with status `"ok"`.
pub fn query_value_metric(base: &Metric, value_text: String, graph_value: i64) -> (r: Metric)
    ensures
        r@ == (MetricView {
            value: Some(value_text@),
            graph_value: Some(graph_value),
            status: "ok"@,
            ..base@
        }),
{
    let mut r = base.duplicate();
    r.value = Some(value_text);
    r.graph_value = Some(graph_value);
    r.status = "ok".to_owned();
    r
}

/// What the query worker should do for a probe, decided from its arguments
/// alone, before any request is made.
pub enum QueryPlan {
    /// The arguments are unusable as they stand; emit this measurement.
    Fail(Metric),
    /// The method token is not a known method; the worker reports it in
    /// its own words. The base measurement already carries the display key.
    UnsupportedMethod { token: String, base: Metric },
    /// Issue this request; walk the response along `jq` if it is present.
    /// The base measurement already carries the display key.
    Request { url: String, method: HttpMethod, jq: Option<String>, base: Metric },
}

/// Decide the query worker's request from a probe's arguments: the `url`
/// argument is mandatory, the method defaults to GET, and the display key
/// is fixed to the probe's own name on every path but a missing URL.
pub fn query_plan(probe: &Metric) -> (r: QueryPlan)
    ensures
        ({
            let pairs = parse_args_v(probe@.args);
            let with_key = (MetricView {
                graph_short_name: Some(probe@.short_name),
                ..probe@
            });
            match r {
                QueryPlan::Fail(m) => lookup_arg_v(pairs, "url"@) is None && m@ == (MetricView {
                    status: "error"@,
                    message: Some("url is a mandatory argument"@),
                    value: Some("-1"@),
                    ..probe@
                }),
                QueryPlan::UnsupportedMethod { token, base } => {
                    &&& lookup_arg_v(pairs, "url"@) is Some
                    &&& lookup_arg_v(pairs, "method"@) == Some(token@)
                    &&& method_of(token@) is None
                    &&& base@ == with_key
                },
                QueryPlan::Request { url, method, jq, base } => {
                    &&& lookup_arg_v(pairs, "url"@) == Some(url@)
                    &&& match lookup_arg_v(pairs, "method"@) {
                        Some(t) => method_of(t) == Some(method),
                        None => method == HttpMethod::Get,
                    }
                    &&& jq.deep_view() == lookup_arg_v(pairs, "jq"@)
                    &&& base@ == with_key
                },
            }
        }),
{
    let pairs = parse_args(probe.args.as_str());
    let url = match lookup_arg(&pairs, "url") {
        Some(u) => u,
        None => {
            return QueryPlan::Fail(query_error_metric(probe, "url is a mandatory argument"));
        },
    };
    let mut base = probe.duplicate();
    base.graph_short_name = Some(probe.short_name.clone());
    let jq = lookup_arg(&pairs, "jq");
    match lookup_arg(&pairs, "method") {
        Some(token) => {
            match parse_method(token.as_str()) {
                Some(method) => QueryPlan::Request { url, method, jq, base },
                None => QueryPlan::UnsupportedMethod { token, base },
            }
        },
        None => QueryPlan::Request { url, method: HttpMethod::Get, jq, base },
    }
}

} // verus!
