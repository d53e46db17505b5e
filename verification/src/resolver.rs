//! The configuration resolver: turns the declarative, line-oriented
//! configuration text into an ordered sequence of probe definitions,
//! folding the "current group / current bounds" scope over the lines, and
//! merges in at most one command-line-supplied probe.
//!
//! Grammar, processed top to bottom:
//! - blank lines and lines whose trimmed content starts with `#` or `//`
//!   are ignored;
//! - a line starting with `Group` sets the current group to its second
//!   whitespace-separated token (or back to `Default`) and resets both
//!   bounds;
//! - a line starting with `Min-value` (`Max-value`) sets the current lower
//!   (upper) bound to its second token when that token is a floating-point
//!   literal, and resets the bound otherwise;
//! - any other line is a probe line `short_name::interval::function::args`
//!   (the args field keeps further `::` verbatim); it is dropped unless its
//!   interval parses as a positive integer.

use vstd::prelude::*;

use crate::metric::{default_metric_view, Metric, MetricView};
use crate::strutil::{
    float_token, is_float_token, parse_u64, split_lines, split_lines_v, split_ws, splitn_sep,
    splitn_sep_v, starts_with, starts_with_v, trim, trim_start, trim_start_v, trim_v, u64_token,
    ws_tokens,
};

verus! {

/// The scope a probe line inherits: the current group and bounds.
pub struct ScopeView {
    pub group: Seq<char>,
    pub min_value: Option<Seq<char>>,
    pub max_value: Option<Seq<char>>,
}

/// The scope before any line has been read.
pub open spec fn initial_scope() -> ScopeView {
    ScopeView { group: "Default"@, min_value: None, max_value: None }
}

/// The line is blank or a comment.
pub open spec fn is_blank_or_comment(l: Seq<char>) -> bool {
    trim_v(l).len() == 0 || starts_with_v(trim_start_v(l), "#"@) || starts_with_v(
        trim_start_v(l),
        "//"@,
    )
}

/// The line declares the current group.
pub open spec fn is_group_line(l: Seq<char>) -> bool {
    starts_with_v(trim_start_v(l), "Group"@)
}

/// The line declares the current lower bound.
pub open spec fn is_min_line(l: Seq<char>) -> bool {
    starts_with_v(trim_start_v(l), "Min-value"@)
}

/// The line declares the current upper bound.
pub open spec fn is_max_line(l: Seq<char>) -> bool {
    starts_with_v(trim_start_v(l), "Max-value"@)
}

/// The line changes the scope rather than declaring a probe.
pub open spec fn is_directive(l: Seq<char>) -> bool {
    is_group_line(l) || is_min_line(l) || is_max_line(l)
}

/// The bound a `Min-value`/`Max-value` line sets: its second token when
/// that token is a floating-point literal, unset otherwise.
pub open spec fn bound_token(l: Seq<char>) -> Option<Seq<char>> {
    let toks = ws_tokens(l);
    if toks.len() >= 2 && float_token(toks[1]) {
        Some(toks[1])
    } else {
        None
    }
}

/// The scope after reading line `l` in scope `sc`.
pub open spec fn scope_after(sc: ScopeView, l: Seq<char>) -> ScopeView {
    if is_group_line(l) {
        ScopeView {
            group: if ws_tokens(l).len() >= 2 {
                ws_tokens(l)[1]
            } else {
                "Default"@
            },
            min_value: None,
            max_value: None,
        }
    } else if is_min_line(l) {
        ScopeView { group: sc.group, min_value: bound_token(l), max_value: sc.max_value }
    } else if is_max_line(l) {
        ScopeView { group: sc.group, min_value: sc.min_value, max_value: bound_token(l) }
    } else {
        sc
    }
}

/// The probe definition a non-directive line yields in scope `sc`, if any.
pub open spec fn probe_of_line(l: Seq<char>, sc: ScopeView) -> Option<MetricView> {
    if is_blank_or_comment(l) {
        None
    } else {
        let parts = splitn_sep_v(trim_v(l), 4);
        if parts.len() == 4 {
            match u64_token(parts[1]) {
                Some(n) => if n >= 1 {
                    Some(
                        MetricView {
                            n,
                            function: parts[2],
                            group: sc.group,
                            args: parts[3],
                            short_name: parts[0],
                            min_value: sc.min_value,
                            max_value: sc.max_value,
                            ..default_metric_view()
                        },
                    )
                } else {
                    None
                },
                None => None,
            }
        } else {
            None
        }
    }
}

/// The probe definitions the lines yield, read top to bottom from scope `sc`.
pub open spec fn resolve_lines_v(lines: Seq<Seq<char>>, sc: ScopeView) -> Seq<MetricView>
    decreases lines.len(),
{
    if lines.len() == 0 {
        Seq::empty()
    } else {
        let l = lines[0];
        if is_directive(l) {
            resolve_lines_v(lines.drop_first(), scope_after(sc, l))
        } else {
            match probe_of_line(l, sc) {
                Some(m) => seq![m] + resolve_lines_v(lines.drop_first(), sc),
                None => resolve_lines_v(lines.drop_first(), sc),
            }
        }
    }
}

/// The probe definitions a whole configuration text yields.
pub open spec fn resolve_file_v(content: Seq<char>) -> Seq<MetricView> {
    resolve_lines_v(split_lines_v(trim_v(content)), initial_scope())
}

/// Parse one line as a probe definition under the given group and bounds.
pub fn parse_line(
    line: &str,
    curr_group: &str,
    curr_min_value: &Option<String>,
    curr_max_value: &Option<String>,
) -> (r: Option<Metric>)
    ensures
        r.deep_view() == probe_of_line(
            line@,
            ScopeView {
                group: curr_group@,
                min_value: curr_min_value.deep_view(),
                max_value: curr_max_value.deep_view(),
            },
        ),
{
    let t = trim(line);
    let ts = trim_start(line);
    if t.is_empty() || starts_with(ts, "#") || starts_with(ts, "//") {
        return None;
    }
    let parts = splitn_sep(t, 4);
    if parts.len() != 4 {
        return None;
    }
    proof {
        assert(parts.deep_view().len() == 4);
        assert(parts@[1]@ == splitn_sep_v(trim_v(line@), 4)[1]);
        assert(parts@[0]@ == splitn_sep_v(trim_v(line@), 4)[0]);
        assert(parts@[2]@ == splitn_sep_v(trim_v(line@), 4)[2]);
        assert(parts@[3]@ == splitn_sep_v(trim_v(line@), 4)[3]);
    }
    match parse_u64(parts[1].as_str()) {
        Some(n) if n >= 1 => {
            let mut m = Metric::default();
            m.n = n;
            m.function = parts[2].clone();
            m.group = curr_group.to_owned();
            m.args = parts[3].clone();
            m.short_name = parts[0].clone();
            m.min_value = crate::metric::clone_opt_string(curr_min_value);
            m.max_value = crate::metric::clone_opt_string(curr_max_value);
            Some(m)
        },
        _ => None,
    }
}

/// Resolve a whole configuration text into probe definitions, in file order.
pub fn resolve_file(content: &str) -> (r: Vec<Metric>)
    ensures
        r.deep_view() == resolve_file_v(content@),
{
    let trimmed = trim(content);
    let lines = split_lines(trimmed);
    let n = lines.len();
    let mut out: Vec<Metric> = Vec::new();
    let mut group: String = "Default".to_owned();
    let mut min_value: Option<String> = None;
    let mut max_value: Option<String> = None;
    let mut i: usize = 0;
    proof {
        assert(lines.deep_view().skip(0) =~= lines.deep_view());
        assert(out.deep_view() =~= Seq::<MetricView>::empty());
        assert(Seq::<MetricView>::empty() + resolve_lines_v(lines.deep_view(), initial_scope())
            =~= resolve_lines_v(lines.deep_view(), initial_scope()));
    }
    while i < n
        invariant
            n == lines@.len(),
            i <= n,
            resolve_file_v(content@) == out.deep_view() + resolve_lines_v(
                lines.deep_view().skip(i as int),
                ScopeView {
                    group: group@,
                    min_value: min_value.deep_view(),
                    max_value: max_value.deep_view(),
                },
            ),
        decreases n - i,
    {
        let ghost pre_scope = ScopeView {
            group: group@,
            min_value: min_value.deep_view(),
            max_value: max_value.deep_view(),
        };
        let ghost rest = lines.deep_view().skip(i as int);
        proof {
            assert(rest[0] == lines.deep_view()[i as int]);
            assert(lines.deep_view()[i as int] == lines@[i as int]@);
            assert(rest.drop_first() =~= lines.deep_view().skip(i + 1));
        }
        let line = &lines[i];
        let ts = trim_start(line.as_str());
        if starts_with(ts, "Group") {
            let toks = split_ws(line.as_str());
            if toks.len() >= 2 {
                proof {
                    assert(toks@[1]@ == ws_tokens(line@)[1]);
                }
                group = toks[1].clone();
            } else {
                group = "Default".to_owned();
            }
            min_value = None;
            max_value = None;
        } else if starts_with(ts, "Min-value") {
            let toks = split_ws(line.as_str());
            if toks.len() >= 2 && is_float_token(toks[1].as_str()) {
                proof {
                    assert(toks@[1]@ == ws_tokens(line@)[1]);
                }
                min_value = Some(toks[1].clone());
            } else {
                proof {
                    if toks@.len() >= 2 {
                        assert(toks@[1]@ == ws_tokens(line@)[1]);
                    }
                }
                min_value = None;
            }
        } else if starts_with(ts, "Max-value") {
            let toks = split_ws(line.as_str());
            if toks.len() >= 2 && is_float_token(toks[1].as_str()) {
                proof {
                    assert(toks@[1]@ == ws_tokens(line@)[1]);
                }
                max_value = Some(toks[1].clone());
            } else {
                proof {
                    if toks@.len() >= 2 {
                        assert(toks@[1]@ == ws_tokens(line@)[1]);
                    }
                }
                max_value = None;
            }
        } else {
            match parse_line(line.as_str(), group.as_str(), &min_value, &max_value) {
                Some(m) => {
                    let ghost prev = out.deep_view();
                    let ghost mv = m@;
                    out.push(m);
                    assert(out.deep_view() =~= prev + seq![mv]);
                },
                None => {},
            }
        }
        i = i + 1;
    }
    assert(lines.deep_view().skip(n as int) =~= Seq::<Seq<char>>::empty());
    assert(out.deep_view() =~= out.deep_view() + Seq::<MetricView>::empty());
    out
}

/// The one fatal condition of resolution.
#[derive(Debug, PartialEq, Eq, Clone, Copy)]
pub enum ResolveError {
    /// File and command line together yielded no probe at all; the
    /// scheduler must never run with an empty probe set.
    NoProbes,
}

/// What file content and command-line override together resolve to.
pub open spec fn merged_v(file_content: Option<Seq<char>>, cmdline: Option<MetricView>) -> Seq<
    MetricView,
> {
    (match file_content {
        Some(c) => resolve_file_v(c),
        None => Seq::empty(),
    }) + (match cmdline {
        Some(m) => seq![m],
        None => Seq::empty(),
    })
}

/// Resolve the optional configuration text and the optional
/// command-line-supplied probe into one ordered probe sequence: all file
/// probes in file order, then the override. An empty result is the fatal
/// no-probes error.
pub fn resolve(file_content: Option<&str>, cmdline: Option<Metric>) -> (r: Result<
    Vec<Metric>,
    ResolveError,
>)
    ensures
        match r {
            Ok(probes) => probes.deep_view() == merged_v(
                match file_content {
                    Some(c) => Some(c@),
                    None => None,
                },
                cmdline.deep_view(),
            ) && probes.deep_view().len() > 0,
            Err(e) => e == ResolveError::NoProbes && merged_v(
                match file_content {
                    Some(c) => Some(c@),
                    None => None,
                },
                cmdline.deep_view(),
            ).len() == 0,
        },
{
    let ghost fc = match file_content {
        Some(c) => Some(c@),
        None => None::<Seq<char>>,
    };
    let ghost cm = cmdline.deep_view();
    let mut probes: Vec<Metric> = match file_content {
        Some(c) => resolve_file(c),
        None => Vec::new(),
    };
    let ghost file_part = probes.deep_view();
    match cmdline {
        Some(m) => {
            let ghost mv = m@;
            probes.push(m);
            assert(probes.deep_view() =~= file_part + seq![mv]);
        },
        None => {
            assert(probes.deep_view() =~= file_part + Seq::<MetricView>::empty());
        },
    }
    assert(probes.deep_view() == merged_v(fc, cm));
    if probes.len() == 0 {
        Err(ResolveError::NoProbes)
    } else {
        Ok(probes)
    }
}

/// A line is a lone valid probe line: not blank, not a comment, not a
/// directive, with four `::`-separated fields and a positive interval.
pub open spec fn is_valid_probe_line(l: Seq<char>) -> bool {
    &&& !is_blank_or_comment(l)
    &&& !is_directive(l)
    &&& splitn_sep_v(trim_v(l), 4).len() == 4
    &&& match u64_token(splitn_sep_v(trim_v(l), 4)[1]) {
        Some(n) => n >= 1,
        None => false,
    }
}

/// Resolving a file that holds a single valid probe line yields exactly one
/// probe definition, carrying the line's four fields, the default group and
/// no bounds.
pub proof fn lemma_single_probe_line(l: Seq<char>)
    requires
        is_valid_probe_line(l),
    ensures
        ({
            let parts = splitn_sep_v(trim_v(l), 4);
            resolve_lines_v(seq![l], initial_scope()) =~= seq![
                MetricView {
                    n: u64_token(parts[1])->Some_0,
                    short_name: parts[0],
                    function: parts[2],
                    args: parts[3],
                    group: "Default"@,
                    ..default_metric_view()
                },
            ]
        }),
{
    let lines = seq![l];
    assert(lines[0] == l);
    assert(lines.drop_first() =~= Seq::<Seq<char>>::empty());
    assert(probe_of_line(l, initial_scope()) is Some);
    let m = probe_of_line(l, initial_scope())->Some_0;
    assert(resolve_lines_v(lines, initial_scope()) == seq![m] + resolve_lines_v(
        lines.drop_first(),
        initial_scope(),
    ));
    assert(resolve_lines_v(Seq::<Seq<char>>::empty(), initial_scope()) =~= Seq::<
        MetricView,
    >::empty());
    assert(seq![m] + Seq::<MetricView>::empty() =~= seq![m]);
}

/// The number of candidate lines: those that are neither blank, comment
/// nor directive, and so could declare a probe.
pub open spec fn candidate_count(lines: Seq<Seq<char>>) -> int
    decreases lines.len(),
{
    if lines.len() == 0 {
        0int
    } else {
        (if is_directive(lines[0]) || is_blank_or_comment(lines[0]) {
            0int
        } else {
            1int
        }) + candidate_count(lines.drop_first())
    }
}

/// Lines that yield no probe definition are dropped, never substituted:
/// a file never resolves to more probes than it has candidate lines.
pub proof fn lemma_resolve_len_le_candidates(lines: Seq<Seq<char>>, sc: ScopeView)
    ensures
        0 <= candidate_count(lines) <= lines.len(),
        resolve_lines_v(lines, sc).len() <= candidate_count(lines),
    decreases lines.len(),
{
    if lines.len() > 0 {
        let l = lines[0];
        if is_directive(l) {
            lemma_resolve_len_le_candidates(lines.drop_first(), scope_after(sc, l));
        } else {
            lemma_resolve_len_le_candidates(lines.drop_first(), sc);
        }
    }
}

/// A probe line whose interval is zero is dropped and nothing stands in
/// for it: the resolved sequence stays strictly shorter than the number of
/// candidate lines, whatever scope the file is read in.
pub proof fn lemma_zero_interval_line_dropped(lines: Seq<Seq<char>>, sc: ScopeView, i: int)
    requires
        0 <= i < lines.len(),
        !is_blank_or_comment(lines[i]),
        !is_directive(lines[i]),
        splitn_sep_v(trim_v(lines[i]), 4).len() == 4,
        u64_token(splitn_sep_v(trim_v(lines[i]), 4)[1]) == Some(0u64),
    ensures
        resolve_lines_v(lines, sc).len() < candidate_count(lines),
    decreases lines.len(),
{
    let l = lines[0];
    if i == 0 {
        assert(probe_of_line(l, sc) is None);
        lemma_resolve_len_le_candidates(lines.drop_first(), sc);
    } else {
        assert(lines.drop_first()[i - 1] == lines[i]);
        if is_directive(l) {
            lemma_zero_interval_line_dropped(lines.drop_first(), scope_after(sc, l), i - 1);
        } else {
            lemma_zero_interval_line_dropped(lines.drop_first(), sc, i - 1);
        }
    }
}

/// Entering a group resets both bounds: a probe after a `Group` line never
/// inherits a bound declared before it.
pub proof fn lemma_group_line_resets_bounds(sc: ScopeView, l: Seq<char>)
    requires
        is_group_line(l),
    ensures
        scope_after(sc, l).min_value is None,
        scope_after(sc, l).max_value is None,
{
}

/// A probe line takes the scope at its own position: the definition it
/// yields carries exactly the current group and bounds, never earlier or
/// later ones.
pub proof fn lemma_probe_inherits_scope(l: Seq<char>, sc: ScopeView)
    requires
        probe_of_line(l, sc) is Some,
    ensures
        probe_of_line(l, sc)->Some_0.group == sc.group,
        probe_of_line(l, sc)->Some_0.min_value == sc.min_value,
        probe_of_line(l, sc)->Some_0.max_value == sc.max_value,
{
}

/// Resolution is a function of the configuration text alone: two resolved
/// sequences of the same content are equal, structurally and in order.
pub proof fn lemma_resolve_deterministic(c1: Seq<char>, c2: Seq<char>)
    requires
        c1 == c2,
    ensures
        resolve_file_v(c1) == resolve_file_v(c2),
{
}

} // verus!
