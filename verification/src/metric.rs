//! The probe definition and measurement record.
//!
//! One `Metric` value carries both the static description of a probe (what
//! to run, how often, in which group, with which bounds) and the transient
//! result fields a worker fills in. Numeric bounds and measured values are
//! carried as decimal tokens, passed through to sinks untouched.

use vstd::prelude::*;

verus! {

/// One probe definition together with its latest measurement fields.
#[derive(Debug, PartialEq, Eq)]
pub struct Metric {
    /// The probe's interval in seconds; a resolved probe always has `n >= 1`.
    pub n: u64,
    /// Stop the scheduler after one full pass when set on any probe.
    pub once: bool,
    /// Key into the worker dispatch table.
    pub function: String,
    /// Descriptive group, carried through to sinks.
    pub group: String,
    /// Opaque argument string, passed verbatim to the worker.
    pub args: String,
    /// Display name, assumed unique by sinks.
    pub short_name: String,
    /// Lower bound as a numeric token, carried through untouched.
    pub min_value: Option<String>,
    /// Upper bound as a numeric token, carried through untouched.
    pub max_value: Option<String>,
    /// Measured value as a numeric token.
    pub value: Option<String>,
    /// Unit of the measured value.
    pub units: Option<String>,
    /// Human-readable message from the worker.
    pub message: Option<String>,
    /// Sink-friendly integer representation of the value.
    pub graph_value: Option<i64>,
    /// Rendering hint for sinks.
    pub graph_type: Option<String>,
    /// Sink display key; may differ from `short_name`.
    pub graph_short_name: Option<String>,
    /// `"ok"` or `"error"`.
    pub status: String,
}

/// The mathematical image of a [`Metric`].
pub struct MetricView {
    pub n: u64,
    pub once: bool,
    pub function: Seq<char>,
    pub group: Seq<char>,
    pub args: Seq<char>,
    pub short_name: Seq<char>,
    pub min_value: Option<Seq<char>>,
    pub max_value: Option<Seq<char>>,
    pub value: Option<Seq<char>>,
    pub units: Option<Seq<char>>,
    pub message: Option<Seq<char>>,
    pub graph_value: Option<i64>,
    pub graph_type: Option<Seq<char>>,
    pub graph_short_name: Option<Seq<char>>,
    pub status: Seq<char>,
}

impl View for Metric {
    type V = MetricView;

    open spec fn view(&self) -> MetricView {
        MetricView {
            n: self.n,
            once: self.once,
            function: self.function@,
            group: self.group@,
            args: self.args@,
            short_name: self.short_name@,
            min_value: self.min_value.deep_view(),
            max_value: self.max_value.deep_view(),
            value: self.value.deep_view(),
            units: self.units.deep_view(),
            message: self.message.deep_view(),
            graph_value: self.graph_value,
            graph_type: self.graph_type.deep_view(),
            graph_short_name: self.graph_short_name.deep_view(),
            status: self.status@,
        }
    }
}

impl DeepView for Metric {
    type V = MetricView;

    open spec fn deep_view(&self) -> MetricView {
        self.view()
    }
}

/// The image of a metric all of whose fields are still at their defaults.
pub open spec fn default_metric_view() -> MetricView {
    MetricView {
        n: 0,
        once: false,
        function: Seq::empty(),
        group: Seq::empty(),
        args: Seq::empty(),
        short_name: Seq::empty(),
        min_value: None,
        max_value: None,
        value: None,
        units: None,
        message: None,
        graph_value: None,
        graph_type: None,
        graph_short_name: None,
        status: "ok"@,
    }
}

impl Default for Metric {
    /// The empty metric: zero interval, empty names, no measurement yet,
    /// status `"ok"`.
    fn default() -> (r: Metric)
        ensures
            r@ == default_metric_view(),
    {
        let r = Metric {
            n: 0,
            once: false,
            function: String::new(),
            group: String::new(),
            args: String::new(),
            short_name: String::new(),
            min_value: None,
            max_value: None,
            value: None,
            units: None,
            message: None,
            graph_value: None,
            graph_type: None,
            graph_short_name: None,
            status: "ok".to_owned(),
        };
        assert(r@ == default_metric_view());
        r
    }
}

/// Clone an optional string, keeping its image.
pub fn clone_opt_string(o: &Option<String>) -> (r: Option<String>)
    ensures
        r.deep_view() == o.deep_view(),
{
    match o {
        Some(s) => Some(s.clone()),
        None => None,
    }
}

impl Metric {
    /// An exact copy, field for field.
    pub fn duplicate(&self) -> (r: Metric)
        ensures
            r@ == self@,
    {
        Metric {
            n: self.n,
            once: self.once,
            function: self.function.clone(),
            group: self.group.clone(),
            args: self.args.clone(),
            short_name: self.short_name.clone(),
            min_value: clone_opt_string(&self.min_value),
            max_value: clone_opt_string(&self.max_value),
            value: clone_opt_string(&self.value),
            units: clone_opt_string(&self.units),
            message: clone_opt_string(&self.message),
            graph_value: self.graph_value,
            graph_type: clone_opt_string(&self.graph_type),
            graph_short_name: clone_opt_string(&self.graph_short_name),
            status: self.status.clone(),
        }
    }
}

/// The probe-definition fields of `a` and `b` agree; the measurement fields
/// are free.
pub open spec fn same_probe_fields(a: MetricView, b: MetricView) -> bool {
    &&& a.n == b.n
    &&& a.once == b.once
    &&& a.function == b.function
    &&& a.group == b.group
    &&& a.args == b.args
    &&& a.short_name == b.short_name
    &&& a.min_value == b.min_value
    &&& a.max_value == b.max_value
}

} // verus!
