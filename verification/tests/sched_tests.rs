use jr::dispatch::{lookup, WorkerId};
use jr::fanout::{fan_out, Sink};
use jr::metric::Metric;
use jr::sched::{due, sleep_nanos, stamp, Scheduler, WorkerSet};

fn probe(name: &str, n: u64, function: &str) -> Metric {
    let mut m = Metric::default();
    m.short_name = name.to_string();
    m.n = n;
    m.function = function.to_string();
    m
}

/// Records which probes were invoked; answers with an ok measurement.
struct RecordingWorkers {
    invoked: Vec<(WorkerId, String)>,
}

impl WorkerSet for RecordingWorkers {
    fn invoke(&mut self, id: WorkerId, probe: &Metric) -> Metric {
        self.invoked.push((id, probe.short_name.clone()));
        let mut r = probe.duplicate();
        r.value = Some("1".to_string());
        r
    }
}

/// Fails (as the worker contract asks: an error-status measurement) for
/// every probe whose name says so.
struct FaultyWorkers {
    invoked: Vec<String>,
}

impl WorkerSet for FaultyWorkers {
    fn invoke(&mut self, _id: WorkerId, probe: &Metric) -> Metric {
        self.invoked.push(probe.short_name.clone());
        let mut r = probe.duplicate();
        if probe.short_name.starts_with("faulty") {
            r.status = "error".to_string();
            r.message = Some("internal fault".to_string());
            r.value = Some("-1".to_string());
        } else {
            r.value = Some("1".to_string());
        }
        r
    }
}

struct RecordingSink {
    fails: bool,
    seen: Vec<String>,
}

impl Sink for RecordingSink {
    fn emit(&mut self, m: &Metric) -> bool {
        self.seen.push(m.short_name.clone());
        !self.fails
    }
}

#[test]
fn due_follows_the_epoch_modulo_rule() {
    let fires2: Vec<u64> = (0u64..6).filter(|&e| due(e, 2)).collect();
    let fires3: Vec<u64> = (0u64..6).filter(|&e| due(e, 3)).collect();
    assert_eq!(fires2, vec![0, 2, 4]);
    assert_eq!(fires3, vec![0, 3]);
    assert!(due(0, 2) && due(0, 3));
}

#[test]
fn tick_runs_exactly_the_due_probes_in_order() {
    let probes = vec![probe("two", 2, "load_avg"), probe("three", 3, "df")];
    let sched = Scheduler::new(probes);
    let mut workers = RecordingWorkers { invoked: Vec::new() };
    for epoch in 0u64..6 {
        let results = sched.tick(epoch, &mut workers);
        let expected: Vec<&str> = match epoch {
            0 => vec!["two", "three"],
            2 | 4 => vec!["two"],
            3 => vec!["three"],
            _ => vec![],
        };
        let names: Vec<String> = results.iter().map(|m| m.short_name.clone()).collect();
        assert_eq!(names, expected);
    }
    assert_eq!(workers.invoked.len(), 5);
    assert_eq!(workers.invoked[0], (WorkerId::LoadAvg, "two".to_string()));
    assert_eq!(workers.invoked[1], (WorkerId::Df, "three".to_string()));
}

#[test]
fn unknown_function_is_silently_skipped() {
    let probes = vec![probe("known", 1, "df"), probe("plugin", 1, "not_registered")];
    let sched = Scheduler::new(probes);
    let mut workers = RecordingWorkers { invoked: Vec::new() };
    let results = sched.tick(0, &mut workers);
    assert_eq!(results.len(), 1);
    assert_eq!(results[0].short_name, "known");
}

#[test]
fn run_once_stops_after_one_pass() {
    let mut one = probe("solo", 1, "df");
    one.once = true;
    let mut sched = Scheduler::new(vec![probe("other", 1, "df"), one]);
    let mut workers = RecordingWorkers { invoked: Vec::new() };
    let mut sinks: Vec<RecordingSink> = Vec::new();
    let mut passes = 0;
    let mut epoch = 0u64;
    while !sched.is_stopped() {
        sched.run_tick(epoch, &mut workers, &mut sinks);
        sched.end_pass();
        passes += 1;
        epoch += 1;
    }
    assert_eq!(passes, 1);
    assert_eq!(workers.invoked.len(), 2);
}

#[test]
fn without_run_once_the_scheduler_keeps_going() {
    let mut sched = Scheduler::new(vec![probe("a", 1, "df")]);
    sched.end_pass();
    assert!(!sched.is_stopped());
    sched.end_pass();
    assert!(!sched.is_stopped());
}

#[test]
fn sink_isolation_second_sink_failing_stops_nothing() {
    let probes = vec![probe("a", 1, "df")];
    let sched = Scheduler::new(probes);
    let mut workers = RecordingWorkers { invoked: Vec::new() };
    let mut sinks = vec![
        RecordingSink { fails: false, seen: Vec::new() },
        RecordingSink { fails: true, seen: Vec::new() },
        RecordingSink { fails: false, seen: Vec::new() },
    ];
    let results = sched.run_tick(0, &mut workers, &mut sinks);
    assert_eq!(results.len(), 1);
    assert_eq!(sinks[0].seen, vec!["a"]);
    assert_eq!(sinks[1].seen, vec!["a"]);
    assert_eq!(sinks[2].seen, vec!["a"]);
}

#[test]
fn fan_out_reports_each_sink_outcome() {
    let mut sinks = vec![
        RecordingSink { fails: false, seen: Vec::new() },
        RecordingSink { fails: true, seen: Vec::new() },
        RecordingSink { fails: false, seen: Vec::new() },
    ];
    let m = probe("m", 1, "df");
    let delivered = fan_out(&mut sinks, &m);
    assert_eq!(delivered, vec![true, false, true]);
}

#[test]
fn worker_failure_does_not_block_the_next_probe() {
    let probes = vec![probe("faulty", 1, "df"), probe("fine", 1, "load_avg")];
    let sched = Scheduler::new(probes);
    let mut workers = FaultyWorkers { invoked: Vec::new() };
    let results = sched.tick(0, &mut workers);
    assert_eq!(results.len(), 2);
    assert_eq!(results[0].short_name, "faulty");
    assert_eq!(results[0].status, "error");
    assert_eq!(results[1].short_name, "fine");
    assert_eq!(results[1].status, "ok");
    assert_eq!(workers.invoked, vec!["faulty".to_string(), "fine".to_string()]);
}

#[test]
fn stamp_restores_the_probe_definition_fields() {
    let p = probe("name", 7, "df");
    let mut tampered = p.duplicate();
    tampered.n = 99;
    tampered.short_name = "forged".to_string();
    tampered.value = Some("5".to_string());
    let fixed = stamp(tampered, &p);
    assert_eq!(fixed.n, 7);
    assert_eq!(fixed.short_name, "name");
    assert_eq!(fixed.value, Some("5".to_string()));
}

#[test]
fn dispatch_table_knows_the_five_workers() {
    assert_eq!(lookup("check_url"), Some(WorkerId::CheckUrl));
    assert_eq!(lookup("load_avg"), Some(WorkerId::LoadAvg));
    assert_eq!(lookup("timethis"), Some(WorkerId::TimeThis));
    assert_eq!(lookup("runthis"), Some(WorkerId::RunThis));
    assert_eq!(lookup("df"), Some(WorkerId::Df));
    assert_eq!(lookup("query_api"), None);
    assert_eq!(lookup(""), None);
}

#[test]
fn sleep_aligns_to_the_next_second() {
    assert_eq!(sleep_nanos(1_500_000_000), 500_000_000);
    assert_eq!(sleep_nanos(2_000_000_000), 1_000_000_000);
    assert_eq!(sleep_nanos(999_999_999), 1);
}
