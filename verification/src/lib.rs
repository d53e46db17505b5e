//! A periodic metrics-collection agent's core: configuration resolution,
//! tick-aligned scheduling, worker dispatch, and sink fan-out.
//!
//! The surrounding process (file reading, command-line handling, the
//! concrete probe workers and output sinks) lives outside this crate; the
//! library holds the rules they follow and proves them: which probes a
//! configuration text resolves to, which probes run at which epoch, how a
//! worker's result is tied back to its probe, and when the loop stops.

pub mod cmdline;
pub mod dispatch;
pub mod fanout;
pub mod metric;
pub mod query;
pub mod resolver;
pub mod sched;
pub mod sinks;
pub mod strutil;
pub mod workers;
