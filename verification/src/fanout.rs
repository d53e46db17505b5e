//! Sink fan-out: every registered sink receives every measurement, in a
//! fixed order, and one sink's failure never keeps the others from running.
//! The concrete sinks (console, UDP line protocol, HTTP push) live outside
//! the library and plug in through the [`Sink`] trait.

use vstd::prelude::*;

use crate::metric::Metric;

verus! {

/// An output destination. `emit` reports failure by returning `false`;
/// what a sink does with a measurement is its own affair, and the
/// measurement is read-only to it.
pub trait Sink {
    /// Deliver one measurement; `true` on success.
    fn emit(&mut self, m: &Metric) -> bool;
}

/// Deliver `m` to every sink, first to last, regardless of failures, and
/// report per sink whether delivery succeeded. No failure is re-raised and
/// none stops the remaining sinks: the result always covers every sink.
pub fn fan_out<S: Sink>(sinks: &mut Vec<S>, m: &Metric) -> (delivered: Vec<bool>)
    ensures
        delivered@.len() == old(sinks)@.len(),
        final(sinks)@.len() == old(sinks)@.len(),
{
    let n = sinks.len();
    let mut delivered: Vec<bool> = Vec::new();
    let mut i: usize = 0;
    while i < n
        invariant
            n == sinks@.len(),
            i <= n,
            delivered@.len() == i,
        decreases n - i,
    {
        let mut s = sinks.remove(i);
        let ok = s.emit(m);
        sinks.insert(i, s);
        delivered.push(ok);
        i = i + 1;
    }
    delivered
}

} // verus!
