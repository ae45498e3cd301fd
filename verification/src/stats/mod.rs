use vstd::prelude::*;

pub mod cgroups;
pub mod malloc;
pub mod procmaps;
pub mod smaps;

verus! {

/// Coarse allocation counters: bytes and objects allocated and freed.
#[derive(Clone, Copy, Debug, Default, PartialEq, Eq)]
pub struct Allocations {
    pub allocated: u64,
    pub freed: u64,
    pub allocations: u64,
    pub frees: u64,
}

/// `a - b`, or zero when `b` exceeds `a`.
pub open spec fn sat_sub(a: int, b: int) -> int {
    if a >= b { a - b } else { 0 }
}

impl Allocations {
    /// Bytes still live: allocated minus freed, floored at zero.
    pub fn in_use_bytes(&self) -> (r: u64)
        ensures
            r == sat_sub(self.allocated as int, self.freed as int),
    {
        self.allocated.saturating_sub(self.freed)
    }

    /// Allocations still live: allocation count minus free count, floored at zero.
    pub fn in_use_allocations(&self) -> (r: u64)
        ensures
            r == sat_sub(self.allocations as int, self.frees as int),
    {
        self.allocations.saturating_sub(self.frees)
    }
}

/// One exported metric: its name, help text, value, and whether it is a
/// counter (else a gauge).
#[derive(Debug, Clone, Copy, PartialEq, Eq)]
pub struct Metric {
    pub name: &'static str,
    pub help: &'static str,
    pub value: u64,
    pub counter: bool,
}

/// A metric with its texts taken by their characters.
pub ghost struct MetricView {
    pub name: Seq<char>,
    pub help: Seq<char>,
    pub value: u64,
    pub counter: bool,
}

impl View for Metric {
    type V = MetricView;

    open spec fn view(&self) -> MetricView {
        MetricView { name: self.name@, help: self.help@, value: self.value, counter: self.counter }
    }
}

/// The views of a sequence of metrics.
pub open spec fn metric_views(v: Seq<Metric>) -> Seq<MetricView> {
    v.map_values(|m: Metric| m@)
}

impl Metric {
    /// A gauge.
    pub fn gauge(name: &'static str, help: &'static str, value: u64) -> (r: Metric)
        ensures
            r@ == (MetricView { name: name@, help: help@, value, counter: false }),
    {
        Metric { name, help, value, counter: false }
    }

    /// A counter.
    pub fn counter(name: &'static str, help: &'static str, value: u64) -> (r: Metric)
        ensures
            r@ == (MetricView { name: name@, help: help@, value, counter: true }),
    {
        Metric { name, help, value, counter: true }
    }
}

} // verus!
