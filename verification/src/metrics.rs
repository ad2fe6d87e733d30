//! Host CPU metrics, as the collector reports them: the global usage in
//! hundredths of a percent and the process count.
use vstd::prelude::*;

verus! {

/// One CPU sample.
#[derive(Clone, Copy, Debug, PartialEq, Eq, Structural)]
pub struct CpuMetrics {
    pub usage_pct: i64,
    pub process_count: usize,
}

impl CpuMetrics {
    /// A sample from the collector's readings.
    pub fn new(usage_pct: i64, process_count: usize) -> (r: CpuMetrics)
        ensures
            r.usage_pct == usage_pct,
            r.process_count == process_count,
    {
        CpuMetrics { usage_pct, process_count }
    }

    /// The usage, in hundredths of a percent.
    pub fn usage_pct(&self) -> (r: i64)
        ensures
            r == self.usage_pct,
    {
        self.usage_pct
    }

    /// How many processes were running.
    pub fn process_count(&self) -> (r: usize)
        ensures
            r == self.process_count,
    {
        self.process_count
    }
}

} // verus!
