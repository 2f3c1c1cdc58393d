use vstd::prelude::*;

verus! {

/// Settings of a health-check run, shared read-only by every worker.
#[derive(Debug, Clone, Copy)]
pub struct Config {
    /// Number of concurrent probing workers.
    pub workers: usize,
    /// Connect, read and write timeout of each attempt, in seconds.
    pub timeout_secs: u64,
    /// Attempts made after the first transport failure.
    pub retries: u8,
    /// Interval between rounds; `None` runs a single round.
    pub period_secs: Option<u64>,
}

impl Default for Config {
    fn default() -> (c: Config)
        ensures
            c.workers == 50,
            c.timeout_secs == 5,
            c.retries == 1,
            c.period_secs is None,
    {
        Config { workers: 50, timeout_secs: 5, retries: 1, period_secs: None }
    }
}

impl Config {
    /// The worker count a round actually uses: at least one.
    pub open spec fn effective_workers(self) -> usize {
        if self.workers == 0 {
            1
        } else {
            self.workers
        }
    }

    /// The same settings with a worker count of zero raised to one.
    pub fn normalized(self) -> (c: Config)
        ensures
            c.workers == self.effective_workers(),
            c.workers >= 1,
            c.timeout_secs == self.timeout_secs,
            c.retries == self.retries,
            c.period_secs == self.period_secs,
    {
        let workers: usize = if self.workers == 0 {
            1
        } else {
            self.workers
        };
        Config { workers, ..self }
    }
}

} // verus!
