use vstd::prelude::*;

verus! {

/// Length of one pause between two looks at the stop flag, in milliseconds.
pub const TICK_MS: u64 = 1000;

/// What the driver of the scheduler must do next.
#[derive(Debug, PartialEq, Eq)]
pub enum SchedulerAction {
    /// Run one full round over the URL list.
    RunRound,
    /// Pause for this many milliseconds, then ask again.
    Sleep(u64),
    /// Stop: no further round.
    Exit,
}

/// Decides between rounds: a single round, or rounds every `period` seconds
/// until the stop flag is seen, looking at the flag before each one-second pause.
#[derive(Debug, Clone, Copy)]
pub struct Scheduler {
    pub period: Option<u64>,
    /// A round has run.
    pub started: bool,
    /// Seconds paused since the last round.
    pub slept: u64,
    pub finished: bool,
}

impl Scheduler {
    pub open spec fn wf(self) -> bool {
        &&& !self.started ==> self.slept == 0
        &&& self.period is Some ==> self.slept <= self.period->Some_0
        &&& self.period is None ==> self.slept == 0
    }

    /// The action owed when the stop flag reads `stop`.
    pub open spec fn action_for(self, stop: bool) -> SchedulerAction {
        match self.period {
            None => if self.started {
                SchedulerAction::Exit
            } else {
                SchedulerAction::RunRound
            },
            Some(p) => if stop {
                SchedulerAction::Exit
            } else if !self.started || self.slept >= p {
                SchedulerAction::RunRound
            } else {
                SchedulerAction::Sleep(TICK_MS)
            },
        }
    }

    /// The state once that action has been handed out.
    pub open spec fn next(self, stop: bool) -> Scheduler {
        match self.action_for(stop) {
            SchedulerAction::Exit => Scheduler { finished: true, ..self },
            SchedulerAction::RunRound => Scheduler { started: true, slept: 0, ..self },
            SchedulerAction::Sleep(_) => Scheduler { slept: (self.slept + 1) as u64, ..self },
        }
    }

    /// A scheduler before its first round; `period` in seconds, `None` for a single round.
    pub fn new(period: Option<u64>) -> (s: Scheduler)
        ensures
            s.wf(),
            s.period == period,
            !s.started,
            !s.finished,
    {
        Scheduler { period, started: false, slept: 0, finished: false }
    }

    /// Reads the stop flag's value and returns what to do next.
    pub fn step(&mut self, stop: bool) -> (a: SchedulerAction)
        requires
            old(self).wf(),
            !old(self).finished,
        ensures
            a == old(self).action_for(stop),
            *final(self) == old(self).next(stop),
            final(self).wf(),
    {
        match self.period {
            None => {
                if self.started {
                    self.finished = true;
                    SchedulerAction::Exit
                } else {
                    self.started = true;
                    SchedulerAction::RunRound
                }
            },
            Some(p) => {
                if stop {
                    self.finished = true;
                    SchedulerAction::Exit
                } else if !self.started || self.slept >= p {
                    self.started = true;
                    self.slept = 0;
                    SchedulerAction::RunRound
                } else {
                    self.slept = self.slept + 1;
                    SchedulerAction::Sleep(TICK_MS)
                }
            },
        }
    }
}

/// Once the stop flag is set, a periodic scheduler starts no further round:
/// the next look at the flag ends it, and it looks before every pause, each
/// of which lasts one tick.
pub proof fn lemma_stop_ends_schedule(s: Scheduler)
    requires
        s.wf(),
        s.period is Some,
    ensures
        s.action_for(true) == SchedulerAction::Exit,
        s.next(true).finished,
        s.action_for(false) is Sleep ==> s.action_for(false) == SchedulerAction::Sleep(TICK_MS),
{
}

/// Without a period exactly one round runs, and the schedule then ends,
/// whatever the stop flag reads.
pub proof fn lemma_single_round(s: Scheduler, first: bool, second: bool)
    requires
        s.period is None,
        !s.started,
    ensures
        s.action_for(first) == SchedulerAction::RunRound,
        s.next(first).action_for(second) == SchedulerAction::Exit,
{
}

/// Between two rounds a periodic scheduler pauses exactly `period` ticks
/// when nobody stops it: a round started, each further look pauses until
/// `period` pauses are done, and the next look starts a round.
pub proof fn lemma_period_between_rounds(s: Scheduler, k: u64)
    requires
        s.wf(),
        s.period is Some,
        s.started,
        s.slept == k,
    ensures
        k < s.period->Some_0 ==> s.action_for(false) == SchedulerAction::Sleep(TICK_MS)
            && s.next(false).slept == k + 1,
        k == s.period->Some_0 ==> s.action_for(false) == SchedulerAction::RunRound
            && s.next(false).slept == 0,
{
}

} // verus!
