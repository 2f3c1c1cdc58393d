use vstd::prelude::*;

verus! {

/// Fixed pause after each failed attempt, in milliseconds.
pub const RETRY_DELAY_MS: u64 = 150;

/// What one HTTP attempt produced.
pub enum AttemptOutcome {
    /// A complete response arrived, with this status code (any code, 4xx and 5xx included).
    Response(u16),
    /// The attempt failed below HTTP (timeout, refused connection, name resolution...).
    TransportError(String),
}

/// What the driver of a probe must do after reporting an attempt.
#[derive(Debug)]
pub enum ProbeStep {
    /// The probe is over: the endpoint answered with this status code.
    Finished(u16),
    /// Wait this many milliseconds, then make another attempt.
    RetryAfter(u64),
    /// Wait this many milliseconds, then report failure with this message.
    GiveUp(u64, String),
}

/// Progress of one probe (one URL, a first attempt plus up to `retries` more).
#[derive(Debug, Clone, Copy)]
pub struct ProbeState {
    pub retries: u8,
    /// Attempts reported so far.
    pub attempts: u16,
    /// Attempts among them that failed at the transport level.
    pub failures: u16,
    /// No further attempt is owed.
    pub done: bool,
}

/// The state of a probe before its first attempt.
pub open spec fn fresh(retries: u8) -> ProbeState {
    ProbeState { retries, attempts: 0, failures: 0, done: false }
}

/// The state after feeding `outcomes` in order; outcomes after the end of the probe are ignored.
pub open spec fn replay(s: ProbeState, outcomes: Seq<AttemptOutcome>) -> ProbeState
    decreases outcomes.len(),
{
    if outcomes.len() == 0 || s.done {
        s
    } else {
        replay(s.after(outcomes[0]), outcomes.drop_first())
    }
}

impl ProbeState {
    pub open spec fn wf(self) -> bool {
        &&& self.failures <= self.attempts
        &&& self.attempts <= self.retries + 1
        &&& !self.done ==> self.failures == self.attempts && self.attempts <= self.retries
        &&& self.done ==> (self.attempts == self.failures + 1 || self.failures == self.retries + 1)
    }

    /// Total pause the probe has asked for so far, in milliseconds.
    pub open spec fn waited(self) -> nat {
        (RETRY_DELAY_MS * self.failures) as nat
    }

    /// The step owed for `outcome` in this state.
    pub open spec fn step_for(self, outcome: AttemptOutcome) -> ProbeStep {
        match outcome {
            AttemptOutcome::Response(code) => ProbeStep::Finished(code),
            AttemptOutcome::TransportError(msg) => if self.attempts < self.retries {
                ProbeStep::RetryAfter(RETRY_DELAY_MS)
            } else {
                ProbeStep::GiveUp(RETRY_DELAY_MS, msg)
            },
        }
    }

    /// The state once `outcome` has been reported.
    pub open spec fn after(self, outcome: AttemptOutcome) -> ProbeState {
        match outcome {
            AttemptOutcome::Response(_) => ProbeState {
                attempts: (self.attempts + 1) as u16,
                done: true,
                ..self
            },
            AttemptOutcome::TransportError(_) => ProbeState {
                attempts: (self.attempts + 1) as u16,
                failures: (self.failures + 1) as u16,
                done: self.attempts >= self.retries,
                ..self
            },
        }
    }

    /// A probe that has made no attempt yet.
    pub fn new(retries: u8) -> (s: ProbeState)
        ensures
            s == fresh(retries),
            s.wf(),
    {
        ProbeState { retries, attempts: 0, failures: 0, done: false }
    }

    /// Reports the outcome of the attempt just made and says what to do next.
    /// A response of any status ends the probe; a transport failure asks for
    /// a pause, then another attempt while attempts remain, or the end.
    pub fn record(&mut self, outcome: AttemptOutcome) -> (step: ProbeStep)
        requires
            old(self).wf(),
            !old(self).done,
        ensures
            step == old(self).step_for(outcome),
            *final(self) == old(self).after(outcome),
            final(self).wf(),
    {
        match outcome {
            AttemptOutcome::Response(code) => {
                self.attempts = self.attempts + 1;
                self.done = true;
                ProbeStep::Finished(code)
            },
            AttemptOutcome::TransportError(msg) => {
                let last = self.attempts >= self.retries as u16;
                self.attempts = self.attempts + 1;
                self.failures = self.failures + 1;
                self.done = last;
                if last {
                    ProbeStep::GiveUp(RETRY_DELAY_MS, msg)
                } else {
                    ProbeStep::RetryAfter(RETRY_DELAY_MS)
                }
            },
        }
    }

    /// Total pause asked for so far, in milliseconds.
    pub fn waited_ms(&self) -> (ms: u64)
        requires
            self.wf(),
        ensures
            ms == self.waited(),
    {
        RETRY_DELAY_MS * self.failures as u64
    }
}

/// Transport failures fed to a probe that has seen only failures: it keeps
/// going until `retries + 1` attempts have been made, and no further.
proof fn lemma_failures_from(s: ProbeState, outcomes: Seq<AttemptOutcome>)
    requires
        s.wf(),
        !s.done,
        forall|i: int| 0 <= i < outcomes.len() ==> #[trigger] outcomes[i] is TransportError,
    ensures
        replay(s, outcomes).wf(),
        replay(s, outcomes).retries == s.retries,
        replay(s, outcomes).failures == replay(s, outcomes).attempts,
        s.attempts + outcomes.len() <= s.retries ==> replay(s, outcomes).attempts == s.attempts + outcomes.len()
            && !replay(s, outcomes).done,
        s.attempts + outcomes.len() > s.retries ==> replay(s, outcomes).attempts == s.retries + 1
            && replay(s, outcomes).done,
    decreases outcomes.len(),
{
    if outcomes.len() > 0 {
        let t = s.after(outcomes[0]);
        let rest = outcomes.drop_first();
        assert(forall|i: int| 0 <= i < rest.len() ==> rest[i] == outcomes[i + 1]);
        if !t.done {
            lemma_failures_from(t, rest);
        } else {
            assert(replay(t, rest) == t);
        }
    }
}

/// A probe of an endpoint that always fails at the transport level makes
/// exactly `retries + 1` attempts: it is still going after any shorter run of
/// failures, ends after that many, and its last step reports the last
/// failure's message after the fixed pause.
pub proof fn lemma_unreachable_endpoint(retries: u8, outcomes: Seq<AttemptOutcome>)
    requires
        outcomes.len() >= retries + 1,
        forall|i: int| 0 <= i < outcomes.len() ==> #[trigger] outcomes[i] is TransportError,
    ensures
        forall|k: int| 0 <= k <= retries ==> !(#[trigger] replay(fresh(retries), outcomes.take(k))).done
            && replay(fresh(retries), outcomes.take(k)).attempts == k,
        replay(fresh(retries), outcomes).attempts == retries + 1,
        replay(fresh(retries), outcomes).failures == retries + 1,
        replay(fresh(retries), outcomes).done,
        replay(fresh(retries), outcomes.take(retries as int)).step_for(outcomes[retries as int])
            == ProbeStep::GiveUp(RETRY_DELAY_MS, outcomes[retries as int]->TransportError_0),
{
    lemma_failures_from(fresh(retries), outcomes);
    assert forall|k: int| 0 <= k <= retries implies !(#[trigger] replay(fresh(retries), outcomes.take(k))).done
        && replay(fresh(retries), outcomes.take(k)).attempts == k by {
        let p = outcomes.take(k);
        assert(forall|i: int| 0 <= i < p.len() ==> p[i] == outcomes[i]);
        lemma_failures_from(fresh(retries), p);
    }
    let p = outcomes.take(retries as int);
    assert(forall|i: int| 0 <= i < p.len() ==> p[i] == outcomes[i]);
    lemma_failures_from(fresh(retries), p);
    let last = replay(fresh(retries), p);
    assert(!last.done && last.attempts == retries);
    let o = outcomes[retries as int];
    assert(o is TransportError);
}

/// An endpoint that answers the first attempt ends the probe at once with
/// its status code, whatever the number of retries allowed.
pub proof fn lemma_immediate_response(retries: u8, code: u16)
    ensures
        fresh(retries).step_for(AttemptOutcome::Response(code)) == ProbeStep::Finished(code),
        fresh(retries).after(AttemptOutcome::Response(code)).done,
        fresh(retries).after(AttemptOutcome::Response(code)).attempts == 1,
        fresh(retries).after(AttemptOutcome::Response(code)).waited() == 0,
{
}

/// A probe that answers after `r` transport failures has asked for exactly
/// `r` pauses of the fixed delay before its success.
pub proof fn lemma_wait_before_success(retries: u8, failures: Seq<AttemptOutcome>, code: u16)
    requires
        failures.len() <= retries,
        forall|i: int| 0 <= i < failures.len() ==> #[trigger] failures[i] is TransportError,
    ensures
        ({
            let before = replay(fresh(retries), failures);
            &&& !before.done
            &&& before.step_for(AttemptOutcome::Response(code)) == ProbeStep::Finished(code)
            &&& before.after(AttemptOutcome::Response(code)).done
            &&& before.after(AttemptOutcome::Response(code)).attempts == failures.len() + 1
            &&& before.after(AttemptOutcome::Response(code)).waited() == RETRY_DELAY_MS * failures.len()
        }),
{
    lemma_failures_from(fresh(retries), failures);
}

} // verus!
