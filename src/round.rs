use vstd::prelude::*;
use crate::probe::ProbeStep;

verus! {

broadcast use vstd::seq_lib::group_to_multiset_ensures;

/// A moment as seconds and nanoseconds since the Unix epoch, UTC.
#[derive(Debug, Clone, Copy)]
pub struct Timestamp {
    pub secs: i64,
    pub nanos: u32,
}

impl Timestamp {
    pub open spec fn wf(self) -> bool {
        self.nanos < 1_000_000_000
    }

    pub fn new(secs: i64, nanos: u32) -> (t: Timestamp)
        requires
            nanos < 1_000_000_000,
        ensures
            t.secs == secs,
            t.nanos == nanos,
            t.wf(),
    {
        Timestamp { secs, nanos }
    }
}

/// The result of probing one URL in one round.
#[derive(Debug)]
pub struct WebsiteStatus {
    pub url: String,
    /// `Ok(code)` when a response arrived, `Err(message)` of the last attempt otherwise.
    pub status: Result<u16, String>,
    /// Duration of the whole probe, retries and pauses included, in milliseconds.
    pub elapsed_ms: u64,
    /// When the probe concluded.
    pub observed_at: Timestamp,
}

impl WebsiteStatus {
    /// The record of a probe whose final step was `step`; `None` while the
    /// probe still owes attempts.
    pub fn from_step(url: String, step: ProbeStep, elapsed_ms: u64, observed_at: Timestamp) -> (r: Option<WebsiteStatus>)
        ensures
            step is RetryAfter <==> r is None,
            step is Finished ==> r == Some(WebsiteStatus { url, status: Ok(step->Finished_0), elapsed_ms, observed_at }),
            step is GiveUp ==> r == Some(WebsiteStatus { url, status: Err(step->GiveUp_1), elapsed_ms, observed_at }),
    {
        match step {
            ProbeStep::Finished(code) => Some(WebsiteStatus { url, status: Ok(code), elapsed_ms, observed_at }),
            ProbeStep::GiveUp(_, msg) => Some(WebsiteStatus { url, status: Err(msg), elapsed_ms, observed_at }),
            ProbeStep::RetryAfter(_) => None,
        }
    }
}

/// A unit of work handed from the scheduler to a worker.
#[derive(Debug)]
pub enum Job {
    Check(String),
    Quit,
}

/// What a worker does with the job it has just taken.
#[derive(Debug, PartialEq, Eq)]
pub enum WorkerAction {
    Probe(String),
    Terminate,
}

pub fn worker_action(job: Job) -> (a: WorkerAction)
    ensures
        job is Check ==> a == WorkerAction::Probe(job->Check_0),
        job is Quit ==> a == WorkerAction::Terminate,
{
    match job {
        Job::Check(url) => WorkerAction::Probe(url),
        Job::Quit => WorkerAction::Terminate,
    }
}

/// The jobs of one round, in the order they are queued: one check per URL in
/// input order, then one quit per worker.
pub fn round_jobs(urls: &Vec<String>, workers: usize) -> (jobs: Vec<Job>)
    requires
        urls.len() + workers <= usize::MAX,
    ensures
        jobs.len() == urls.len() + workers,
        forall|i: int| 0 <= i < urls.len() ==> #[trigger] jobs@[i] == Job::Check(urls@[i]),
        forall|i: int| urls.len() <= i < jobs.len() ==> #[trigger] jobs@[i] is Quit,
{
    let mut jobs: Vec<Job> = Vec::new();
    let mut i: usize = 0;
    while i < urls.len()
        invariant
            i <= urls.len(),
            jobs.len() == i,
            forall|j: int| 0 <= j < i ==> #[trigger] jobs@[j] == Job::Check(urls@[j]),
        decreases urls.len() - i,
    {
        jobs.push(Job::Check(urls[i].clone()));
        i = i + 1;
    }
    let mut q: usize = 0;
    while q < workers
        invariant
            q <= workers,
            urls.len() + workers <= usize::MAX,
            jobs.len() == urls.len() + q,
            forall|j: int| 0 <= j < urls.len() ==> #[trigger] jobs@[j] == Job::Check(urls@[j]),
            forall|j: int| urls.len() <= j < jobs.len() ==> #[trigger] jobs@[j] is Quit,
        decreases workers - q,
    {
        jobs.push(Job::Quit);
        q = q + 1;
    }
    jobs
}

/// The text of each URL in `s`.
pub open spec fn url_views(s: Seq<String>) -> Seq<Seq<char>> {
    s.map_values(|u: String| u@)
}

/// The URL of each result in `s`.
pub open spec fn result_urls(s: Seq<WebsiteStatus>) -> Seq<Seq<char>> {
    s.map_values(|r: WebsiteStatus| r.url@)
}

/// The round owner's intake: it takes one result per submitted URL, in
/// whatever order the workers finish, and knows when the round is complete.
pub struct RoundCollector {
    /// Submitted URLs whose result has not arrived yet.
    pub pending: Vec<String>,
    /// Results received so far, in order of arrival.
    pub results: Vec<WebsiteStatus>,
    /// Every URL submitted for the round.
    pub submitted: Ghost<Seq<Seq<char>>>,
}

impl RoundCollector {
    /// Every submitted URL is either pending or has exactly its result.
    pub open spec fn wf(self) -> bool {
        result_urls(self.results@).to_multiset().add(url_views(self.pending@).to_multiset())
            == self.submitted@.to_multiset()
    }

    pub open spec fn complete(self) -> bool {
        self.pending.len() == 0
    }

    /// A collector expecting one result for each of `urls`.
    pub fn new(urls: &Vec<String>) -> (c: RoundCollector)
        ensures
            c.wf(),
            c.submitted@ == url_views(urls@),
            c.pending@ == urls@,
            c.results@.len() == 0,
    {
        let mut pending: Vec<String> = Vec::new();
        let mut i: usize = 0;
        while i < urls.len()
            invariant
                i <= urls.len(),
                pending@ == urls@.take(i as int),
            decreases urls.len() - i,
        {
            pending.push(urls[i].clone());
            i = i + 1;
            assert(pending@ =~= urls@.take(i as int));
        }
        assert(pending@ =~= urls@);
        let results: Vec<WebsiteStatus> = Vec::new();
        let c = RoundCollector { pending, results, submitted: Ghost(url_views(urls@)) };
        assert(result_urls(c.results@) =~= Seq::<Seq<char>>::empty());
        assert(result_urls(c.results@).to_multiset().add(url_views(c.pending@).to_multiset())
            =~= url_views(c.pending@).to_multiset());
        c
    }

    /// Takes a worker's result. It is accepted when its URL is still pending
    /// (one result per submitted URL); anything else is refused and changes nothing.
    pub fn deliver(&mut self, r: WebsiteStatus) -> (accepted: bool)
        requires
            old(self).wf(),
        ensures
            final(self).wf(),
            final(self).submitted == old(self).submitted,
            accepted == url_views(old(self).pending@).contains(r.url@),
            accepted ==> final(self).results@ == old(self).results@.push(r),
            accepted ==> url_views(final(self).pending@).to_multiset()
                == url_views(old(self).pending@).to_multiset().remove(r.url@),
            !accepted ==> final(self).results@ == old(self).results@
                && final(self).pending@ == old(self).pending@,
    {
        let ghost old_pending = self.pending@;
        let ghost old_results = self.results@;
        let mut i: usize = 0;
        while i < self.pending.len()
            invariant
                i <= self.pending.len(),
                old_pending == old(self).pending@,
                old_results == old(self).results@,
                self.pending@ == old_pending,
                self.results@ == old_results,
                self.submitted == old(self).submitted,
                self.wf(),
                forall|j: int| 0 <= j < i ==> old_pending[j]@ != r.url@,
            decreases self.pending.len() - i,
        {
            if self.pending[i] == r.url {
                let ghost u = r.url@;
                self.pending.remove(i);
                self.results.push(r);
                proof {
                    assert(url_views(self.pending@) =~= url_views(old_pending).remove(i as int));
                    vstd::seq_lib::to_multiset_remove(url_views(old_pending), i as int);
                    assert(result_urls(self.results@) =~= result_urls(old_results).push(u));
                    assert(url_views(old_pending)[i as int] == u);
                    assert(url_views(old_pending).contains(u));
                    assert(result_urls(self.results@).to_multiset().add(url_views(self.pending@).to_multiset())
                        =~= result_urls(old_results).to_multiset().add(url_views(old_pending).to_multiset()));
                }
                return true;
            }
            i = i + 1;
        }
        assert(!url_views(old_pending).contains(r.url@));
        false
    }

    pub fn is_complete(&self) -> (b: bool)
        ensures
            b == self.complete(),
    {
        self.pending.len() == 0
    }

    /// The round's results, once every submitted URL has its result.
    pub fn into_results(self) -> (rs: Vec<WebsiteStatus>)
        requires
            self.wf(),
            self.complete(),
        ensures
            rs@ == self.results@,
            result_urls(rs@).to_multiset() == self.submitted@.to_multiset(),
            rs.len() == self.submitted@.len(),
    {
        proof { lemma_complete_round(self); }
        self.results
    }
}

/// A complete round holds exactly one result per submitted URL: the URLs of
/// the results are the submitted URLs as a multiset, and as many.
pub proof fn lemma_complete_round(c: RoundCollector)
    requires
        c.wf(),
        c.complete(),
    ensures
        result_urls(c.results@).to_multiset() == c.submitted@.to_multiset(),
        c.results@.len() == c.submitted@.len(),
{
    assert(url_views(c.pending@) =~= Seq::<Seq<char>>::empty());
    assert(result_urls(c.results@).to_multiset().add(url_views(c.pending@).to_multiset())
        =~= result_urls(c.results@).to_multiset());
    assert(result_urls(c.results@).to_multiset().len() == result_urls(c.results@).len());
    assert(c.submitted@.to_multiset().len() == c.submitted@.len());
}

} // verus!
