use vstd::prelude::*;
use crate::round::WebsiteStatus;

verus! {

/// Round statistics over the results of one round.
#[derive(Debug, Clone, Copy)]
pub struct RoundSummary {
    /// Number of results.
    pub total: usize,
    /// Results that received a response with a status below 400.
    pub success_count: usize,
    /// Sum of the elapsed milliseconds of those results.
    pub success_millis: u128,
    /// Their mean elapsed milliseconds, rounded down; 0 when there are none.
    pub average_success_millis: u64,
}

/// A result that counts as up: a response arrived and its status is below 400.
pub open spec fn qualifies(r: WebsiteStatus) -> bool {
    r.status is Ok && r.status->Ok_0 < 400
}

pub open spec fn success_count_of(s: Seq<WebsiteStatus>) -> nat
    decreases s.len(),
{
    if s.len() == 0 {
        0
    } else {
        success_count_of(s.drop_last()) + if qualifies(s.last()) { 1nat } else { 0nat }
    }
}

pub open spec fn success_millis_of(s: Seq<WebsiteStatus>) -> nat
    decreases s.len(),
{
    if s.len() == 0 {
        0
    } else {
        success_millis_of(s.drop_last()) + if qualifies(s.last()) { s.last().elapsed_ms as nat } else { 0nat }
    }
}

/// The statistics that a list of results determines.
pub open spec fn summary_of(s: Seq<WebsiteStatus>) -> RoundSummary {
    let n = success_count_of(s);
    let ms = success_millis_of(s);
    RoundSummary {
        total: s.len() as usize,
        success_count: n as usize,
        success_millis: ms as u128,
        average_success_millis: if n == 0 { 0 } else { (ms / n) as u64 },
    }
}

proof fn lemma_bounds(s: Seq<WebsiteStatus>)
    ensures
        success_count_of(s) <= s.len(),
        success_millis_of(s) <= success_count_of(s) * (u64::MAX as nat),
    decreases s.len(),
{
    if s.len() > 0 {
        lemma_bounds(s.drop_last());
    }
}

/// Computes the round statistics of `results`, whatever their order of arrival.
pub fn summarize(results: &Vec<WebsiteStatus>) -> (r: RoundSummary)
    ensures
        r == summary_of(results@),
{
    let mut count: usize = 0;
    let mut sum: u128 = 0;
    let mut i: usize = 0;
    while i < results.len()
        invariant
            i <= results.len(),
            count == success_count_of(results@.take(i as int)),
            sum == success_millis_of(results@.take(i as int)),
            count <= i,
            sum <= count * (u64::MAX as nat),
        decreases results.len() - i,
    {
        let r = &results[i];
        proof {
            assert(results@.take(i as int + 1).drop_last() =~= results@.take(i as int));
        }
        let up = match r.status {
            Ok(code) => code < 400,
            Err(_) => false,
        };
        if up {
            proof {
                assert((count + 1) * (u64::MAX as nat) == count * (u64::MAX as nat) + u64::MAX) by (nonlinear_arith);
                assert((count + 1) * (u64::MAX as nat) <= u128::MAX) by (nonlinear_arith)
                    requires count < usize::MAX;
            }
            count = count + 1;
            sum = sum + r.elapsed_ms as u128;
        }
        i = i + 1;
    }
    assert(results@.take(results.len() as int) =~= results@);
    let average: u64 = if count == 0 {
        0
    } else {
        proof {
            vstd::arithmetic::div_mod::lemma_div_is_ordered(sum as int, count * (u64::MAX as int), count as int);
            vstd::arithmetic::div_mod::lemma_div_by_multiple(u64::MAX as int, count as int);
            assert(count * (u64::MAX as int) == (u64::MAX as int) * count) by (nonlinear_arith);
        }
        (sum / count as u128) as u64
    };
    RoundSummary { total: results.len(), success_count: count, success_millis: sum, average_success_millis: average }
}

impl RoundSummary {
    /// Uptime as an exact fraction: `100 * success_count` over the total,
    /// the total counted as 1 for an empty round.
    pub fn uptime_fraction(&self) -> (f: (u128, u128))
        ensures
            f.0 == 100 * self.success_count,
            f.1 == if self.total == 0 { 1 } else { self.total as int },
    {
        let den: u128 = if self.total == 0 {
            1
        } else {
            self.total as u128
        };
        (100 * self.success_count as u128, den)
    }
}

proof fn lemma_concat(a: Seq<WebsiteStatus>, b: Seq<WebsiteStatus>)
    ensures
        success_count_of(a + b) == success_count_of(a) + success_count_of(b),
        success_millis_of(a + b) == success_millis_of(a) + success_millis_of(b),
    decreases b.len(),
{
    if b.len() > 0 {
        assert((a + b).drop_last() =~= a + b.drop_last());
        lemma_concat(a, b.drop_last());
    } else {
        assert(a + b =~= a);
    }
}

/// Uptime is full when every result qualifies, and nil when none does.
pub proof fn lemma_uptime_extremes(s: Seq<WebsiteStatus>)
    ensures
        (forall|i: int| 0 <= i < s.len() ==> qualifies(#[trigger] s[i])) ==> success_count_of(s) == s.len(),
        (forall|i: int| 0 <= i < s.len() ==> !qualifies(#[trigger] s[i])) ==> success_count_of(s) == 0
            && success_millis_of(s) == 0,
    decreases s.len(),
{
    if s.len() > 0 {
        let p = s.drop_last();
        assert(forall|i: int| 0 <= i < p.len() ==> p[i] == s[i]);
        lemma_uptime_extremes(p);
    }
}

/// A failure, or a response with a status of 400 or above, anywhere among
/// the results changes neither the success count nor the time averaged.
pub proof fn lemma_non_qualifying_ignored(a: Seq<WebsiteStatus>, r: WebsiteStatus, b: Seq<WebsiteStatus>)
    requires
        !qualifies(r),
    ensures
        success_count_of(a + seq![r] + b) == success_count_of(a + b),
        success_millis_of(a + seq![r] + b) == success_millis_of(a + b),
        summary_of(a + seq![r] + b).average_success_millis == summary_of(a + b).average_success_millis,
{
    lemma_concat(a, seq![r]);
    lemma_concat(a + seq![r], b);
    lemma_concat(a, b);
    let one = seq![r];
    assert(one.drop_last() =~= Seq::<WebsiteStatus>::empty());
    assert(one.last() == r);
    assert(one.len() == 1);
    assert(success_count_of(one.drop_last()) == 0);
    assert(success_millis_of(one.drop_last()) == 0);
    assert(success_count_of(one) == 0);
    assert(success_millis_of(one) == 0);
}

proof fn lemma_remove(s: Seq<WebsiteStatus>, i: int)
    requires
        0 <= i < s.len(),
    ensures
        success_count_of(s) == success_count_of(s.remove(i)) + success_count_of(seq![s[i]]),
        success_millis_of(s) == success_millis_of(s.remove(i)) + success_millis_of(seq![s[i]]),
{
    let a = s.take(i);
    let b = s.skip(i + 1);
    assert(s =~= a + seq![s[i]] + b);
    assert(s.remove(i) =~= a + b);
    lemma_concat(a, seq![s[i]]);
    lemma_concat(a + seq![s[i]], b);
    lemma_concat(a, b);
}

proof fn lemma_same_results(s: Seq<WebsiteStatus>, t: Seq<WebsiteStatus>)
    requires
        s.to_multiset() == t.to_multiset(),
    ensures
        s.len() == t.len(),
        success_count_of(s) == success_count_of(t),
        success_millis_of(s) == success_millis_of(t),
    decreases s.len(),
{
    broadcast use vstd::seq_lib::group_to_multiset_ensures;
    assert(s.to_multiset().len() == s.len());
    assert(t.to_multiset().len() == t.len());
    if s.len() == 0 {
        assert(s =~= t);
    } else {
        let x = s.last();
        assert(s.to_multiset().count(x) > 0);
        assert(t.contains(x));
        let j = choose|j: int| 0 <= j < t.len() && t[j] == x;
        let n = (s.len() - 1) as int;
        assert(s.remove(n) =~= s.drop_last());
        assert(s.drop_last().to_multiset() =~= s.to_multiset().remove(x));
        assert(t.remove(j).to_multiset() =~= t.to_multiset().remove(x));
        lemma_same_results(s.drop_last(), t.remove(j));
        lemma_remove(s, n);
        lemma_remove(t, j);
    }
}

/// The statistics depend on which results arrived, not on their order:
/// two lists holding the same results give the same summary.
pub proof fn lemma_order_irrelevant(s: Seq<WebsiteStatus>, t: Seq<WebsiteStatus>)
    requires
        s.to_multiset() == t.to_multiset(),
    ensures
        summary_of(s) == summary_of(t),
{
    lemma_same_results(s, t);
}

} // verus!
