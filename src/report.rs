use vstd::prelude::*;
use crate::outcome::{FetchOutcome, is_success, elapsed_of};

verus! {

/// Counts of a run's latest outcomes and the mean time of its successes.
#[derive(Clone, Copy, Debug, PartialEq, Eq)]
pub struct Summary {
    pub succeeded: usize,
    pub failed: usize,
    /// Targets that no round reached.
    pub unattempted: usize,
    /// Mean milliseconds over the successes, rounded down; `None` when there
    /// is no success, where the mean is undefined.
    pub mean_latency_ms: Option<u64>,
}

pub open spec fn succeeded_in(s: Seq<Option<FetchOutcome>>) -> nat
    decreases s.len(),
{
    if s.len() == 0 {
        0
    } else {
        let n = s.len() - 1;
        succeeded_in(s.take(n)) + if s[n] is Some && is_success(s[n].unwrap()) { 1nat } else { 0nat }
    }
}

pub open spec fn failed_in(s: Seq<Option<FetchOutcome>>) -> nat
    decreases s.len(),
{
    if s.len() == 0 {
        0
    } else {
        let n = s.len() - 1;
        failed_in(s.take(n)) + if s[n] is Some && !is_success(s[n].unwrap()) { 1nat } else { 0nat }
    }
}

/// The sum of the elapsed milliseconds of the successes.
pub open spec fn success_time_in(s: Seq<Option<FetchOutcome>>) -> nat
    decreases s.len(),
{
    if s.len() == 0 {
        0
    } else {
        let n = s.len() - 1;
        success_time_in(s.take(n)) + if s[n] is Some && is_success(s[n].unwrap()) {
            elapsed_of(s[n].unwrap()) as nat
        } else {
            0nat
        }
    }
}

pub open spec fn mean_latency(s: Seq<Option<FetchOutcome>>) -> Option<u64> {
    if succeeded_in(s) == 0 {
        None
    } else {
        Some((success_time_in(s) / succeeded_in(s)) as u64)
    }
}

pub open spec fn summary_of(s: Seq<Option<FetchOutcome>>) -> Summary {
    Summary {
        succeeded: succeeded_in(s) as usize,
        failed: failed_in(s) as usize,
        unattempted: (s.len() - succeeded_in(s) - failed_in(s)) as usize,
        mean_latency_ms: mean_latency(s),
    }
}

proof fn lemma_counts_bounded(s: Seq<Option<FetchOutcome>>)
    ensures
        succeeded_in(s) + failed_in(s) <= s.len(),
        success_time_in(s) <= succeeded_in(s) * 0xffff_ffff_ffff_ffffnat,
    decreases s.len(),
{
    if s.len() > 0 {
        lemma_counts_bounded(s.take(s.len() - 1));
    }
}

/// Reduces the latest outcomes of a run to its counts and mean latency.
pub fn summarize(outcomes: &Vec<Option<FetchOutcome>>) -> (r: Summary)
    ensures
        r == summary_of(outcomes@),
{
    let n = outcomes.len();
    let mut ok: usize = 0;
    let mut bad: usize = 0;
    let mut total: u128 = 0;
    let mut j: usize = 0;
    while j < n
        invariant
            j <= n,
            n == outcomes@.len(),
            ok == succeeded_in(outcomes@.take(j as int)),
            bad == failed_in(outcomes@.take(j as int)),
            total == success_time_in(outcomes@.take(j as int)),
            ok + bad <= j,
            total <= ok * 0xffff_ffff_ffff_ffffnat,
        decreases n - j,
    {
        assert(outcomes@.take(j + 1).take(j as int) =~= outcomes@.take(j as int));
        match &outcomes[j] {
            Some(o) => {
                if o.is_success() {
                    total = total + o.elapsed_ms() as u128;
                    ok = ok + 1;
                } else {
                    bad = bad + 1;
                }
            },
            None => {},
        }
        j += 1;
    }
    assert(outcomes@.take(n as int) =~= outcomes@);
    let mean = if ok == 0 {
        None
    } else {
        let m = total / (ok as u128);
        assert(m <= 0xffff_ffff_ffff_ffffnat) by (nonlinear_arith)
            requires
                m == total / (ok as u128),
                total <= ok * 0xffff_ffff_ffff_ffffnat,
                ok > 0,
        ;
        Some(m as u64)
    };
    Summary { succeeded: ok, failed: bad, unattempted: n - ok - bad, mean_latency_ms: mean }
}

} // verus!
