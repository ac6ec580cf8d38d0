use vstd::prelude::*;
use crate::outcome::{FetchOutcome, is_success};
use crate::report::{Summary, summarize, summary_of};

verus! {

/// Where a run of rounds stands.
#[derive(Clone, Copy, Debug, PartialEq, Eq, Structural)]
pub enum RunStatus {
    /// Some targets still wait for a round, and rounds are left.
    Running,
    /// No target waits: every target has succeeded.
    Succeeded,
    /// Every round allowed has run and some targets still fail.
    PartialFailure,
}

/// The mathematical state of a run: targets, the rounds allowed and run so
/// far, the working set (indices of targets, ascending), and for each target
/// how many attempts it has had and its latest outcome.
pub struct RunView {
    pub targets: Seq<Seq<char>>,
    pub limit: nat,
    pub rounds: nat,
    pub working: Seq<usize>,
    pub attempts: Seq<nat>,
    pub last: Seq<Option<FetchOutcome>>,
}

pub open spec fn strictly_increasing(w: Seq<usize>) -> bool {
    forall|a: int, b: int| 0 <= a < b < w.len() ==> w[a] < w[b]
}

/// The outcome that a round gives target `i`: the one at the first position
/// of the working set `w` that holds `i`, if any.
pub open spec fn outcome_for(w: Seq<usize>, o: Seq<FetchOutcome>, i: int) -> Option<FetchOutcome>
    decreases w.len(),
{
    if w.len() == 0 || o.len() == 0 {
        None
    } else if w[0] as int == i {
        Some(o[0])
    } else {
        outcome_for(w.subrange(1, w.len() as int), o.subrange(1, o.len() as int), i)
    }
}

/// The targets of `w` whose outcome in `o` (by position) is a failure, in order.
pub open spec fn failed_of(w: Seq<usize>, o: Seq<FetchOutcome>) -> Seq<usize>
    decreases w.len(),
{
    if w.len() == 0 {
        Seq::empty()
    } else {
        let n = w.len() - 1;
        let p = failed_of(w.take(n), o.take(n));
        if !is_success(o[n]) {
            p.push(w[n])
        } else {
            p
        }
    }
}

impl RunView {
    pub open spec fn len(self) -> nat {
        self.targets.len()
    }

    /// The run before its first round: every target waits, none has an outcome.
    pub open spec fn initial(targets: Seq<Seq<char>>, limit: nat) -> RunView {
        RunView {
            targets,
            limit,
            rounds: 0,
            working: Seq::new(targets.len(), |i: int| i as usize),
            attempts: Seq::new(targets.len(), |i: int| 0nat),
            last: Seq::new(targets.len(), |i: int| None),
        }
    }

    pub open spec fn status(self) -> RunStatus {
        if self.working.len() == 0 {
            RunStatus::Succeeded
        } else if self.rounds < self.limit {
            RunStatus::Running
        } else {
            RunStatus::PartialFailure
        }
    }

    /// A target waits exactly when it has had every round so far and failed
    /// the latest; one that has missed a round succeeded before it.
    pub open spec fn wf(self) -> bool {
        &&& self.len() <= usize::MAX
        &&& self.attempts.len() == self.len()
        &&& self.last.len() == self.len()
        &&& self.rounds <= self.limit
        &&& strictly_increasing(self.working)
        &&& forall|k: int| 0 <= k < self.working.len() ==> self.working[k] < self.len()
        &&& forall|i: int|
            0 <= i < self.len() ==> {
                &&& self.attempts[i] <= self.rounds
                &&& (self.rounds > 0 ==> self.attempts[i] >= 1)
                &&& (self.last[i] is Some <==> self.attempts[i] > 0)
                &&& (self.attempts[i] < self.rounds ==> self.last[i] is Some && is_success(
                    self.last[i].unwrap(),
                ))
                &&& (self.working.contains(i as usize) <==> (self.attempts[i] == self.rounds && (
                self.rounds == 0 || !is_success(self.last[i].unwrap()))))
            }
    }

    /// One round: each waiting target takes the outcome at its position in
    /// `o`, and the next working set is the targets that failed.
    pub open spec fn next_round(self, o: Seq<FetchOutcome>) -> RunView {
        RunView {
            targets: self.targets,
            limit: self.limit,
            rounds: self.rounds + 1,
            working: failed_of(self.working, o),
            attempts: Seq::new(
                self.len(),
                |i: int|
                    if outcome_for(self.working, o, i) is Some {
                        self.attempts[i] + 1
                    } else {
                        self.attempts[i]
                    },
            ),
            last: Seq::new(
                self.len(),
                |i: int|
                    if outcome_for(self.working, o, i) is Some {
                        outcome_for(self.working, o, i)
                    } else {
                        self.last[i]
                    },
            ),
        }
    }
}

proof fn lemma_outcome_for_at(w: Seq<usize>, o: Seq<FetchOutcome>, k: int)
    requires
        o.len() == w.len(),
        strictly_increasing(w),
        0 <= k < w.len(),
    ensures
        outcome_for(w, o, w[k] as int) == Some(o[k]),
    decreases k,
{
    if k > 0 {
        let w1 = w.subrange(1, w.len() as int);
        let o1 = o.subrange(1, o.len() as int);
        assert(w1[k - 1] == w[k]);
        lemma_outcome_for_at(w1, o1, k - 1);
    }
}

proof fn lemma_outcome_for_absent(w: Seq<usize>, o: Seq<FetchOutcome>, i: int)
    requires
        forall|k: int| 0 <= k < w.len() ==> w[k] as int != i,
    ensures
        outcome_for(w, o, i) is None,
    decreases w.len(),
{
    if w.len() > 0 && o.len() > 0 {
        let w1 = w.subrange(1, w.len() as int);
        assert forall|k: int| 0 <= k < w1.len() implies w1[k] as int != i by {
            assert(w1[k] == w[k + 1]);
        }
        lemma_outcome_for_absent(w1, o.subrange(1, o.len() as int), i);
    }
}

proof fn lemma_failed_of(w: Seq<usize>, o: Seq<FetchOutcome>)
    requires
        o.len() == w.len(),
    ensures
        forall|x: usize|
            failed_of(w, o).contains(x) <==> exists|k: int|
                0 <= k < w.len() && w[k] == x && !is_success(o[k]),
        strictly_increasing(w) ==> strictly_increasing(failed_of(w, o)),
    decreases w.len(),
{
    if w.len() > 0 {
        let n = w.len() - 1;
        let wp = w.take(n);
        let op = o.take(n);
        lemma_failed_of(wp, op);
        let p = failed_of(wp, op);
        assert forall|x: usize|
            failed_of(w, o).contains(x) <==> exists|k: int|
                0 <= k < w.len() && w[k] == x && !is_success(o[k]) by {
            if failed_of(w, o).contains(x) {
                if p.contains(x) {
                    let k = choose|k: int| 0 <= k < wp.len() && wp[k] == x && !is_success(op[k]);
                    assert(w[k] == x && !is_success(o[k]));
                } else {
                    assert(failed_of(w, o) == p.push(w[n]));
                    let j = choose|j: int| 0 <= j < failed_of(w, o).len() && failed_of(w, o)[j] == x;
                    assert(j == p.len());
                    assert(w[n] == x && !is_success(o[n]));
                }
            }
            if exists|k: int| 0 <= k < w.len() && w[k] == x && !is_success(o[k]) {
                let k = choose|k: int| 0 <= k < w.len() && w[k] == x && !is_success(o[k]);
                if k < n {
                    assert(wp[k] == x && !is_success(op[k]));
                    assert(p.contains(x));
                    let j = choose|j: int| 0 <= j < p.len() && p[j] == x;
                    if !is_success(o[n]) {
                        assert(failed_of(w, o) == p.push(w[n]));
                        assert(p.push(w[n])[j] == x);
                    }
                } else {
                    assert(failed_of(w, o) == p.push(w[n]));
                    assert(p.push(w[n])[p.len() as int] == x);
                }
            }
        }
        if strictly_increasing(w) && !is_success(o[n]) {
            assert(strictly_increasing(wp));
            let q = p.push(w[n]);
            assert forall|a: int, b: int| 0 <= a < b < q.len() implies q[a] < q[b] by {
                if b == p.len() {
                    assert(p.contains(q[a]));
                    let k = choose|k: int| 0 <= k < wp.len() && wp[k] == q[a] && !is_success(op[k]);
                    assert(w[k] < w[n]);
                }
            }
        }
    }
}

/// A round keeps the state well formed: a run never loses track of a target.
pub proof fn lemma_next_round_wf(v: RunView, o: Seq<FetchOutcome>)
    requires
        v.wf(),
        v.status() == RunStatus::Running,
        o.len() == v.working.len(),
    ensures
        v.next_round(o).wf(),
{
    let n = v.next_round(o);
    lemma_failed_of(v.working, o);
    assert forall|k: int| 0 <= k < n.working.len() implies n.working[k] < n.len() by {
        assert(n.working.contains(n.working[k]));
    }
    assert forall|i: int| 0 <= i < n.len() implies {
        &&& n.attempts[i] <= n.rounds
        &&& (n.rounds > 0 ==> n.attempts[i] >= 1)
        &&& (n.last[i] is Some <==> n.attempts[i] > 0)
        &&& (n.attempts[i] < n.rounds ==> n.last[i] is Some && is_success(n.last[i].unwrap()))
        &&& (n.working.contains(i as usize) <==> (n.attempts[i] == n.rounds && (n.rounds == 0
            || !is_success(n.last[i].unwrap()))))
    } by {
        if v.working.contains(i as usize) {
            let k = choose|k: int| 0 <= k < v.working.len() && v.working[k] == i as usize;
            lemma_outcome_for_at(v.working, o, k);
            assert(n.last[i] == Some(o[k]));
            if !is_success(o[k]) {
                assert(n.working.contains(i as usize));
            } else {
                if n.working.contains(i as usize) {
                    let k2 = choose|k2: int|
                        0 <= k2 < v.working.len() && v.working[k2] == i as usize && !is_success(
                            o[k2],
                        );
                    assert(k2 == k);
                }
            }
        } else {
            lemma_outcome_for_absent(v.working, o, i);
            assert(v.attempts[i] <= v.rounds);
            if v.rounds == 0 {
                assert(v.working.contains(i as usize));
            }
            assert(!n.working.contains(i as usize));
        }
    }
}

/// A target that has succeeded keeps its outcome through every later round:
/// the latest outcome wins, and a success is never attempted again.
pub proof fn lemma_success_is_kept(v: RunView, o: Seq<FetchOutcome>, i: int)
    requires
        v.wf(),
        o.len() == v.working.len(),
        0 <= i < v.len(),
        v.last[i] is Some,
        is_success(v.last[i].unwrap()),
    ensures
        v.next_round(o).last[i] == v.last[i],
        v.next_round(o).attempts[i] == v.attempts[i],
{
    assert(v.attempts[i] <= v.rounds);
    if v.working.contains(i as usize) {
        assert(false);
    }
    lemma_outcome_for_absent(v.working, o, i);
}

/// A target that fails in one round and succeeds in the next ends that round
/// with the success as its outcome, and no longer waits.
pub proof fn lemma_retry_success_wins(v: RunView, o: Seq<FetchOutcome>, i: int)
    requires
        v.wf(),
        v.status() == RunStatus::Running,
        o.len() == v.working.len(),
        0 <= i < v.len(),
        v.working.contains(i as usize),
        is_success(outcome_for(v.working, o, i).unwrap()),
    ensures
        v.next_round(o).last[i] == outcome_for(v.working, o, i),
        is_success(v.next_round(o).last[i].unwrap()),
        !v.next_round(o).working.contains(i as usize),
{
    lemma_next_round_wf(v, o);
    let k = choose|k: int| 0 <= k < v.working.len() && v.working[k] == i as usize;
    lemma_outcome_for_at(v.working, o, k);
    let n = v.next_round(o);
    assert(n.attempts[i] == n.rounds);
}

/// A run that ends in partial failure has given every target that still
/// fails exactly as many attempts as the limit allows, and holds a failure
/// as its outcome; every other target holds a success.
pub proof fn lemma_exhausted_failures(v: RunView, i: int)
    requires
        v.wf(),
        v.status() == RunStatus::PartialFailure,
        v.limit > 0,
        0 <= i < v.len(),
    ensures
        v.working.contains(i as usize) ==> v.attempts[i] == v.limit && v.last[i] is Some
            && !is_success(v.last[i].unwrap()),
        !v.working.contains(i as usize) ==> v.last[i] is Some && is_success(v.last[i].unwrap()),
{
    assert(v.attempts[i] <= v.rounds);
    assert(v.working.contains(v.working[0]));
}

/// A round gives each target of its working set exactly the outcome at that
/// target's position, counts one attempt for it, and keeps one outcome slot
/// per target: no target is dropped or duplicated.
pub proof fn lemma_round_outcome_per_target(v: RunView, o: Seq<FetchOutcome>, k: int)
    requires
        v.wf(),
        o.len() == v.working.len(),
        0 <= k < v.working.len(),
    ensures
        v.next_round(o).last.len() == v.targets.len(),
        v.next_round(o).attempts.len() == v.targets.len(),
        v.next_round(o).last[v.working[k] as int] == Some(o[k]),
        v.next_round(o).attempts[v.working[k] as int] == v.attempts[v.working[k] as int] + 1,
{
    lemma_outcome_for_at(v.working, o, k);
}

/// Once a run has finished after at least one round, every target has
/// exactly one latest outcome: none is dropped and none is added.
pub proof fn lemma_every_target_has_outcome(v: RunView, i: int)
    requires
        v.wf(),
        v.rounds > 0,
        0 <= i < v.len(),
    ensures
        v.last.len() == v.targets.len(),
        v.last[i] is Some,
{
    assert(v.attempts[i] >= 1);
}

/// The executable run: the state that decides, round after round, which
/// targets are fetched again.
pub struct RetryRun {
    targets: Vec<String>,
    limit: usize,
    rounds: usize,
    working: Vec<usize>,
    attempts: Vec<usize>,
    last: Vec<Option<FetchOutcome>>,
}

impl View for RetryRun {
    type V = RunView;

    closed spec fn view(&self) -> RunView {
        RunView {
            targets: self.targets@.map_values(|s: String| s@),
            limit: self.limit as nat,
            rounds: self.rounds as nat,
            working: self.working@,
            attempts: self.attempts@.map_values(|a: usize| a as nat),
            last: self.last@,
        }
    }
}

impl RetryRun {
    /// A run over `targets` that allows at most `limit` rounds.
    pub fn new(targets: Vec<String>, limit: usize) -> (r: RetryRun)
        ensures
            r@ == RunView::initial(targets@.map_values(|s: String| s@), limit as nat),
            r@.wf(),
    {
        let n = targets.len();
        let mut working: Vec<usize> = Vec::new();
        let mut attempts: Vec<usize> = Vec::new();
        let mut last: Vec<Option<FetchOutcome>> = Vec::new();
        let mut i: usize = 0;
        while i < n
            invariant
                i <= n,
                working@ == Seq::new(i as nat, |j: int| j as usize),
                attempts@ == Seq::new(i as nat, |j: int| 0usize),
                last@ == Seq::new(i as nat, |j: int| None::<FetchOutcome>),
            decreases n - i,
        {
            working.push(i);
            attempts.push(0);
            last.push(None);
            i += 1;
            assert(working@ =~= Seq::new(i as nat, |j: int| j as usize));
            assert(attempts@ =~= Seq::new(i as nat, |j: int| 0usize));
            assert(last@ =~= Seq::new(i as nat, |j: int| None::<FetchOutcome>));
        }
        assert(attempts@.map_values(|a: usize| a as nat) =~= Seq::new(n as nat, |j: int| 0nat));
        let r = RetryRun { targets, limit, rounds: 0, working, attempts, last };
        assert(r@ =~= RunView::initial(r.targets@.map_values(|s: String| s@), limit as nat));
        proof {
            let v = r@;
            assert forall|i: int| 0 <= i < v.len() implies #[trigger] v.attempts[i] == 0 && v.working.contains(i as usize) by {
                assert(v.working[i] == i as usize);
            }
        }
        r
    }

    pub fn status(&self) -> (r: RunStatus)
        ensures
            r == self@.status(),
    {
        if self.working.len() == 0 {
            RunStatus::Succeeded
        } else if self.rounds < self.limit {
            RunStatus::Running
        } else {
            RunStatus::PartialFailure
        }
    }

    /// The number of rounds run so far.
    pub fn rounds(&self) -> (r: usize)
        ensures
            r == self@.rounds,
    {
        self.rounds
    }

    /// The targets of the run, in the order they were given.
    pub fn targets(&self) -> (r: &Vec<String>)
        ensures
            r@.map_values(|s: String| s@) == self@.targets,
    {
        &self.targets
    }

    /// The latest outcome of each target, by position; `None` for a target
    /// that no round has reached.
    pub fn outcomes(&self) -> (r: &Vec<Option<FetchOutcome>>)
        ensures
            r@ == self@.last,
    {
        &self.last
    }

    /// How many attempts each target has had, by position.
    pub fn attempts(&self) -> (r: &Vec<usize>)
        ensures
            r@.map_values(|a: usize| a as nat) == self@.attempts,
    {
        &self.attempts
    }

    /// The counts and mean latency of the latest outcomes.
    pub fn summary(&self) -> (r: Summary)
        ensures
            r == summary_of(self@.last),
    {
        summarize(&self.last)
    }

    /// The targets that the next round fetches, in order; once the run has
    /// ended in partial failure, the targets that remain unresolved.
    pub fn working_targets(&self) -> (r: Vec<String>)
        requires
            self@.wf(),
        ensures
            r@.map_values(|s: String| s@) == self@.working.map_values(|i: usize| self@.targets[i as int]),
    {
        let mut r: Vec<String> = Vec::new();
        let mut j: usize = 0;
        while j < self.working.len()
            invariant
                self@.wf(),
                j <= self.working@.len(),
                r@.len() == j,
                forall|q: int| 0 <= q < j ==> #[trigger] r@[q]@ == self@.targets[self@.working[q] as int],
            decreases self.working@.len() - j,
        {
            let t = self.working[j];
            assert(self@.working[j as int] < self@.len());
            r.push(self.targets[t].clone());
            j += 1;
        }
        assert(r@.map_values(|s: String| s@) =~= self@.working.map_values(|i: usize| self@.targets[i as int]));
        r
    }

    /// Records one round: `outcomes` holds one outcome for each target of the
    /// working set, at the same position. Each of those targets takes its new
    /// outcome, and the next working set is exactly the ones that failed.
    pub fn complete_round(&mut self, outcomes: Vec<FetchOutcome>)
        requires
            old(self)@.wf(),
            old(self)@.status() == RunStatus::Running,
            outcomes@.len() == old(self)@.working.len(),
        ensures
            final(self)@ == old(self)@.next_round(outcomes@),
            final(self)@.wf(),
    {
        let ghost pre = self@;
        let ghost o = outcomes@;
        let ghost w = self.working@;
        let n = outcomes.len();
        let mut next: Vec<usize> = Vec::new();
        let mut j: usize = 0;
        while j < n
            invariant
                j <= n,
                n == o.len(),
                o == outcomes@,
                w == self.working@,
                w.len() == n,
                next@ == failed_of(w.take(j as int), o.take(j as int)),
            decreases n - j,
        {
            if !outcomes[j].is_success() {
                next.push(self.working[j]);
            }
            assert(w.take(j + 1).take(j as int) =~= w.take(j as int));
            assert(o.take(j + 1).take(j as int) =~= o.take(j as int));
            j += 1;
        }
        assert(w.take(n as int) =~= w);
        assert(o.take(n as int) =~= o);
        let mut outcomes = outcomes;
        let mut k: usize = n;
        while k > 0
            invariant
                k <= n,
                n == o.len(),
                w.len() == n,
                pre.wf(),
                pre.status() == RunStatus::Running,
                w == pre.working,
                outcomes@ == o.take(k as int),
                self.working@ == w,
                self.targets@.map_values(|s: String| s@) == pre.targets,
                self.limit == pre.limit,
                self.rounds == pre.rounds,
                self.last@.len() == pre.len(),
                self.attempts@.len() == pre.len(),
                forall|i: int|
                    0 <= i < pre.len() ==> {
                        let f = outcome_for(w.subrange(k as int, n as int), o.subrange(k as int, n as int), i);
                        &&& #[trigger] self.last@[i] == (if f is Some { f } else { pre.last[i] })
                        &&& self.attempts@[i] as nat == (if f is Some { pre.attempts[i] + 1 } else { pre.attempts[i] })
                    },
            decreases k,
        {
            k -= 1;
            let t = self.working[k];
            let oc = outcomes.pop().unwrap();
            proof {
                assert(pre.working[k as int] < pre.len());
                let ws = w.subrange(k + 1, n as int);
                assert forall|q: int| 0 <= q < ws.len() implies ws[q] as int != t as int by {
                    assert(w[k + 1 + q] > w[k as int]);
                }
                lemma_outcome_for_absent(ws, o.subrange(k + 1, n as int), t as int);
                assert(pre.attempts[t as int] <= pre.rounds);
                assert(w.contains(t));
                assert(pre.attempts[t as int] == pre.rounds);
                assert(o.take(k + 1)[k as int] == oc);
                assert(w.subrange(k as int, n as int).subrange(1, n - k) =~= ws);
                assert(o.subrange(k as int, n as int).subrange(1, n - k) =~= o.subrange(k + 1, n as int));
                assert(outcomes@ =~= o.take(k as int));
            }
            self.last[t] = Some(oc);
            let a = self.attempts[t];
            self.attempts[t] = a + 1;
        }
        self.working = next;
        self.rounds = self.rounds + 1;
        proof {
            assert(w.subrange(0, n as int) =~= w);
            assert(o.subrange(0, n as int) =~= o);
            assert(self@.targets =~= pre.next_round(o).targets);
            assert forall|i: int| 0 <= i < pre.len() implies #[trigger] self@.attempts[i] == pre.next_round(o).attempts[i] by {
                assert(self.last@[i] == self@.last[i]);
            }
            assert(self@.attempts =~= pre.next_round(o).attempts);
            assert(self@.last =~= pre.next_round(o).last);
            lemma_next_round_wf(pre, o);
        }
    }
}

} // verus!
