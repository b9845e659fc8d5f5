//! The chaos search: a run of sampled surges against one target, and on the
//! first failing sample a bisection towards the smallest surge that still
//! fails.
//!
//! The engine never executes anything itself. It names the next surge to try
//! (`probe`) and is told how the trial went (`record`); whoever drives it
//! performs the trial in between.

use vstd::arithmetic::power2::{lemma2_to64, lemma2_to64_rest, lemma_pow2_unfold, pow2};
use crate::span::{human_text, Span};
use crate::text::{decimal, decimal_text};
use vstd::prelude::*;

verus! {

/// Where a search stands.
#[derive(Clone, Copy, Debug, PartialEq, Eq, Structural)]
pub enum Phase {
    /// Samples are still being tried, and none has failed.
    Sampling,
    /// A sample failed; smaller surges are being tried.
    Shrinking,
    /// Every sample passed. Terminal.
    AllPassed,
    /// A failing surge was found and shrunk as far as possible. Terminal.
    MinimalFound,
}

/// What a search reports at its end.
#[derive(Clone, Copy, Debug, PartialEq, Eq, Structural)]
pub struct SearchResult {
    /// The smallest surge, in milliseconds, known to fail; `None` when every
    /// sample passed.
    pub minimal_failing_surge: Option<u64>,
    /// How many samples were tried.
    pub samples_run: usize,
    /// How many shrink candidates were tried.
    pub shrink_steps: usize,
    /// Whether the entry passed: no sample failed.
    pub passed: bool,
}

/// The mathematical state of a search.
pub struct SearchState {
    /// The sampled surges, in the order in which they are tried.
    pub samples: Seq<u64>,
    /// The most shrink candidates that may be tried.
    pub budget: nat,
    pub phase: Phase,
    /// How many samples have been tried.
    pub drawn: nat,
    /// While shrinking: no surge below `floor` is a candidate any more.
    pub floor: nat,
    /// While shrinking and after: the smallest surge seen to fail.
    pub best: nat,
    /// How many shrink candidates have been tried.
    pub steps: nat,
}

impl SearchState {
    /// The state before anything has been tried.
    pub open spec fn start(samples: Seq<u64>, budget: nat) -> SearchState {
        SearchState {
            samples,
            budget,
            phase: if samples.len() == 0 {
                Phase::AllPassed
            } else {
                Phase::Sampling
            },
            drawn: 0,
            floor: 0,
            best: 0,
            steps: 0,
        }
    }

    pub open spec fn wf(self) -> bool {
        &&& self.drawn <= self.samples.len()
        &&& self.steps <= self.budget
        &&& self.floor <= self.best <= u64::MAX
        &&& self.phase == Phase::Sampling ==> self.drawn < self.samples.len()
        &&& self.phase == Phase::Shrinking ==> self.floor < self.best && self.steps < self.budget
    }

    /// Whether the search has ended.
    pub open spec fn done(self) -> bool {
        self.phase == Phase::AllPassed || self.phase == Phase::MinimalFound
    }

    /// The midpoint between the floor and the smallest failing surge.
    pub open spec fn middle(self) -> nat {
        (self.floor + (self.best - self.floor) / 2) as nat
    }

    /// The surge to try next: the next sample, or while shrinking the
    /// midpoint of what is left; `None` once the search has ended.
    pub open spec fn probe(self) -> Option<u64> {
        match self.phase {
            Phase::Sampling => Some(self.samples[self.drawn as int]),
            Phase::Shrinking => Some(self.middle() as u64),
            _ => None,
        }
    }

    /// Shrinking goes on while a candidate and budget are left.
    pub open spec fn settle(self) -> SearchState {
        SearchState {
            phase: if self.floor < self.best && self.steps < self.budget {
                Phase::Shrinking
            } else {
                Phase::MinimalFound
            },
            ..self
        }
    }

    /// The state after the probed surge was tried and `failed` tells how it
    /// went. A failing sample becomes the first counterexample. A failing
    /// candidate becomes the new counterexample; a passing one raises the
    /// floor above itself.
    pub open spec fn record(self, failed: bool) -> SearchState {
        match self.phase {
            Phase::Sampling => {
                let tried = SearchState { drawn: self.drawn + 1, ..self };
                if failed {
                    SearchState {
                        floor: 0,
                        best: self.samples[self.drawn as int] as nat,
                        ..tried
                    }.settle()
                } else if tried.drawn == self.samples.len() {
                    SearchState { phase: Phase::AllPassed, ..tried }
                } else {
                    tried
                }
            },
            Phase::Shrinking => {
                let tried = SearchState { steps: self.steps + 1, ..self };
                if failed {
                    SearchState { best: self.middle(), ..tried }.settle()
                } else {
                    SearchState { floor: self.middle() + 1, ..tried }.settle()
                }
            },
            _ => self,
        }
    }

    /// Trials that may still be asked for: samples left plus budget left.
    pub open spec fn remaining(self) -> nat {
        ((self.samples.len() - self.drawn) + (self.budget - self.steps)) as nat
    }

    /// The state in which the search ends when each probed surge `d` fails
    /// exactly if `fails(d)`.
    pub open spec fn run(self, fails: spec_fn(u64) -> bool) -> SearchState
        decreases self.remaining(),
    {
        if self.done() || !self.wf() {
            self
        } else {
            self.record(fails(self.probe().unwrap())).run(fails)
        }
    }

    /// What the search reports in this state.
    pub open spec fn outcome(self) -> SearchResult {
        SearchResult {
            minimal_failing_surge: if self.phase == Phase::MinimalFound {
                Some(self.best as u64)
            } else {
                None
            },
            samples_run: self.drawn as usize,
            shrink_steps: self.steps as usize,
            passed: self.phase == Phase::AllPassed,
        }
    }

    /// Recording a trial keeps the state well formed and uses up exactly one
    /// of the trials that remain.
    pub proof fn lemma_record_progress(self, failed: bool)
        requires
            self.wf(),
            !self.done(),
        ensures
            self.record(failed).wf(),
            self.record(failed).remaining() + 1 == self.remaining(),
            self.record(failed).samples == self.samples,
            self.record(failed).budget == self.budget,
    {
    }
}

/// The target that fails exactly when asked to sustain more than `limit`.
pub open spec fn fails_above(limit: u64) -> spec_fn(u64) -> bool {
    |d: u64| d > limit
}

/// How many times `width` can be halved before nothing is left.
pub open spec fn halvings(width: nat) -> nat
    decreases width,
{
    if width == 0 {
        0
    } else {
        1 + halvings(width / 2)
    }
}

/// A narrower interval needs no more halvings than a wider one.
pub proof fn lemma_halvings_monotone(a: nat, b: nat)
    requires
        a <= b,
    ensures
        halvings(a) <= halvings(b),
    decreases b,
{
    if a > 0 {
        lemma_halvings_monotone(a / 2, b / 2);
    }
}

/// An interval narrower than `2^k` is gone after `k` halvings.
pub proof fn lemma_halvings_below_pow2(width: nat, k: nat)
    requires
        width < pow2(k),
    ensures
        halvings(width) <= k,
    decreases k,
{
    if width > 0 {
        if k == 0 {
            lemma2_to64();
        } else {
            lemma_pow2_unfold(k);
            lemma_halvings_below_pow2(width / 2, (k - 1) as nat);
        }
    }
}

/// Sixty-four halvings exhaust any interval of 64-bit surges.
pub proof fn lemma_halvings_u64(width: nat)
    requires
        width <= u64::MAX,
    ensures
        halvings(width) <= 64,
{
    lemma2_to64_rest();
    lemma_halvings_below_pow2(width, 64);
}

/// Determinism: two runs from the same state, against targets that behave
/// alike on every surge, end in the same state; so they report the same
/// minimal counterexample, the same number of samples and the same number of
/// shrink steps.
pub proof fn lemma_run_deterministic(
    s: SearchState,
    f: spec_fn(u64) -> bool,
    g: spec_fn(u64) -> bool,
)
    requires
        forall|d: u64| #[trigger] f(d) == g(d),
    ensures
        s.run(f) == s.run(g),
        s.run(f).outcome() == s.run(g).outcome(),
    decreases s.remaining(),
{
    if !s.done() && s.wf() {
        let d = s.probe().unwrap();
        s.lemma_record_progress(f(d));
        lemma_run_deterministic(s.record(f(d)), f, g);
    }
}

/// A run ends in a terminal state and keeps the samples and the budget.
pub proof fn lemma_run_ends(s: SearchState, f: spec_fn(u64) -> bool)
    requires
        s.wf(),
    ensures
        s.run(f).wf(),
        s.run(f).done(),
        s.run(f).samples == s.samples,
        s.run(f).budget == s.budget,
    decreases s.remaining(),
{
    if !s.done() {
        let d = s.probe().unwrap();
        s.lemma_record_progress(f(d));
        lemma_run_ends(s.record(f(d)), f);
    }
}

/// While every remaining sample passes, the search runs through all of them
/// and ends with a pass.
pub proof fn lemma_all_samples_pass(s: SearchState, f: spec_fn(u64) -> bool)
    requires
        s.wf(),
        s.phase == Phase::Sampling || s.phase == Phase::AllPassed,
        s.phase == Phase::AllPassed ==> s.drawn == s.samples.len(),
        forall|i: int| s.drawn <= i < s.samples.len() ==> !f(#[trigger] s.samples[i]),
    ensures
        s.run(f).phase == Phase::AllPassed,
        s.run(f).drawn == s.samples.len(),
        s.run(f).steps == s.steps,
    decreases s.remaining(),
{
    if s.phase == Phase::Sampling {
        let d = s.probe().unwrap();
        assert(!f(d));
        s.lemma_record_progress(false);
        lemma_all_samples_pass(s.record(false), f);
    }
}

/// Against a target that fails exactly above `limit`, shrinking converges on
/// `limit + 1` once the counterexample is above the limit, the floor is not,
/// and the budget covers the halvings that the gap between them needs.
pub proof fn lemma_shrink_converges(s: SearchState, limit: u64)
    requires
        s.wf(),
        s.phase == Phase::Shrinking || s.phase == Phase::MinimalFound,
        s.phase == Phase::MinimalFound ==> s.floor == s.best,
        s.floor <= limit + 1 <= s.best,
        halvings((s.best - s.floor) as nat) <= s.budget - s.steps,
    ensures
        s.run(fails_above(limit)).phase == Phase::MinimalFound,
        s.run(fails_above(limit)).best == limit + 1,
        s.run(fails_above(limit)).drawn == s.drawn,
        s.run(fails_above(limit)).steps <= s.steps + halvings((s.best - s.floor) as nat),
    decreases s.remaining(),
{
    if s.phase == Phase::Shrinking {
        let f = fails_above(limit);
        let mid = s.middle();
        let failed = f(mid as u64);
        let width = (s.best - s.floor) as nat;
        let next = s.record(failed);
        s.lemma_record_progress(failed);
        assert(failed == (mid > limit));
        let narrowed = (next.best - next.floor) as nat;
        assert(narrowed <= width / 2);
        lemma_halvings_monotone(narrowed, width / 2);
        assert(halvings(width) == 1 + halvings(width / 2));
        lemma_shrink_converges(next, limit);
    }
}

/// The search against a target that fails exactly above `limit`: when some
/// remaining sample is above the limit and the budget allows sixty-four
/// shrink steps, the search ends on the counterexample `limit + 1`, having
/// stopped sampling at the first sample above the limit.
pub proof fn lemma_sampling_finds_limit(s: SearchState, limit: u64)
    requires
        s.wf(),
        s.phase == Phase::Sampling,
        s.steps == 0,
        s.budget >= 64,
        exists|i: int| s.drawn <= i < s.samples.len() && #[trigger] s.samples[i] > limit,
    ensures
        s.run(fails_above(limit)).phase == Phase::MinimalFound,
        s.run(fails_above(limit)).best == limit + 1,
        s.run(fails_above(limit)).steps <= 64,
        s.drawn < s.run(fails_above(limit)).drawn <= s.samples.len(),
        s.samples[s.run(fails_above(limit)).drawn - 1] > limit,
        forall|k: int|
            s.drawn <= k < s.run(fails_above(limit)).drawn - 1 ==> #[trigger] s.samples[k]
                <= limit,
    decreases s.remaining(),
{
    let f = fails_above(limit);
    let d = s.samples[s.drawn as int];
    assert(s.probe() == Some(d));
    s.lemma_record_progress(f(d));
    let next = s.record(f(d));
    if d > limit {
        lemma_halvings_u64(d as nat);
        lemma_shrink_converges(next, limit);
    } else {
        let i = choose|i: int| s.drawn <= i < s.samples.len() && #[trigger] s.samples[i] > limit;
        assert(i != s.drawn);
        assert(next.drawn <= i < next.samples.len() && next.samples[i] > limit);
        lemma_sampling_finds_limit(next, limit);
    }
}

/// A target that fails whenever asked to sustain more than `limit`
/// milliseconds, searched over samples of which at least one is above the
/// limit, with a budget of at least sixty-four shrink steps: the search
/// fails the entry and reports `limit + 1`, the smallest surge that the
/// target cannot sustain.
pub proof fn lemma_search_reports_limit(samples: Seq<u64>, budget: nat, limit: u64)
    requires
        budget >= 64,
        exists|i: int| 0 <= i < samples.len() && #[trigger] samples[i] > limit,
    ensures
        !SearchState::start(samples, budget).run(fails_above(limit)).outcome().passed,
        SearchState::start(samples, budget).run(fails_above(limit)).outcome().minimal_failing_surge
            == Some((limit + 1) as u64),
{
    let s = SearchState::start(samples, budget);
    lemma_sampling_finds_limit(s, limit);
}

/// A target that fails only above `limit`, searched over a domain `[0, bound)`
/// that ends at or below the limit: every sample passes, so the entry passes
/// and no counterexample is reported.
pub proof fn lemma_search_passes_below_limit(
    samples: Seq<u64>,
    budget: nat,
    limit: u64,
    bound: u64,
)
    requires
        bound <= limit,
        forall|i: int| 0 <= i < samples.len() ==> #[trigger] samples[i] < bound,
    ensures
        SearchState::start(samples, budget).run(fails_above(limit)).outcome().passed,
        SearchState::start(samples, budget).run(fails_above(limit)).outcome().minimal_failing_surge
            is None,
        SearchState::start(samples, budget).run(fails_above(limit)).drawn == samples.len(),
        SearchState::start(samples, budget).run(fails_above(limit)).steps == 0,
{
    let s = SearchState::start(samples, budget);
    lemma_all_samples_pass(s, fails_above(limit));
}

/// What a report says of a search that found no failing sample.
pub open spec fn passed_text(samples: Seq<char>) -> Seq<char> {
    "ok, "@ + samples + " samples passed"@
}

/// What a report says of a search that found a counterexample, given how
/// the minimal surge and the two counts read.
pub open spec fn counterexample_text(surge: Seq<char>, samples: Seq<char>, steps: Seq<char>)
    -> Seq<char> {
    "chaos test failed: minimal failing surge "@ + surge + ", found after "@ + samples
        + " samples and "@ + steps + " shrink steps"@
}

/// What a report says of a search in the given state.
pub open spec fn search_text(state: SearchState) -> Seq<char> {
    match state.phase {
        Phase::AllPassed => passed_text(decimal(state.drawn)),
        Phase::MinimalFound => counterexample_text(
            human_text(state.best * 1_000_000),
            decimal(state.drawn),
            decimal(state.steps),
        ),
        _ => "unfinished"@,
    }
}

/// What a report says of a search that found no failing sample.
pub fn passed_message(samples: &str) -> (text: String)
    ensures
        text@ == passed_text(samples@),
{
    let mut text = "ok, ".to_owned();
    text.append(samples);
    text.append(" samples passed");
    text
}

/// What a report says of a search that found a counterexample.
pub fn counterexample_message(surge: &str, samples: &str, steps: &str) -> (text: String)
    ensures
        text@ == counterexample_text(surge@, samples@, steps@),
{
    let mut text = "chaos test failed: minimal failing surge ".to_owned();
    text.append(surge);
    text.append(", found after ");
    text.append(samples);
    text.append(" samples and ");
    text.append(steps);
    text.append(" shrink steps");
    text
}

/// The place of a search within its samples and its shrink interval.
#[derive(Clone, Copy, Debug)]
struct Cursor {
    phase: Phase,
    drawn: usize,
    floor: u64,
    best: u64,
    steps: usize,
}

/// One entry's chaos search.
#[derive(Debug)]
pub struct Search {
    samples: Vec<u64>,
    budget: usize,
    cursor: Cursor,
}

impl View for Search {
    type V = SearchState;

    closed spec fn view(&self) -> SearchState {
        SearchState {
            samples: self.samples@,
            budget: self.budget as nat,
            phase: self.cursor.phase,
            drawn: self.cursor.drawn as nat,
            floor: self.cursor.floor as nat,
            best: self.cursor.best as nat,
            steps: self.cursor.steps as nat,
        }
    }
}

fn settled(cursor: Cursor, budget: usize) -> (r: Cursor)
    ensures
        r.phase == (if cursor.floor < cursor.best && cursor.steps < budget {
            Phase::Shrinking
        } else {
            Phase::MinimalFound
        }),
        r.drawn == cursor.drawn,
        r.floor == cursor.floor,
        r.best == cursor.best,
        r.steps == cursor.steps,
{
    let phase = if cursor.floor < cursor.best && cursor.steps < budget {
        Phase::Shrinking
    } else {
        Phase::MinimalFound
    };
    Cursor { phase, ..cursor }
}

impl Search {
    #[verifier::type_invariant]
    spec fn well_formed(self) -> bool {
        self@.wf()
    }

    /// A search over `samples`, tried in order, that may spend `budget`
    /// shrink steps once a sample has failed.
    pub fn new(samples: Vec<u64>, budget: usize) -> (s: Search)
        ensures
            s@ == SearchState::start(samples@, budget as nat),
            s@.wf(),
    {
        let phase = if samples.len() == 0 {
            Phase::AllPassed
        } else {
            Phase::Sampling
        };
        Search { samples, budget, cursor: Cursor { phase, drawn: 0, floor: 0, best: 0, steps: 0 } }
    }

    /// Whether the search has ended.
    pub fn is_done(&self) -> (r: bool)
        ensures
            r == self@.done(),
            self@.wf(),
    {
        proof {
            use_type_invariant(self);
        }
        match self.cursor.phase {
            Phase::AllPassed => true,
            Phase::MinimalFound => true,
            _ => false,
        }
    }

    /// The surge, in milliseconds, that the next trial must be asked to
    /// sustain; `None` once the search has ended.
    pub fn probe(&self) -> (r: Option<u64>)
        ensures
            r == self@.probe(),
            r is None <==> self@.done(),
            self@.wf(),
    {
        proof {
            use_type_invariant(self);
        }
        match self.cursor.phase {
            Phase::Sampling => Some(self.samples[self.cursor.drawn]),
            Phase::Shrinking => Some(
                self.cursor.floor + (self.cursor.best - self.cursor.floor) / 2,
            ),
            _ => None,
        }
    }

    /// Takes in how the trial of the probed surge went. After the search has
    /// ended this changes nothing.
    pub fn record(&mut self, failed: bool)
        ensures
            final(self)@ == old(self)@.record(failed),
            final(self)@.wf(),
    {
        proof {
            use_type_invariant(&*self);
        }
        let c = self.cursor;
        assert(c.phase == Phase::Sampling ==> c.drawn < self.samples.len());
        let next = match c.phase {
            Phase::Sampling => {
                let sample = self.samples[c.drawn];
                if failed {
                    settled(
                        Cursor {
                            phase: Phase::Shrinking,
                            drawn: c.drawn + 1,
                            floor: 0,
                            best: sample,
                            steps: c.steps,
                        },
                        self.budget,
                    )
                } else if c.drawn + 1 == self.samples.len() {
                    Cursor { phase: Phase::AllPassed, drawn: c.drawn + 1, ..c }
                } else {
                    Cursor { drawn: c.drawn + 1, ..c }
                }
            },
            Phase::Shrinking => {
                let mid: u64 = c.floor + (c.best - c.floor) / 2;
                if failed {
                    settled(Cursor { best: mid, steps: c.steps + 1, ..c }, self.budget)
                } else {
                    settled(Cursor { floor: mid + 1, steps: c.steps + 1, ..c }, self.budget)
                }
            },
            _ => c,
        };
        self.cursor = next;
    }

    /// What a report says of the search as it stands.
    pub fn status(&self) -> (text: String)
        ensures
            text@ == search_text(self@),
    {
        proof {
            use_type_invariant(self);
        }
        match self.cursor.phase {
            Phase::AllPassed => {
                let samples = decimal_text(self.cursor.drawn);
                passed_message(samples.as_str())
            },
            Phase::MinimalFound => {
                let surge = Span::from_millis(self.cursor.best).text();
                let samples = decimal_text(self.cursor.drawn);
                let steps = decimal_text(self.cursor.steps);
                counterexample_message(surge.as_str(), samples.as_str(), steps.as_str())
            },
            _ => "unfinished".to_owned(),
        }
    }

    /// What the search has to report so far; final once the search has ended.
    pub fn result(&self) -> (r: SearchResult)
        ensures
            r == self@.outcome(),
            r.passed == (self@.phase == Phase::AllPassed),
            r.minimal_failing_surge is Some <==> self@.phase == Phase::MinimalFound,
            r.minimal_failing_surge matches Some(surge) ==> surge == self@.best,
            r.samples_run == self@.drawn,
            r.shrink_steps == self@.steps,
    {
        proof {
            use_type_invariant(self);
        }
        let minimal = match self.cursor.phase {
            Phase::MinimalFound => Some(self.cursor.best),
            _ => None,
        };
        let passed = match self.cursor.phase {
            Phase::AllPassed => true,
            _ => false,
        };
        SearchResult {
            minimal_failing_surge: minimal,
            samples_run: self.cursor.drawn,
            shrink_steps: self.cursor.steps,
            passed,
        }
    }
}

} // verus!
