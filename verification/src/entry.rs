//! The run of one entry of the plan: a single trial for an entry that fixes
//! its duration, a search made of many trials for a chaotic one, and nothing
//! at all for an entry that could not be expanded.

use crate::plan::Mode;
use crate::expand::{error_view, plan_error_text, PlanError, PlanErrorView};
use crate::search::{
    fails_above, lemma_run_deterministic, lemma_search_passes_below_limit,
    lemma_search_reports_limit, search_text, Phase, Search, SearchResult, SearchState,
};
use crate::span::Span;
use crate::trial::{stage_text, Stage, Trial, TrialAction, TrialOutcome, TrialState};
use vstd::prelude::*;

verus! {

/// Nanoseconds in one millisecond.
pub open spec fn nanos_per_milli() -> nat {
    1_000_000
}

/// The mathematical state of the run of one entry.
pub struct EntryState {
    /// The entry could not be expanded; there is nothing to run.
    pub error: bool,
    /// The search of a chaotic entry.
    pub search: Option<SearchState>,
    /// The trial in progress. For a chaotic entry it is the trial of the
    /// surge that the search probes.
    pub trial: TrialState,
}

impl EntryState {
    /// The trial of the surge that the search probes next; a trial that
    /// requires nothing once the search has ended.
    pub open spec fn trial_for(search: SearchState) -> TrialState {
        match search.probe() {
            Some(surge) => TrialState::start((surge * nanos_per_milli()) as nat),
            None => TrialState::start(0),
        }
    }

    /// The run of an entry before anything was done. `samples` and `budget`
    /// are read for a chaotic entry only.
    pub open spec fn start(mode: Mode, error: bool, samples: Seq<u64>, budget: nat)
        -> EntryState {
        match mode {
            Mode::Available { duration } => EntryState {
                error,
                search: None,
                trial: TrialState::start(duration@),
            },
            Mode::Chaotic { .. } => EntryState {
                error,
                search: Some(SearchState::start(samples, budget)),
                trial: EntryState::trial_for(SearchState::start(samples, budget)),
            },
        }
    }

    /// Whether the run of the entry is over.
    pub open spec fn done(self) -> bool {
        self.error || match self.search {
            Some(search) => search.done(),
            None => self.trial.done(),
        }
    }

    /// What has to be done next.
    pub open spec fn action(self) -> TrialAction {
        if self.done() {
            TrialAction::Finish
        } else {
            self.trial.action()
        }
    }

    /// Whether the entry failed: it could not be expanded, its one trial
    /// failed, or its search found a counterexample.
    pub open spec fn failed(self) -> bool {
        self.error || match self.search {
            Some(search) => search.phase == Phase::MinimalFound,
            None => self.trial.failed(),
        }
    }

    /// A chaotic entry whose trial has ended hands the result to its search
    /// and turns to the trial of the next probe.
    pub open spec fn settle(self) -> EntryState {
        match self.search {
            Some(search) => if !search.done() && self.trial.done() {
                EntryState {
                    search: Some(search.record(self.trial.failed())),
                    trial: EntryState::trial_for(search.record(self.trial.failed())),
                    ..self
                }
            } else {
                self
            },
            None => self,
        }
    }

    /// The build is started.
    pub open spec fn begin(self) -> EntryState {
        if self.done() {
            self
        } else {
            EntryState { trial: self.trial.begin(), ..self }
        }
    }

    /// The build has ended.
    pub open spec fn built(self, success: bool) -> EntryState {
        if self.done() {
            self
        } else {
            EntryState { trial: self.trial.built(success), ..self }.settle()
        }
    }

    /// The target has exited after `elapsed` nanoseconds.
    pub open spec fn exited(self, success: bool, elapsed: nat) -> EntryState {
        if self.done() {
            self
        } else {
            EntryState { trial: self.trial.exited(success, elapsed), ..self }.settle()
        }
    }

    /// While a search is running, the trial in progress is the trial of the
    /// surge that the search probes.
    pub open spec fn wf(self) -> bool {
        match self.search {
            Some(search) => search.wf() && (!search.done() ==> !self.trial.done()
                && self.trial.required == search.probe().unwrap() * nanos_per_milli()),
            None => true,
        }
    }

    /// Every step keeps the state well formed.
    pub proof fn lemma_steps_keep_wf(self, success: bool, elapsed: nat)
        requires
            self.wf(),
        ensures
            self.begin().wf(),
            self.built(success).wf(),
            self.exited(success, elapsed).wf(),
    {
        match self.search {
            Some(search) => {
                if !search.done() {
                    search.lemma_record_progress(true);
                    search.lemma_record_progress(false);
                }
            },
            None => {},
        }
    }
}

/// What a report says of an entry whose expansion gave `error` and whose run
/// stands at `state`.
pub open spec fn entry_status(error: Option<PlanErrorView>, state: EntryState) -> Seq<char> {
    match error {
        Some(e) => "error: "@ + plan_error_text(e),
        None => match state.search {
            Some(search) => search_text(search),
            None => stage_text(state.trial),
        },
    }
}

/// What the target does when it is asked to stay up for a given time.
pub struct Behaviour {
    pub builds: bool,
    pub exits_cleanly: bool,
    /// How long it runs, in nanoseconds.
    pub runs_for: nat,
}

/// Whether a trial that requires `surge` milliseconds fails against a target
/// that behaves as `behaviour` says.
pub open spec fn surge_fails(behaviour: spec_fn(u64) -> Behaviour) -> spec_fn(u64) -> bool {
    |surge: u64|
        TrialState::conduct(
            (surge * nanos_per_milli()) as nat,
            behaviour(surge).builds,
            behaviour(surge).exits_cleanly,
            behaviour(surge).runs_for,
        ).failed()
}

impl EntryState {
    /// The state after one whole trial of a chaotic entry, conducted against
    /// a target that behaves as `behaviour` says when asked for the probed
    /// surge.
    pub open spec fn after_trial(self, behaviour: spec_fn(u64) -> Behaviour) -> EntryState
        recommends
            self.search is Some,
    {
        let surge = self.search.unwrap().probe().unwrap();
        let built = self.begin().built(behaviour(surge).builds);
        if behaviour(surge).builds {
            built.exited(behaviour(surge).exits_cleanly, behaviour(surge).runs_for)
        } else {
            built
        }
    }

    /// The state in which a chaotic entry ends when every trial is conducted
    /// against a target that behaves as `behaviour` says.
    pub open spec fn conduct(self, behaviour: spec_fn(u64) -> Behaviour) -> EntryState
        decreases
            (match self.search {
                Some(search) => search.remaining(),
                None => 0,
            }),
    {
        if self.search is None || self.done() || !self.wf() || self.trial.stage
            != Stage::Pending {
            self
        } else {
            let next = self.after_trial(behaviour);
            if next.search is Some && next.search.unwrap().remaining()
                < self.search.unwrap().remaining() {
                next.conduct(behaviour)
            } else {
                self
            }
        }
    }
}

/// One whole trial of a chaotic entry is one step of its search: the search
/// records whether a trial of the probed surge fails against the target.
pub proof fn lemma_trial_is_search_step(state: EntryState, behaviour: spec_fn(u64) -> Behaviour)
    requires
        state.wf(),
        state.search is Some,
        !state.done(),
        state.trial.stage == Stage::Pending,
        state.trial.elapsed == 0,
    ensures
        state.after_trial(behaviour).search == Some(
            state.search.unwrap().record(
                surge_fails(behaviour)(state.search.unwrap().probe().unwrap()),
            ),
        ),
        state.after_trial(behaviour).wf(),
        state.after_trial(behaviour).error == state.error,
        state.after_trial(behaviour).trial.stage == Stage::Pending,
        state.after_trial(behaviour).trial.elapsed == 0,
{
    let search = state.search.unwrap();
    search.lemma_record_progress(true);
    search.lemma_record_progress(false);
}

/// A chaotic entry run against a target ends where its search ends when run
/// against the failures of that target: the entry's trials add nothing to,
/// and take nothing from, what the search decides.
pub proof fn lemma_entry_follows_search(state: EntryState, behaviour: spec_fn(u64) -> Behaviour)
    requires
        state.wf(),
        state.search is Some,
        !state.error,
        state.trial.stage == Stage::Pending,
        state.trial.elapsed == 0,
    ensures
        state.conduct(behaviour).search == Some(
            state.search.unwrap().run(surge_fails(behaviour)),
        ),
        state.conduct(behaviour).failed() == (state.search.unwrap().run(
            surge_fails(behaviour),
        ).phase == Phase::MinimalFound),
    decreases state.search.unwrap().remaining(),
{
    let search = state.search.unwrap();
    if !search.done() {
        let failed = surge_fails(behaviour)(search.probe().unwrap());
        lemma_trial_is_search_step(state, behaviour);
        search.lemma_record_progress(failed);
        lemma_entry_follows_search(state.after_trial(behaviour), behaviour);
    }
}

/// The target that builds, exits cleanly, and stays up as long as it is
/// asked to, but never longer than `limit` milliseconds.
pub open spec fn sustains(limit: u64) -> spec_fn(u64) -> Behaviour {
    |surge: u64|
        Behaviour {
            builds: true,
            exits_cleanly: true,
            runs_for: ((if surge > limit {
                limit
            } else {
                surge
            }) * nanos_per_milli()) as nat,
        }
}

/// A trial against a target that sustains `limit` milliseconds fails
/// exactly if more than `limit` milliseconds are required.
pub proof fn lemma_sustaining_target_fails_above(limit: u64)
    ensures
        forall|surge: u64| #[trigger]
            surge_fails(sustains(limit))(surge) == fails_above(limit)(surge),
{
}

/// A chaotic entry against a target that sustains `limit` milliseconds,
/// with at least one sample above `limit` and a budget of at least
/// sixty-four shrink steps, fails, and its search reports `limit + 1`
/// milliseconds as the minimal surge that the target cannot sustain.
pub proof fn lemma_chaotic_entry_reports_limit(
    mode: Mode,
    samples: Seq<u64>,
    budget: nat,
    limit: u64,
)
    requires
        mode is Chaotic,
        budget >= 64,
        exists|i: int| 0 <= i < samples.len() && #[trigger] samples[i] > limit,
    ensures
        EntryState::start(mode, false, samples, budget).conduct(sustains(limit)).failed(),
        EntryState::start(mode, false, samples, budget).conduct(
            sustains(limit),
        ).search.unwrap().outcome().minimal_failing_surge == Some((limit + 1) as u64),
{
    let state = EntryState::start(mode, false, samples, budget);
    let search = SearchState::start(samples, budget);
    lemma_entry_follows_search(state, sustains(limit));
    lemma_sustaining_target_fails_above(limit);
    lemma_run_deterministic(search, surge_fails(sustains(limit)), fails_above(limit));
    lemma_search_reports_limit(samples, budget, limit);
}

/// A chaotic entry whose domain `[0, bound)` ends at or below what the
/// target sustains passes: every sample is tried and none fails.
pub proof fn lemma_chaotic_entry_passes_below_limit(
    mode: Mode,
    samples: Seq<u64>,
    budget: nat,
    limit: u64,
    bound: u64,
)
    requires
        mode is Chaotic,
        bound <= limit,
        forall|i: int| 0 <= i < samples.len() ==> #[trigger] samples[i] < bound,
    ensures
        !EntryState::start(mode, false, samples, budget).conduct(sustains(limit)).failed(),
        EntryState::start(mode, false, samples, budget).conduct(
            sustains(limit),
        ).search.unwrap().outcome().passed,
        EntryState::start(mode, false, samples, budget).conduct(
            sustains(limit),
        ).search.unwrap().drawn == samples.len(),
{
    let state = EntryState::start(mode, false, samples, budget);
    let search = SearchState::start(samples, budget);
    lemma_entry_follows_search(state, sustains(limit));
    lemma_sustaining_target_fails_above(limit);
    lemma_run_deterministic(search, surge_fails(sustains(limit)), fails_above(limit));
    lemma_search_passes_below_limit(samples, budget, limit, bound);
}

/// An entry of fixed duration against a target that builds, exits cleanly
/// and stays up for `elapsed` nanoseconds passes exactly if `elapsed` is at
/// least the required duration.
pub proof fn lemma_available_entry_decides(duration: crate::span::Span, elapsed: nat)
    ensures
        EntryState::start(Mode::Available { duration }, false, Seq::empty(), 0).begin().built(
            true,
        ).exited(true, elapsed).done(),
        EntryState::start(Mode::Available { duration }, false, Seq::empty(), 0).begin().built(
            true,
        ).exited(true, elapsed).failed() <==> elapsed < duration@,
{
}

/// The run of one entry.
#[derive(Debug)]
pub struct EntryRun {
    error: bool,
    search: Option<Search>,
    trial: Trial,
}

/// The value of an optional search.
pub open spec fn search_view(search: Option<Search>) -> Option<SearchState> {
    match search {
        Some(s) => Some(s@),
        None => None,
    }
}

impl View for EntryRun {
    type V = EntryState;

    closed spec fn view(&self) -> EntryState {
        EntryState { error: self.error, search: search_view(self.search), trial: self.trial@ }
    }
}

fn trial_for(search: &Search) -> (trial: Trial)
    ensures
        trial@ == EntryState::trial_for(search@),
{
    match search.probe() {
        Some(surge) => Trial::new(Span::from_millis(surge)),
        None => Trial::new(Span::zero()),
    }
}

/// What an event says of the trial that it ended: nothing when the trial
/// goes on, else how the trial is classified, with `said` as what the build
/// or the run had to say.
pub open spec fn ended(
    before: TrialState,
    after: TrialState,
    said: Seq<char>,
    told: Option<TrialOutcome>,
) -> bool {
    &&& told is Some <==> !before.done() && after.done()
    &&& told matches Some(o) ==> {
        &&& o.success == (after.stage == Stage::Pass)
        &&& o.elapsed@ == after.elapsed
        &&& o.diagnostic_text@ == said
        &&& o.classification.stage() == after.stage
        &&& o.classification matches crate::trial::Classification::AvailabilityTooLow {
            expected,
            found,
        } ==> expected@ == after.required && found@ == after.elapsed
    }
}

impl EntryRun {
    /// What holds of every run that this module hands out.
    pub closed spec fn wf(&self) -> bool {
        self@.wf()
    }

    /// The run of an entry of `mode`. For a chaotic entry `samples` are the
    /// surges to try, in milliseconds, and `budget` bounds the shrink steps.
    /// `error` marks an entry that could not be expanded.
    pub fn new(mode: Mode, error: bool, samples: Vec<u64>, budget: usize) -> (run: EntryRun)
        ensures
            run@ == EntryState::start(mode, error, samples@, budget as nat),
            run.wf(),
    {
        match mode {
            Mode::Available { duration } => EntryRun {
                error,
                search: None,
                trial: Trial::new(duration),
            },
            Mode::Chaotic { .. } => {
                let search = Search::new(samples, budget);
                let trial = trial_for(&search);
                EntryRun { error, search: Some(search), trial }
            },
        }
    }

    /// Whether the run is over.
    pub fn is_done(&self) -> (r: bool)
        ensures
            r == self@.done(),
    {
        if self.error {
            return true;
        }
        match &self.search {
            Some(search) => search.is_done(),
            None => match self.trial.action() {
                TrialAction::Finish => true,
                _ => false,
            },
        }
    }

    /// What has to be done next.
    pub fn action(&self) -> (a: TrialAction)
        ensures
            a == self@.action(),
            self.wf() ==> (a == TrialAction::Finish <==> self@.done()),
    {
        if self.is_done() {
            TrialAction::Finish
        } else {
            self.trial.action()
        }
    }

    /// The time that the target must stay up in the trial in progress.
    pub fn required(&self) -> (span: Span)
        ensures
            span@ == self@.trial.required,
    {
        self.trial.required()
    }

    /// Whether the entry failed.
    pub fn failed(&self) -> (r: bool)
        ensures
            r == self@.failed(),
    {
        if self.error {
            return true;
        }
        match &self.search {
            Some(search) => search.result().minimal_failing_surge.is_some(),
            None => self.trial.failed(),
        }
    }

    /// What the search of a chaotic entry has to report; `None` for another
    /// entry.
    pub fn search_result(&self) -> (r: Option<SearchResult>)
        ensures
            r is Some <==> self@.search is Some,
            r matches Some(result) ==> result == self@.search.unwrap().outcome(),
    {
        match &self.search {
            Some(search) => Some(search.result()),
            None => None,
        }
    }

    /// The outcome of the entry's one trial, once it is over; `None` for a
    /// chaotic entry.
    pub fn outcome(&self) -> (r: Option<TrialOutcome>)
        ensures
            r is Some <==> self@.search is None && self@.trial.done(),
            r matches Some(o) ==> {
                &&& o.success == (self@.trial.stage == Stage::Pass)
                &&& o.elapsed@ == self@.trial.elapsed
                &&& o.classification.stage() == self@.trial.stage
                &&& o.classification matches crate::trial::Classification::AvailabilityTooLow {
                    expected,
                    found,
                } ==> expected@ == self@.trial.required && found@ == self@.trial.elapsed
            },
    {
        match &self.search {
            Some(_) => None,
            None => self.trial.outcome(),
        }
    }

    /// What a report says of the entry as it stands; `error` is what its
    /// expansion gave.
    pub fn status(&self, error: &Option<PlanError>) -> (text: String)
        ensures
            text@ == entry_status(error_view(*error), self@),
    {
        match error {
            Some(e) => {
                let mut text = "error: ".to_owned();
                let detail = e.message();
                text.append(detail.as_str());
                text
            },
            None => match &self.search {
                Some(search) => search.status(),
                None => self.trial.status(),
            },
        }
    }

    /// Hands the result of a trial that has ended to the search and turns to
    /// the trial of the next probe.
    fn settle(&mut self)
        ensures
            final(self)@ == old(self)@.settle(),
    {
        let over = self.trial.action();
        let failed = self.trial.failed();
        match over {
            TrialAction::Finish => {
                let mut next: Option<Trial> = None;
                match &mut self.search {
                    Some(search) => {
                        if !search.is_done() {
                            search.record(failed);
                            next = Some(trial_for(search));
                        }
                    },
                    None => {},
                }
                match next {
                    Some(trial) => {
                        self.trial = trial;
                    },
                    None => {},
                }
            },
            _ => {},
        }
    }

    /// Notes that the build has been started.
    pub fn begin(&mut self)
        requires
            old(self).wf(),
        ensures
            final(self).wf(),
            final(self)@ == old(self)@.begin(),
    {
        proof {
            self@.lemma_steps_keep_wf(true, 0);
        }
        if !self.is_done() {
            self.trial.begin();
        }
    }

    /// Takes in the end of the build, and tells how the trial ended if this
    /// ended it.
    pub fn built(&mut self, success: bool, diagnostics: String) -> (told: Option<TrialOutcome>)
        requires
            old(self).wf(),
        ensures
            final(self).wf(),
            final(self)@ == old(self)@.built(success),
            old(self)@.done() ==> told is None,
            !old(self)@.done() ==> ended(
                old(self)@.trial,
                old(self)@.trial.built(success),
                diagnostics@,
                told,
            ),
    {
        proof {
            self@.lemma_steps_keep_wf(success, 0);
        }
        if self.is_done() {
            return None;
        }
        let was_over = self.trial.outcome().is_some();
        self.trial.built(success, diagnostics);
        let told = if was_over {
            None
        } else {
            self.trial.outcome()
        };
        self.settle();
        told
    }

    /// Takes in the end of the run, which took `elapsed`, and tells how the
    /// trial ended if this ended it.
    pub fn exited(&mut self, success: bool, elapsed: Span, diagnostics: String) -> (told: Option<
        TrialOutcome,
    >)
        requires
            old(self).wf(),
        ensures
            final(self).wf(),
            final(self)@ == old(self)@.exited(success, elapsed@),
            old(self)@.done() ==> told is None,
            !old(self)@.done() ==> ended(
                old(self)@.trial,
                old(self)@.trial.exited(success, elapsed@),
                diagnostics@,
                told,
            ),
    {
        proof {
            self@.lemma_steps_keep_wf(success, elapsed@);
        }
        if self.is_done() {
            return None;
        }
        let was_over = self.trial.outcome().is_some();
        self.trial.exited(success, elapsed, diagnostics);
        let told = if was_over {
            None
        } else {
            self.trial.outcome()
        };
        self.settle();
        told
    }
}

} // verus!
