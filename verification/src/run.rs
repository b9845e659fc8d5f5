//! The orchestrator: runs the plan entry by entry, in order, and collects
//! the report.
//!
//! A `Runner` never builds or runs a target. It says what has to be done
//! next (`next`) and takes in how it went (`built`, `exited`).

use crate::entry::{ended, entry_status, EntryRun, EntryState};
use crate::expand::{expanded_views, ExpandedTest, ExpandedView};
use crate::plan::Mode;
use crate::report::{Report, ReportView};
use crate::sampler::Sampler;
use crate::span::Span;
use crate::trial::{Stage, TrialAction, TrialOutcome};
use vstd::prelude::*;

verus! {

/// The shrink steps that a chaotic entry may spend unless told otherwise.
pub const SHRINK_BUDGET: usize = 1024;

/// The line of an entry in the report.
pub open spec fn entry_line(path: Seq<char>, status: Seq<char>) -> Seq<char> {
    "test "@ + path + " ... "@ + status
}

/// The line of an entry in the report.
pub fn entry_message(path: &str, status: &str) -> (line: String)
    ensures
        line@ == entry_line(path@, status@),
{
    let mut line = "test ".to_owned();
    line.append(path);
    line.append(" ... ");
    line.append(status);
    line
}

/// What the driver of a run has to do next.
#[derive(Clone, Copy, Debug, PartialEq, Eq)]
pub enum Step {
    /// Build the target of the trial at `index` of the plan, then report
    /// with `built`.
    Build { index: usize },
    /// Run that target, measure how long it stays up, then report with
    /// `exited`. It is required to stay up for `required`.
    Run { index: usize, required: Span },
    /// Nothing: every entry has been run.
    Done,
}

/// The samples that the run of an entry holds.
pub open spec fn entry_samples(entry: EntryState) -> Seq<u64> {
    match entry.search {
        Some(search) => search.samples,
        None => Seq::empty(),
    }
}

/// Whether `samples` may be the draws of an entry of `mode`: none for an
/// entry of fixed duration or an empty domain, else `run_count` surges below
/// `max_surge`.
pub open spec fn samples_fit(mode: Mode, samples: Seq<u64>) -> bool {
    match mode {
        Mode::Available { .. } => samples.len() == 0,
        Mode::Chaotic { run_count, max_surge } => {
            &&& samples.len() == (if max_surge == 0 {
                0
            } else {
                run_count as int
            })
            &&& forall|i: int| 0 <= i < samples.len() ==> #[trigger] samples[i] < max_surge
        },
    }
}

/// Whether a trial needs nothing done outside: it is a placeholder for an
/// entry that could not be expanded, or a chaotic trial without a sample.
pub open spec fn is_idle(trial: ExpandedView) -> bool {
    trial.error is Some || (trial.mode matches Mode::Chaotic { run_count, max_surge }
        && (run_count == 0 || max_surge == 0))
}

/// Whether `samples` may be the draws of `trial`: a placeholder draws
/// nothing, another trial what fits its mode.
pub open spec fn draws_fit(trial: ExpandedView, samples: Seq<u64>) -> bool {
    if trial.error is Some {
        samples.len() == 0
    } else {
        samples_fit(trial.mode, samples)
    }
}

/// The mathematical state of a run of the plan.
pub struct RunnerState {
    pub plan: Seq<ExpandedView>,
    /// The shrink budget of each chaotic entry.
    pub budget: nat,
    /// How many entries are over.
    pub at: nat,
    /// The run of the entry in progress.
    pub current: Option<EntryState>,
    pub report: ReportView,
}

impl RunnerState {
    /// The run before anything was done.
    pub open spec fn start(plan: Seq<ExpandedView>, budget: nat) -> RunnerState {
        RunnerState { plan, budget, at: 0, current: None, report: ReportView::empty() }
    }

    /// Entries are reported as they end, one line each and in order.
    pub open spec fn wf(self) -> bool {
        &&& self.at <= self.plan.len()
        &&& self.report.total == self.at
        &&& self.report.wf()
        &&& self.current matches Some(entry) ==> self.at < self.plan.len() && entry.wf()
    }

    /// Whether every entry is over.
    pub open spec fn done(self) -> bool {
        self.at == self.plan.len() && self.current is None
    }

    /// The run after the next entry was begun with `samples` as its draws.
    pub open spec fn begun(self, samples: Seq<u64>) -> RunnerState
        recommends
            self.at < self.plan.len(),
    {
        RunnerState {
            current: Some(
                EntryState::start(
                    self.plan[self.at as int].mode,
                    self.plan[self.at as int].error is Some,
                    samples,
                    self.budget,
                ),
            ),
            ..self
        }
    }

    /// The run after the entry in progress, which is over, was reported.
    pub open spec fn finished(self) -> RunnerState
        recommends
            self.current is Some,
            self.at < self.plan.len(),
    {
        RunnerState {
            at: self.at + 1,
            current: None,
            report: self.report.record(
                entry_line(
                    self.plan[self.at as int].path,
                    entry_status(self.plan[self.at as int].error, self.current.unwrap()),
                ),
                self.current.unwrap().failed(),
            ),
            ..self
        }
    }

    /// The run after the idle trials that are next in the plan were begun
    /// and reported, one after the other.
    pub open spec fn skip_idle(self) -> RunnerState
        decreases self.plan.len() - self.at,
    {
        if self.current is None && self.at < self.plan.len() && is_idle(
            self.plan[self.at as int],
        ) {
            self.begun(Seq::empty()).finished().skip_idle()
        } else {
            self
        }
    }

    /// The run after everything was reported that can be: the entry in
    /// progress if it is over, and the idle trials behind it.
    pub open spec fn settled(self) -> RunnerState {
        match self.current {
            Some(entry) => if entry.done() {
                self.finished().skip_idle()
            } else {
                self
            },
            None => self.skip_idle(),
        }
    }

    /// The run after the trial in progress, if it is still pending, was
    /// begun.
    pub open spec fn resumed(self) -> RunnerState {
        match self.current {
            Some(entry) => RunnerState { current: Some(entry.begin()), ..self },
            None => self,
        }
    }

    /// What is to be done for the entry in progress; nothing without one.
    pub open spec fn action(self) -> TrialAction {
        match self.current {
            Some(entry) => entry.action(),
            None => TrialAction::Finish,
        }
    }
}

/// The value of an optional entry run.
pub open spec fn entry_view(entry: Option<EntryRun>) -> Option<EntryState> {
    match entry {
        Some(e) => Some(e@),
        None => None,
    }
}

/// The run of a plan.
#[derive(Debug)]
pub struct Runner {
    trials: Vec<ExpandedTest>,
    budget: usize,
    at: usize,
    current: Option<EntryRun>,
    report: Report,
}

impl View for Runner {
    type V = RunnerState;

    closed spec fn view(&self) -> RunnerState {
        RunnerState {
            plan: expanded_views(self.trials@),
            budget: self.budget as nat,
            at: self.at as nat,
            current: entry_view(self.current),
            report: self.report@,
        }
    }
}

impl Runner {
    /// What holds of every runner that this module hands out.
    pub closed spec fn wf(&self) -> bool {
        &&& self@.wf()
        &&& self.current matches Some(entry) ==> entry.wf()
    }

    /// The run of `trials`, in which each chaotic entry may spend `budget`
    /// shrink steps.
    pub fn new(trials: Vec<ExpandedTest>, budget: usize) -> (runner: Runner)
        ensures
            runner@ == RunnerState::start(expanded_views(trials@), budget as nat),
            runner.wf(),
    {
        Runner { trials, budget, at: 0, current: None, report: Report::new() }
    }

    /// The plan.
    pub fn trials(&self) -> (trials: &Vec<ExpandedTest>)
        ensures
            expanded_views(trials@) == self@.plan,
    {
        &self.trials
    }

    /// The report so far.
    pub fn report(&self) -> (report: &Report)
        ensures
            report@ == self@.report,
    {
        &self.report
    }

    /// Whether every entry is over.
    pub fn is_done(&self) -> (r: bool)
        ensures
            r == self@.done(),
    {
        self.at == self.trials.len() && self.current.is_none()
    }

    /// Begins the next entry when none is in progress and one is left. A
    /// chaotic entry draws its surges from `sampler` now; a placeholder
    /// draws nothing.
    pub fn begin_entry(&mut self, sampler: &mut Sampler) -> (begun: bool)
        requires
            old(self).wf(),
        ensures
            final(self).wf(),
            begun == (old(self)@.current is None && old(self)@.at < old(self)@.plan.len()),
            !begun ==> final(self)@ == old(self)@,
            begun ==> final(self)@.current is Some && final(self)@ == old(self)@.begun(
                entry_samples(final(self)@.current.unwrap()),
            ) && draws_fit(
                old(self)@.plan[old(self)@.at as int],
                entry_samples(final(self)@.current.unwrap()),
            ),
            begun ==> (final(self)@.current.unwrap().done() <==> is_idle(
                old(self)@.plan[old(self)@.at as int],
            )),
            begun && is_idle(old(self)@.plan[old(self)@.at as int]) ==> {
                final(self)@ == old(self)@.begun(Seq::empty())
            },
    {
        if self.current.is_some() || self.at >= self.trials.len() {
            return false;
        }
        let trial = &self.trials[self.at];
        assert(self@.plan[self.at as int] == trial@);
        let mode = trial.test.mode;
        let errored = trial.error.is_some();
        let samples = match mode {
            Mode::Available { .. } => Vec::new(),
            Mode::Chaotic { run_count, max_surge } => if errored {
                Vec::new()
            } else {
                sampler.samples(run_count, max_surge as u64)
            },
        };
        proof {
            if samples@.len() == 0 {
                assert(samples@ =~= Seq::<u64>::empty());
            }
        }
        let entry = EntryRun::new(mode, errored, samples, self.budget);
        self.current = Some(entry);
        true
    }

    /// Reports the entry in progress once it is over, and turns to the next.
    pub fn finish_entry(&mut self) -> (finished: bool)
        requires
            old(self).wf(),
        ensures
            final(self).wf(),
            finished == (old(self)@.current matches Some(entry) && entry.done()),
            finished ==> final(self)@ == old(self)@.finished(),
            !finished ==> final(self)@ == old(self)@,
    {
        let over = match &self.current {
            Some(entry) => entry.is_done(),
            None => false,
        };
        if !over {
            return false;
        }
        assert(self.at < self.trials.len());
        let trial = &self.trials[self.at];
        assert(self@.plan[self.at as int] == trial@);
        let entry = self.current.take().unwrap();
        let status = entry.status(&trial.error);
        let line = entry_message(trial.test.path.as_str(), status.as_str());
        self.report.record(line, entry.failed());
        self.at = self.at + 1;
        true
    }

    /// Takes in the end of the build of the trial in progress, and tells
    /// how the trial ended if this ended it.
    pub fn built(&mut self, success: bool, diagnostics: String) -> (told: Option<TrialOutcome>)
        requires
            old(self).wf(),
        ensures
            final(self).wf(),
            final(self)@.plan == old(self)@.plan,
            final(self)@.budget == old(self)@.budget,
            final(self)@.at == old(self)@.at,
            final(self)@.report == old(self)@.report,
            final(self)@.current == (match old(self)@.current {
                Some(entry) => Some(entry.built(success)),
                None => None,
            }),
            old(self)@.current is None ==> told is None,
            old(self)@.current matches Some(entry) ==> if entry.done() {
                told is None
            } else {
                ended(entry.trial, entry.trial.built(success), diagnostics@, told)
            },
    {
        match &mut self.current {
            Some(entry) => entry.built(success, diagnostics),
            None => None,
        }
    }

    /// Takes in the end of the run of the trial in progress, which took
    /// `elapsed`, and tells how the trial ended if this ended it.
    pub fn exited(&mut self, success: bool, elapsed: Span, diagnostics: String) -> (told: Option<
        TrialOutcome,
    >)
        requires
            old(self).wf(),
        ensures
            final(self).wf(),
            final(self)@.plan == old(self)@.plan,
            final(self)@.budget == old(self)@.budget,
            final(self)@.at == old(self)@.at,
            final(self)@.report == old(self)@.report,
            final(self)@.current == (match old(self)@.current {
                Some(entry) => Some(entry.exited(success, elapsed@)),
                None => None,
            }),
            old(self)@.current is None ==> told is None,
            old(self)@.current matches Some(entry) ==> if entry.done() {
                told is None
            } else {
                ended(entry.trial, entry.trial.exited(success, elapsed@), diagnostics@, told)
            },
    {
        match &mut self.current {
            Some(entry) => entry.exited(success, elapsed, diagnostics),
            None => None,
        }
    }

    /// Goes on to the next thing that has to be done outside. On the way
    /// the entry in progress is reported if it is over, and so is every
    /// trial behind it that needs nothing done; the first trial that needs a
    /// build or a run is begun, and that build or run is what is asked for.
    pub fn next(&mut self, sampler: &mut Sampler) -> (step: Step)
        requires
            old(self).wf(),
        ensures
            final(self).wf(),
            old(self)@.settled().current is Some ==> {
                final(self)@ == old(self)@.settled().resumed()
            },
            old(self)@.settled().done() ==> final(self)@ == old(self)@.settled(),
            old(self)@.settled().current is None && !old(self)@.settled().done() ==> {
                &&& final(self)@.current is Some
                &&& final(self)@ == old(self)@.settled().begun(
                    entry_samples(final(self)@.current.unwrap()),
                ).resumed()
                &&& draws_fit(
                    old(self)@.plan[old(self)@.settled().at as int],
                    entry_samples(final(self)@.current.unwrap()),
                )
            },
            step == Step::Done <==> final(self)@.done(),
            step matches Step::Build { index } ==> {
                &&& index == final(self)@.at
                &&& final(self)@.action() == TrialAction::Build
                &&& final(self)@.current.unwrap().trial.stage == Stage::Building
            },
            step matches Step::Run { index, required } ==> {
                &&& index == final(self)@.at
                &&& final(self)@.action() == TrialAction::Run
                &&& required@ == final(self)@.current.unwrap().trial.required
            },
    {
        let ghost target = self@.settled();
        let ghost mut fresh = false;
        self.finish_entry();
        loop
            invariant
                self.wf(),
                target == old(self)@.settled(),
                self@.plan == old(self)@.plan,
                self@.current is None ==> self@.skip_idle() == target && !fresh,
                self@.current matches Some(entry) ==> !entry.done(),
                self@.current is Some && !fresh ==> self@ == target,
                self@.current is Some && fresh ==> target.current is None && !target.done()
                    && self@ == target.begun(entry_samples(self@.current.unwrap()))
                    && draws_fit(
                    self@.plan[target.at as int],
                    entry_samples(self@.current.unwrap()),
                ),
            ensures
                self@.current is Some,
            decreases self@.plan.len() - self@.at, (if self@.current is None {
                    1int
                } else {
                    0int
                }),
        {
            if self.current.is_some() {
                break;
            }
            if !self.begin_entry(sampler) {
                return Step::Done;
            }
            let over = match &self.current {
                Some(entry) => entry.is_done(),
                None => false,
            };
            if over {
                self.finish_entry();
            } else {
                proof {
                    fresh = true;
                }
            }
        }
        let action = match &self.current {
            Some(entry) => entry.action(),
            None => TrialAction::Finish,
        };
        match action {
            TrialAction::Build => {
                match &mut self.current {
                    Some(entry) => {
                        entry.begin();
                    },
                    None => {},
                }
                Step::Build { index: self.at }
            },
            TrialAction::Run => {
                let required = match &self.current {
                    Some(entry) => entry.required(),
                    None => Span::zero(),
                };
                Step::Run { index: self.at, required }
            },
            TrialAction::Finish => Step::Done,
        }
    }
}

} // verus!
