//! One trial: build the target, run it, and hold the time it stayed up
//! against the time it was required to stay up.
//!
//! Building and running happen elsewhere. A `Trial` says what has to be done
//! next and takes in how it went.

use crate::span::{human_text, Span};
use vstd::prelude::*;

verus! {

/// Where a trial stands. The last four stages are terminal.
#[derive(Clone, Copy, Debug, PartialEq, Eq, Structural)]
pub enum Stage {
    /// Nothing has been done yet.
    Pending,
    /// The target is being built.
    Building,
    /// The target was built and is running.
    Running,
    /// The target could not be built; it was never run.
    BuildFailed,
    /// The target crashed or exited with a failure status.
    RunFailed,
    /// The target exited cleanly after at least the required time.
    Pass,
    /// The target exited cleanly, but sooner than required.
    Fail,
}

/// What the driver of a trial has to do next.
#[derive(Clone, Copy, Debug, PartialEq, Eq, Structural)]
pub enum TrialAction {
    /// Build the target, then report with `built`.
    Build,
    /// Run the built target, then report with `exited`.
    Run,
    /// Nothing: the trial is over.
    Finish,
}

/// How a finished trial is classified.
#[derive(Clone, Copy, Debug, PartialEq, Eq)]
pub enum Classification {
    Passed,
    BuildFailed,
    RunFailed,
    AvailabilityTooLow { expected: Span, found: Span },
}

/// The result of one trial.
#[derive(Debug, PartialEq, Eq)]
pub struct TrialOutcome {
    pub success: bool,
    /// How long the target ran; zero when it was never run.
    pub elapsed: Span,
    pub classification: Classification,
    /// What the build or the run had to say.
    pub diagnostic_text: String,
}

/// The mathematical state of a trial; times are in nanoseconds.
pub struct TrialState {
    pub required: nat,
    pub stage: Stage,
    /// How long the target ran; zero until it has exited.
    pub elapsed: nat,
}

impl TrialState {
    /// A trial that has not begun.
    pub open spec fn start(required: nat) -> TrialState {
        TrialState { required, stage: Stage::Pending, elapsed: 0 }
    }

    /// Whether the trial is over.
    pub open spec fn done(self) -> bool {
        self.stage != Stage::Pending && self.stage != Stage::Building && self.stage
            != Stage::Running
    }

    /// What is to be done in this state.
    pub open spec fn action(self) -> TrialAction {
        match self.stage {
            Stage::Pending | Stage::Building => TrialAction::Build,
            Stage::Running => TrialAction::Run,
            _ => TrialAction::Finish,
        }
    }

    /// The build is started.
    pub open spec fn begin(self) -> TrialState {
        if self.stage == Stage::Pending {
            TrialState { stage: Stage::Building, ..self }
        } else {
            self
        }
    }

    /// The build has ended. A failed build ends the trial; nothing is run.
    pub open spec fn built(self, success: bool) -> TrialState {
        if self.stage == Stage::Building {
            TrialState {
                stage: if success {
                    Stage::Running
                } else {
                    Stage::BuildFailed
                },
                ..self
            }
        } else {
            self
        }
    }

    /// The target has exited after `elapsed` nanoseconds. A crash or a
    /// failure status is a failed run, however long it took; a clean exit
    /// passes exactly if the target stayed up for the required time.
    pub open spec fn exited(self, success: bool, elapsed: nat) -> TrialState {
        if self.stage == Stage::Running {
            TrialState {
                stage: if !success {
                    Stage::RunFailed
                } else if elapsed < self.required {
                    Stage::Fail
                } else {
                    Stage::Pass
                },
                elapsed,
                ..self
            }
        } else {
            self
        }
    }

    /// The state of a whole trial whose build ends with `build_ok` and whose
    /// run, if there is one, ends with `run_ok` after `elapsed` nanoseconds.
    pub open spec fn conduct(required: nat, build_ok: bool, run_ok: bool, elapsed: nat)
        -> TrialState {
        let built = TrialState::start(required).begin().built(build_ok);
        if built.stage == Stage::Running {
            built.exited(run_ok, elapsed)
        } else {
            built
        }
    }

    /// Whether the trial ended in a failure of any kind.
    pub open spec fn failed(self) -> bool {
        self.stage == Stage::BuildFailed || self.stage == Stage::RunFailed || self.stage
            == Stage::Fail
    }
}

/// A target that builds, runs for exactly `elapsed` nanoseconds and exits
/// cleanly passes a trial that requires `required` nanoseconds exactly if
/// `elapsed >= required`; otherwise the trial fails for low availability,
/// with `required` as what was expected and `elapsed` as what was found.
pub proof fn lemma_availability_decides(required: nat, elapsed: nat)
    ensures
        elapsed >= required ==> TrialState::conduct(required, true, true, elapsed).stage
            == Stage::Pass,
        elapsed < required ==> TrialState::conduct(required, true, true, elapsed).stage
            == Stage::Fail,
        TrialState::conduct(required, true, true, elapsed).required == required,
        TrialState::conduct(required, true, true, elapsed).elapsed == elapsed,
        TrialState::conduct(required, true, true, elapsed).done(),
{
}

/// A target that does not build is never run, and one that crashes fails
/// regardless of how long it stayed up.
pub proof fn lemma_failures_classified(required: nat, run_ok: bool, elapsed: nat)
    ensures
        TrialState::conduct(required, false, run_ok, elapsed).stage == Stage::BuildFailed,
        TrialState::conduct(required, false, run_ok, elapsed).elapsed == 0,
        TrialState::conduct(required, true, false, elapsed).stage == Stage::RunFailed,
{
}

/// The report of low availability, given how the two spans read.
pub open spec fn low_availability_text(expected: Seq<char>, found: Seq<char>) -> Seq<char> {
    "availability is low. Expected at least: "@ + expected + ", Found: "@ + found
}

/// The report of low availability, given how the two spans read.
pub fn low_availability_message(expected: &str, found: &str) -> (text: String)
    ensures
        text@ == low_availability_text(expected@, found@),
{
    let mut text = "availability is low. Expected at least: ".to_owned();
    text.append(expected);
    text.append(", Found: ");
    text.append(found);
    text
}

impl Classification {
    /// The terminal stage that this classification stands for.
    pub open spec fn stage(self) -> Stage {
        match self {
            Classification::Passed => Stage::Pass,
            Classification::BuildFailed => Stage::BuildFailed,
            Classification::RunFailed => Stage::RunFailed,
            Classification::AvailabilityTooLow { .. } => Stage::Fail,
        }
    }

    /// What a report says of a trial so classified.
    pub open spec fn text(self) -> Seq<char> {
        match self {
            Classification::Passed => "ok"@,
            Classification::BuildFailed => "failed to build"@,
            Classification::RunFailed => "execution of the test case was unsuccessful"@,
            Classification::AvailabilityTooLow { expected, found } => low_availability_text(
                human_text(expected@),
                human_text(found@),
            ),
        }
    }

    /// What a report says of a trial so classified.
    pub fn message(&self) -> (text: String)
        ensures
            text@ == self.text(),
    {
        match self {
            Classification::Passed => "ok".to_owned(),
            Classification::BuildFailed => "failed to build".to_owned(),
            Classification::RunFailed => "execution of the test case was unsuccessful".to_owned(),
            Classification::AvailabilityTooLow { expected, found } => {
                let e = expected.text();
                let f = found.text();
                low_availability_message(e.as_str(), f.as_str())
            },
        }
    }
}

/// What a report says of a trial in the given state.
pub open spec fn stage_text(state: TrialState) -> Seq<char> {
    match state.stage {
        Stage::Pass => "ok"@,
        Stage::BuildFailed => "failed to build"@,
        Stage::RunFailed => "execution of the test case was unsuccessful"@,
        Stage::Fail => low_availability_text(
            human_text(state.required),
            human_text(state.elapsed),
        ),
        _ => "unfinished"@,
    }
}

/// One trial in progress.
#[derive(Debug)]
pub struct Trial {
    required: Span,
    stage: Stage,
    elapsed: Span,
    diagnostics: String,
}

impl View for Trial {
    type V = TrialState;

    closed spec fn view(&self) -> TrialState {
        TrialState { required: self.required@, stage: self.stage, elapsed: self.elapsed@ }
    }
}

impl Trial {
    /// What the build or the run last had to say.
    pub closed spec fn diagnostics(&self) -> Seq<char> {
        self.diagnostics@
    }

    /// The span that was required, as given to `new`.
    pub closed spec fn required_span(&self) -> Span {
        self.required
    }

    /// The span that the run took, as given to `exited`.
    pub closed spec fn elapsed_span(&self) -> Span {
        self.elapsed
    }

    /// A trial, not yet begun, of a target that must stay up for `required`.
    pub fn new(required: Span) -> (t: Trial)
        ensures
            t@ == TrialState::start(required@),
            t.diagnostics() == Seq::<char>::empty(),
            t.required_span() == required,
    {
        Trial { required, stage: Stage::Pending, elapsed: Span::zero(), diagnostics: String::new() }
    }

    /// The time that the target must stay up.
    pub fn required(&self) -> (span: Span)
        ensures
            span == self.required_span(),
            span@ == self@.required,
    {
        self.required
    }

    /// What has to be done next.
    pub fn action(&self) -> (a: TrialAction)
        ensures
            a == self@.action(),
            a == TrialAction::Finish <==> self@.done(),
    {
        match self.stage {
            Stage::Pending => TrialAction::Build,
            Stage::Building => TrialAction::Build,
            Stage::Running => TrialAction::Run,
            _ => TrialAction::Finish,
        }
    }

    /// Notes that the build has been started.
    pub fn begin(&mut self)
        ensures
            final(self)@ == old(self)@.begin(),
            final(self).diagnostics() == old(self).diagnostics(),
            final(self).required_span() == old(self).required_span(),
            final(self).elapsed_span() == old(self).elapsed_span(),
    {
        match self.stage {
            Stage::Pending => {
                self.stage = Stage::Building;
            },
            _ => {},
        }
    }

    /// Takes in the end of the build. Outside the building stage this
    /// changes nothing.
    pub fn built(&mut self, success: bool, diagnostics: String)
        ensures
            final(self)@ == old(self)@.built(success),
            final(self).diagnostics() == (if old(self)@.stage == Stage::Building {
                diagnostics@
            } else {
                old(self).diagnostics()
            }),
            final(self).required_span() == old(self).required_span(),
            final(self).elapsed_span() == old(self).elapsed_span(),
    {
        match self.stage {
            Stage::Building => {
                self.stage = if success {
                    Stage::Running
                } else {
                    Stage::BuildFailed
                };
                self.diagnostics = diagnostics;
            },
            _ => {},
        }
    }

    /// Takes in the end of the run, which took `elapsed` from just before the
    /// target was started until it exited. Outside the running stage this
    /// changes nothing.
    pub fn exited(&mut self, success: bool, elapsed: Span, diagnostics: String)
        ensures
            final(self)@ == old(self)@.exited(success, elapsed@),
            final(self).diagnostics() == (if old(self)@.stage == Stage::Running {
                diagnostics@
            } else {
                old(self).diagnostics()
            }),
            final(self).required_span() == old(self).required_span(),
            final(self).elapsed_span() == (if old(self)@.stage == Stage::Running {
                elapsed
            } else {
                old(self).elapsed_span()
            }),
    {
        match self.stage {
            Stage::Running => {
                self.stage = if !success {
                    Stage::RunFailed
                } else if elapsed.shorter_than(&self.required) {
                    Stage::Fail
                } else {
                    Stage::Pass
                };
                self.elapsed = elapsed;
                self.diagnostics = diagnostics;
            },
            _ => {},
        }
    }

    /// What a report says of the trial as it stands.
    pub fn status(&self) -> (text: String)
        ensures
            text@ == stage_text(self@),
    {
        match self.outcome() {
            Some(outcome) => outcome.classification.message(),
            None => "unfinished".to_owned(),
        }
    }

    /// Whether the trial is over and ended in a failure of any kind.
    pub fn failed(&self) -> (r: bool)
        ensures
            r == self@.failed(),
    {
        match self.stage {
            Stage::BuildFailed => true,
            Stage::RunFailed => true,
            Stage::Fail => true,
            _ => false,
        }
    }

    /// The outcome of the trial, once it is over.
    pub fn outcome(&self) -> (r: Option<TrialOutcome>)
        ensures
            r is Some <==> self@.done(),
            r matches Some(o) ==> {
                &&& o.success == (self@.stage == Stage::Pass)
                &&& o.elapsed == self.elapsed_span()
                &&& o.elapsed@ == self@.elapsed
                &&& o.classification.stage() == self@.stage
                &&& o.diagnostic_text@ == self.diagnostics()
                &&& o.classification matches Classification::AvailabilityTooLow {
                    expected,
                    found,
                } ==> expected == self.required_span() && found == self.elapsed_span()
                    && expected@ == self@.required && found@ == self@.elapsed
            },
    {
        let classification = match self.stage {
            Stage::Pass => Classification::Passed,
            Stage::BuildFailed => Classification::BuildFailed,
            Stage::RunFailed => Classification::RunFailed,
            Stage::Fail => Classification::AvailabilityTooLow {
                expected: self.required,
                found: self.elapsed,
            },
            _ => {
                return None;
            },
        };
        let success = match self.stage {
            Stage::Pass => true,
            _ => false,
        };
        Some(
            TrialOutcome {
                success,
                elapsed: self.elapsed,
                classification,
                diagnostic_text: self.diagnostics.clone(),
            },
        )
    }
}

} // verus!
