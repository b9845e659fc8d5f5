use kaos::span::Span;
use kaos::trial::{low_availability_message, Classification, Trial, TrialAction};

fn conduct(required: Span, build_ok: bool, run_ok: bool, elapsed: Span) -> Trial {
    let mut trial = Trial::new(required);
    loop {
        match trial.action() {
            TrialAction::Build => {
                trial.begin();
                trial.built(build_ok, "build output".to_string());
            }
            TrialAction::Run => trial.exited(run_ok, elapsed, "run output".to_string()),
            TrialAction::Finish => return trial,
        }
    }
}

#[test]
fn span_holds_seconds_and_nanoseconds() {
    assert_eq!(Span::from_millis(1500).as_secs(), 1);
    assert_eq!(Span::from_millis(1500).subsec_nanos(), 500_000_000);
    assert_eq!(Span::from_millis(999).as_secs(), 0);
    assert_eq!(Span::from_millis(999).subsec_nanos(), 999_000_000);
    assert_eq!(Span::from_millis(u64::MAX).as_secs(), u64::MAX / 1000);
    assert_eq!(Span::from_secs(3).as_secs(), 3);
    assert_eq!(Span::from_secs(3).subsec_nanos(), 0);
    assert_eq!(Span::zero(), Span::from_millis(0));
    assert_eq!(Span::new(2, 5), Some(Span::new(2, 5).unwrap()));
    assert_eq!(Span::new(1, 500_000_000), Some(Span::from_millis(1500)));
    assert_eq!(Span::new(0, 1_000_000_000), None);
    assert_eq!(Span::new(0, 999_999_999).unwrap().subsec_nanos(), 999_999_999);
}

#[test]
fn span_order_is_by_length() {
    assert!(Span::from_millis(999).shorter_than(&Span::from_secs(1)));
    assert!(!Span::from_secs(1).shorter_than(&Span::from_secs(1)));
    assert!(!Span::from_millis(1001).shorter_than(&Span::from_secs(1)));
    assert!(Span::new(1, 1).unwrap().shorter_than(&Span::new(1, 2).unwrap()));
    assert!(Span::new(1, 999_999_999).unwrap().shorter_than(&Span::new(2, 0).unwrap()));
}

#[test]
fn span_reads_as_humantime_renders_it() {
    assert_eq!(Span::from_millis(1500).text(), "1s 500ms");
    assert_eq!(Span::from_secs(9420).text(), "2h 37m");
    assert_eq!(Span::zero().text(), "0s");
    assert_eq!(Span::new(0, 32_000_000).unwrap().text(), "32ms");
}

#[test]
fn trial_passes_when_target_stays_up_long_enough() {
    let exact = conduct(Span::from_secs(2), true, true, Span::from_secs(2));
    let outcome = exact.outcome().unwrap();
    assert!(outcome.success);
    assert_eq!(outcome.classification, Classification::Passed);
    assert_eq!(outcome.elapsed, Span::from_secs(2));
    assert_eq!(outcome.diagnostic_text, "run output");
    assert!(!exact.failed());
    let longer = conduct(Span::from_secs(2), true, true, Span::from_secs(5));
    assert!(longer.outcome().unwrap().success);
}

#[test]
fn trial_fails_when_target_exits_too_soon() {
    let required = Span::from_millis(2000);
    let found = Span::from_millis(1999);
    let trial = conduct(required, true, true, found);
    let outcome = trial.outcome().unwrap();
    assert!(!outcome.success);
    assert_eq!(outcome.classification, Classification::AvailabilityTooLow { expected: required, found });
    assert_eq!(outcome.elapsed, found);
    assert!(trial.failed());
    assert_eq!(
        outcome.classification.message(),
        "availability is low. Expected at least: 2s, Found: 1s 999ms"
    );
    assert_eq!(trial.status(), "availability is low. Expected at least: 2s, Found: 1s 999ms");
}

#[test]
fn failed_build_is_never_run() {
    let mut trial = Trial::new(Span::from_secs(1));
    assert_eq!(trial.action(), TrialAction::Build);
    assert!(trial.outcome().is_none());
    trial.begin();
    assert_eq!(trial.action(), TrialAction::Build);
    trial.built(false, "error[E0425]".to_string());
    assert_eq!(trial.action(), TrialAction::Finish);
    trial.exited(true, Span::from_secs(9), "late".to_string());
    let outcome = trial.outcome().unwrap();
    assert!(!outcome.success);
    assert_eq!(outcome.classification, Classification::BuildFailed);
    assert_eq!(outcome.elapsed, Span::zero());
    assert_eq!(outcome.diagnostic_text, "error[E0425]");
    assert_eq!(outcome.classification.message(), "failed to build");
}

#[test]
fn crash_is_a_failed_run_however_long_it_took() {
    let trial = conduct(Span::from_secs(1), true, false, Span::from_secs(60));
    let outcome = trial.outcome().unwrap();
    assert!(!outcome.success);
    assert_eq!(outcome.classification, Classification::RunFailed);
    assert_eq!(outcome.elapsed, Span::from_secs(60));
    assert_eq!(outcome.classification.message(), "execution of the test case was unsuccessful");
    let short = conduct(Span::from_secs(10), true, false, Span::from_secs(1));
    assert_eq!(short.outcome().unwrap().classification, Classification::RunFailed);
}

#[test]
fn events_out_of_turn_change_nothing() {
    let mut trial = Trial::new(Span::from_secs(1));
    trial.built(true, "early".to_string());
    trial.exited(true, Span::from_secs(5), "early".to_string());
    assert_eq!(trial.action(), TrialAction::Build);
    assert!(trial.outcome().is_none());
    assert_eq!(trial.status(), "unfinished");
    trial.begin();
    trial.built(true, "built".to_string());
    assert_eq!(trial.action(), TrialAction::Run);
    trial.begin();
    trial.built(false, "again".to_string());
    assert_eq!(trial.action(), TrialAction::Run);
    trial.exited(true, Span::from_secs(1), "done".to_string());
    assert_eq!(trial.status(), "ok");
    assert_eq!(trial.required(), Span::from_secs(1));
}

#[test]
fn low_availability_message_names_both_spans() {
    assert_eq!(
        low_availability_message("3s", "1s 200ms"),
        "availability is low. Expected at least: 3s, Found: 1s 200ms"
    );
}
