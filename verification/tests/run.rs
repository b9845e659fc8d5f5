use kaos::entry::EntryRun;
use kaos::expand::{expand_globs, ExpandedTest, Resolved};
use kaos::plan::{Mode, Runs};
use kaos::project::{make_manifest, retain_declared, Project};
use kaos::report::{is_self_test, summary_message, Report};
use kaos::run::{entry_message, Runner, Step, SHRINK_BUDGET};
use kaos::sampler::Sampler;
use kaos::span::Span;
use kaos::trial::{Classification, TrialAction};

fn strings(items: &[&str]) -> Vec<String> {
    items.iter().map(|s| s.to_string()).collect()
}

fn sampler() -> Sampler {
    Sampler::new(&vec![5; 32]).unwrap()
}

/// Drives a run against a target that builds unless its path holds
/// `broken`, crashes at once if its path holds `crash`, and otherwise stays
/// up as long as asked, but no longer than `stays_up`.
fn drive(trials: Vec<ExpandedTest>, stays_up: Span) -> Runner {
    let mut sampler = sampler();
    let mut runner = Runner::new(trials, SHRINK_BUDGET);
    loop {
        match runner.next(&mut sampler) {
            Step::Build { index } => {
                let broken = runner.trials()[index].test.path.contains("broken");
                runner.built(!broken, String::new());
            }
            Step::Run { index, required } => {
                let crash = runner.trials()[index].test.path.contains("crash");
                let elapsed = if crash {
                    Span::zero()
                } else if stays_up.shorter_than(&required) {
                    stays_up
                } else {
                    required
                };
                runner.exited(!crash, elapsed, String::new());
            }
            Step::Done => return runner,
        }
    }
}

#[test]
fn three_available_entries_all_pass() {
    let mut runs = Runs::new();
    runs.available("one.rs", Span::from_secs(1));
    runs.available("two.rs", Span::from_secs(2));
    runs.available("three.rs", Span::from_secs(3));
    let plan = expand_globs(runs.tests(), &vec![]);
    let mut sampler = sampler();
    let mut runner = Runner::new(plan, SHRINK_BUDGET);
    let mut asked = Vec::new();
    loop {
        match runner.next(&mut sampler) {
            Step::Build { .. } => {
                assert!(runner.built(true, String::new()).is_none());
            }
            Step::Run { index, required } => {
                asked.push((index, required));
                let told = runner.exited(true, Span::from_secs(5), String::new()).unwrap();
                assert!(told.success);
                assert_eq!(told.classification, Classification::Passed);
                assert_eq!(told.elapsed, Span::from_secs(5));
            }
            Step::Done => break,
        }
    }
    assert_eq!(asked, vec![(0, Span::from_secs(1)), (1, Span::from_secs(2)), (2, Span::from_secs(3))]);
    assert!(runner.is_done());
    let report = runner.report();
    assert_eq!(report.total(), 3);
    assert_eq!(report.failures(), 0);
    assert_eq!(report.summary(), "0 of 3 trials failed");
    assert_eq!(report.verdict("demo-tests"), None);
    assert_eq!(
        report.lines(),
        strings(&["test one.rs ... ok", "test two.rs ... ok", "test three.rs ... ok"])
    );
}

#[test]
fn failures_are_tallied_and_raised() {
    let mut runs = Runs::new();
    runs.available("fine.rs", Span::from_secs(1));
    runs.available("slow.rs", Span::from_secs(9));
    runs.available("broken.rs", Span::from_secs(1));
    runs.available("crash.rs", Span::from_secs(1));
    runs.available("bad/a**b/*.rs", Span::from_secs(1));
    let plan = expand_globs(runs.tests(), &vec![]);
    let runner = drive(plan, Span::from_secs(5));
    let report = runner.report();
    assert_eq!(report.total(), 5);
    assert_eq!(report.failures(), 4);
    assert_eq!(report.summary(), "4 of 5 trials failed");
    assert_eq!(report.verdict("demo-tests"), Some("4 of 5 trials failed".to_string()));
    assert_eq!(report.verdict("kaos-tests"), None);
    assert_eq!(
        report.lines(),
        strings(&[
            "test fine.rs ... ok",
            "test slow.rs ... availability is low. Expected at least: 9s, Found: 5s",
            "test broken.rs ... failed to build",
            "test crash.rs ... execution of the test case was unsuccessful",
            "test bad/a**b/*.rs ... error: Pattern syntax error near position 4: recursive wildcards must form a single path component",
        ])
    );
}

#[test]
fn chaotic_entry_finds_what_the_target_sustains() {
    let mut runs = Runs::new();
    runs.chaotic("service.rs", 10, 10000);
    let plan = expand_globs(runs.tests(), &vec![]);
    let mut sampler = sampler();
    let mut runner = Runner::new(plan, SHRINK_BUDGET);
    let stays_up = Span::from_millis(3999);
    let mut builds = 0;
    let mut runs_made = 0;
    loop {
        match runner.next(&mut sampler) {
            Step::Build { index } => {
                assert_eq!(index, 0);
                builds += 1;
                runner.built(true, String::new());
            }
            Step::Run { required, .. } => {
                runs_made += 1;
                let elapsed = if stays_up.shorter_than(&required) { stays_up } else { required };
                let told = runner.exited(true, elapsed, String::new()).unwrap();
                assert_eq!(told.success, !stays_up.shorter_than(&required));
            }
            Step::Done => break,
        }
    }
    assert_eq!(builds, runs_made);
    assert!(runs_made <= 10 + 14);
    let report = runner.report();
    assert_eq!(report.total(), 1);
    assert_eq!(report.failures(), 1);
    assert_eq!(report.summary(), "1 of 1 trials failed");
    let line = &report.lines()[0];
    assert!(line.starts_with("test service.rs ... chaos test failed: minimal failing surge 4s, found after "));
    assert!(line.ends_with(" shrink steps"));
}

#[test]
fn chaotic_entry_passes_when_the_domain_is_sustained() {
    let mut runs = Runs::new();
    runs.chaotic("service.rs", 10, 4000);
    runs.chaotic("empty.rs", 10, 0);
    runs.chaotic("none.rs", 0, 100);
    let plan = expand_globs(runs.tests(), &vec![]);
    let runner = drive(plan, Span::from_secs(4));
    let report = runner.report();
    assert_eq!(report.failures(), 0);
    assert_eq!(
        report.lines(),
        strings(&[
            "test service.rs ... ok, 10 samples passed",
            "test empty.rs ... ok, 0 samples passed",
            "test none.rs ... ok, 0 samples passed",
        ])
    );
    assert_eq!(report.verdict("demo-tests"), None);
}

#[test]
fn empty_plan_is_done_at_once() {
    let mut sampler = sampler();
    let mut runner = Runner::new(vec![], SHRINK_BUDGET);
    assert!(runner.is_done());
    assert_eq!(runner.next(&mut sampler), Step::Done);
    assert_eq!(runner.report().summary(), "0 of 0 trials failed");
    assert_eq!(runner.report().verdict("demo-tests"), None);
    assert!(!runner.finish_entry());
    assert!(!runner.begin_entry(&mut sampler));
    assert!(runner.built(true, String::new()).is_none());
}

#[test]
fn entry_run_of_a_placeholder_needs_nothing_done() {
    let entry = EntryRun::new(Mode::Available { duration: Span::from_secs(1) }, true, vec![], 10);
    assert!(entry.is_done());
    assert!(entry.failed());
    assert_eq!(entry.action(), TrialAction::Finish);
    assert!(entry.outcome().is_none());
    assert!(entry.search_result().is_none());
}

#[test]
fn entry_run_of_a_chaotic_entry_feeds_its_search() {
    let mut entry = EntryRun::new(Mode::Chaotic { run_count: 1, max_surge: 10 }, false, vec![7], 10);
    let mut asked = Vec::new();
    loop {
        match entry.action() {
            TrialAction::Build => {
                entry.begin();
                entry.built(true, String::new());
            }
            TrialAction::Run => {
                let required = entry.required();
                asked.push(required);
                let stays_up = Span::from_millis(4);
                let elapsed = if stays_up.shorter_than(&required) { stays_up } else { required };
                entry.exited(true, elapsed, String::new());
            }
            TrialAction::Finish => break,
        }
    }
    assert_eq!(
        asked,
        vec![Span::from_millis(7), Span::from_millis(3), Span::from_millis(5), Span::from_millis(4)]
    );
    assert!(entry.failed());
    let result = entry.search_result().unwrap();
    assert_eq!(result.minimal_failing_surge, Some(5));
    assert_eq!(result.samples_run, 1);
    assert_eq!(result.shrink_steps, 3);
    assert_eq!(
        entry.status(&None),
        "chaos test failed: minimal failing surge 5ms, found after 1 samples and 3 shrink steps"
    );
}

#[test]
fn report_counts_what_it_is_given() {
    let mut report = Report::new();
    assert_eq!(report.summary(), "0 of 0 trials failed");
    report.record("first".to_string(), false);
    report.record("second".to_string(), true);
    report.record("third".to_string(), true);
    assert_eq!(report.total(), 3);
    assert_eq!(report.failures(), 2);
    assert_eq!(report.lines(), strings(&["first", "second", "third"]));
    assert_eq!(report.summary(), "2 of 3 trials failed");
    assert_eq!(report.verdict("svc-tests"), Some("2 of 3 trials failed".to_string()));
    assert_eq!(report.verdict("kaos-tests"), None);
    assert_eq!(summary_message(12, 345), "12 of 345 trials failed");
    assert!(is_self_test("kaos-tests"));
    assert!(!is_self_test("kaos-test"));
    assert_eq!(entry_message("a.rs", "ok"), "test a.rs ... ok");
}

#[test]
fn project_describes_the_plan() {
    let mut runs = Runs::new();
    runs.available("a.rs", Span::from_secs(2));
    runs.chaotic("b.rs", 10, 10000);
    runs.chaotic("bad/a**b/*.rs", 1, usize::MAX);
    let plan = expand_globs(runs.tests(), &vec![Resolved::Matches(vec![])]);
    let declared = strings(&["tokio", "serde"]);
    let project = Project::prepare(
        "svc",
        "/t/tests/svc".to_string(),
        "/src/svc".to_string(),
        "/t".to_string(),
        "/src".to_string(),
        Some(strings(&["serde", "absent", "tokio", "serde"])),
        &declared,
        &plan,
    );
    assert_eq!(project.name, "svc-tests");
    assert_eq!(project.dir, "/t/tests/svc");
    assert_eq!(project.source_dir, "/src/svc");
    assert_eq!(project.target_dir, "/t");
    assert_eq!(project.workspace, "/src");
    assert!(project.has_run_at_least);
    assert!(project.has_chaotic);
    assert_eq!(project.surges, vec![-1, 10000, -1]);
    assert_eq!(project.durations, vec![Some(Span::from_secs(2)), None, None]);
    assert_eq!(project.features, Some(strings(&["serde", "tokio", "serde"])));

    let manifest = make_manifest("svc", &project, &declared, &plan);
    assert_eq!(manifest.name, "svc-tests");
    assert_eq!(
        manifest.features,
        vec![
            ("tokio".to_string(), "svc/tokio".to_string()),
            ("serde".to_string(), "svc/serde".to_string())
        ]
    );
    let bins: Vec<(String, String)> =
        manifest.bins.iter().map(|b| (b.name.clone(), b.path.clone())).collect();
    assert_eq!(
        bins,
        vec![
            ("svc-tests".to_string(), "main.rs".to_string()),
            ("kaos000".to_string(), "a.rs".to_string()),
            ("kaos001".to_string(), "b.rs".to_string()),
        ]
    );
}

#[test]
fn project_of_an_empty_plan() {
    let project = Project::prepare(
        "svc",
        String::new(),
        String::new(),
        String::new(),
        String::new(),
        None,
        &vec![],
        &vec![],
    );
    assert!(!project.has_run_at_least);
    assert!(!project.has_chaotic);
    assert!(project.surges.is_empty());
    assert!(project.durations.is_empty());
    assert_eq!(project.features, None);
    assert_eq!(retain_declared(&strings(&["a"]), &vec![]), Vec::<String>::new());
}

/// The surges asked of a target that sustains everything, in order.
fn surges_asked(trials: Vec<ExpandedTest>) -> Vec<Span> {
    let mut sampler = sampler();
    let mut runner = Runner::new(trials, SHRINK_BUDGET);
    let mut asked = Vec::new();
    loop {
        match runner.next(&mut sampler) {
            Step::Build { .. } => {
                runner.built(true, String::new());
            }
            Step::Run { required, .. } => {
                asked.push(required);
                runner.exited(true, required, String::new());
            }
            Step::Done => return asked,
        }
    }
}

#[test]
fn placeholder_draws_nothing() {
    let mut with_placeholder = Runs::new();
    with_placeholder.chaotic("bad/a**b/*.rs", 5, 1000);
    with_placeholder.chaotic("service.rs", 5, 1000);
    let mut without = Runs::new();
    without.chaotic("service.rs", 5, 1000);
    let first = surges_asked(expand_globs(with_placeholder.tests(), &vec![]));
    let second = surges_asked(expand_globs(without.tests(), &vec![]));
    assert_eq!(first.len(), 5);
    assert_eq!(first, second);
}

#[test]
fn entries_share_one_random_source() {
    let mut runs = Runs::new();
    runs.chaotic("one.rs", 4, 1_000_000);
    runs.chaotic("two.rs", 4, 1_000_000);
    let asked = surges_asked(expand_globs(runs.tests(), &vec![]));
    assert_eq!(asked.len(), 8);
    assert_ne!(asked[..4], asked[4..]);
    let mut source = sampler();
    let drawn: Vec<Span> =
        source.samples(8, 1_000_000).into_iter().map(Span::from_millis).collect();
    assert_eq!(asked, drawn);
}
