use kaos::expand::{bin_name, expand_globs, needs_resolution, ExpandedTest, PlanError, Resolved};
use kaos::filter::{filter, filters_from_args};
use kaos::order::sort_paths;
use kaos::plan::{Mode, Runs};
use kaos::span::Span;
use kaos::text::{contains, contains_char, decimal_text, precedes, starts_with};

fn strings(items: &[&str]) -> Vec<String> {
    items.iter().map(|s| s.to_string()).collect()
}

fn paths_of(trials: &Vec<ExpandedTest>) -> Vec<String> {
    trials.iter().map(|t| t.test.path.clone()).collect()
}

fn names_of(trials: &Vec<ExpandedTest>) -> Vec<String> {
    trials.iter().map(|t| t.name.clone()).collect()
}

#[test]
fn builder_keeps_entries_in_order() {
    let mut runs = Runs::new();
    assert_eq!(runs.len(), 0);
    runs.available("tests/a.rs", Span::from_secs(2));
    runs.chaotic("tests/b.rs", 10, 10000);
    assert_eq!(runs.len(), 2);
    let tests = runs.tests();
    assert_eq!(tests[0].path, "tests/a.rs");
    assert_eq!(tests[0].mode, Mode::Available { duration: Span::from_secs(2) });
    assert_eq!(tests[1].path, "tests/b.rs");
    assert_eq!(tests[1].mode, Mode::Chaotic { run_count: 10, max_surge: 10000 });
}

#[test]
fn plain_entry_gives_exactly_one_trial() {
    let mut runs = Runs::new();
    runs.available("kaos-tests/plain.rs", Span::from_secs(1));
    let plan = expand_globs(runs.tests(), &vec![Resolved::Matches(strings(&["ignored.rs"]))]);
    assert_eq!(plan.len(), 1);
    assert_eq!(plan[0].name, "kaos000");
    assert_eq!(plan[0].test.path, "kaos-tests/plain.rs");
    assert_eq!(plan[0].test.mode, Mode::Available { duration: Span::from_secs(1) });
    assert!(plan[0].error.is_none());
}

#[test]
fn expansion_is_the_same_each_time() {
    let mut runs = Runs::new();
    runs.available("a.rs", Span::from_secs(1));
    runs.chaotic("dir/*.rs", 3, 50);
    let found = vec![Resolved::Matches(vec![]), Resolved::Matches(strings(&["dir/y.rs", "dir/x.rs"]))];
    let first = expand_globs(runs.tests(), &found);
    let second = expand_globs(runs.tests(), &found);
    assert_eq!(names_of(&first), names_of(&second));
    assert_eq!(paths_of(&first), paths_of(&second));
}

#[test]
fn wildcard_entry_gives_sorted_matches() {
    let mut runs = Runs::new();
    runs.chaotic("kaos-tests/*.rs", 4, 100);
    assert!(needs_resolution(&runs.tests()[0]));
    let found = vec![Resolved::Matches(strings(&[
        "kaos-tests/zeta.rs",
        "kaos-tests/alpha.rs",
        "kaos-tests/mid.rs",
        "kaos-tests/Alpha.rs",
    ]))];
    let plan = expand_globs(runs.tests(), &found);
    assert_eq!(
        paths_of(&plan),
        strings(&["kaos-tests/Alpha.rs", "kaos-tests/alpha.rs", "kaos-tests/mid.rs", "kaos-tests/zeta.rs"])
    );
    assert_eq!(names_of(&plan), strings(&["kaos000", "kaos001", "kaos002", "kaos003"]));
    for trial in &plan {
        assert_eq!(trial.test.mode, Mode::Chaotic { run_count: 4, max_surge: 100 });
        assert!(trial.error.is_none());
    }
}

#[test]
fn names_run_over_the_flattened_plan() {
    let mut runs = Runs::new();
    runs.available("first.rs", Span::from_secs(1));
    runs.available("many/*.rs", Span::from_secs(2));
    runs.available("last.rs", Span::from_secs(3));
    let found = vec![
        Resolved::Matches(vec![]),
        Resolved::Matches(strings(&["many/b.rs", "many/a.rs"])),
        Resolved::Matches(vec![]),
    ];
    let plan = expand_globs(runs.tests(), &found);
    assert_eq!(paths_of(&plan), strings(&["first.rs", "many/a.rs", "many/b.rs", "last.rs"]));
    assert_eq!(names_of(&plan), strings(&["kaos000", "kaos001", "kaos002", "kaos003"]));
    assert_eq!(plan[3].test.mode, Mode::Available { duration: Span::from_secs(3) });
}

#[test]
fn wildcard_without_match_gives_no_trial() {
    let mut runs = Runs::new();
    runs.available("none/*.rs", Span::from_secs(1));
    runs.available("b.rs", Span::from_secs(1));
    let plan = expand_globs(runs.tests(), &vec![Resolved::Matches(vec![])]);
    assert_eq!(paths_of(&plan), strings(&["b.rs"]));
    assert_eq!(plan[0].name, "kaos000");
    let short = expand_globs(runs.tests(), &vec![]);
    assert_eq!(paths_of(&short), strings(&["b.rs"]));
}

#[test]
fn malformed_pattern_gives_a_placeholder() {
    let mut runs = Runs::new();
    runs.available("ok.rs", Span::from_secs(1));
    runs.available("bad/a**b/*.rs", Span::from_secs(1));
    runs.available("after.rs", Span::from_secs(1));
    assert!(!needs_resolution(&runs.tests()[0]));
    assert!(!needs_resolution(&runs.tests()[1]));
    let found = vec![
        Resolved::Matches(vec![]),
        Resolved::Matches(strings(&["never/used.rs"])),
        Resolved::Matches(vec![]),
    ];
    let plan = expand_globs(runs.tests(), &found);
    assert_eq!(paths_of(&plan), strings(&["ok.rs", "bad/a**b/*.rs", "after.rs"]));
    assert!(plan[0].error.is_none());
    assert!(plan[2].error.is_none());
    match &plan[1].error {
        Some(PlanError::Pattern { pos, msg }) => {
            assert_eq!(*pos, 4);
            assert_eq!(msg, "recursive wildcards must form a single path component");
        }
        other => panic!("expected a pattern error, got {:?}", other),
    }
    assert_eq!(
        plan[1].error.as_ref().unwrap().message(),
        "Pattern syntax error near position 4: recursive wildcards must form a single path component"
    );
}

#[test]
fn unreadable_walk_gives_a_placeholder() {
    let mut runs = Runs::new();
    runs.chaotic("locked/*.rs", 2, 10);
    let plan = expand_globs(runs.tests(), &vec![Resolved::Unreadable("permission denied".to_string())]);
    assert_eq!(plan.len(), 1);
    assert_eq!(plan[0].test.path, "locked/*.rs");
    match &plan[0].error {
        Some(PlanError::Unreadable { detail }) => assert_eq!(detail, "permission denied"),
        other => panic!("expected an unreadable walk, got {:?}", other),
    }
    assert_eq!(plan[0].error.as_ref().unwrap().message(), "permission denied");
}

#[test]
fn trial_names_are_zero_padded() {
    assert_eq!(bin_name(0), "kaos000");
    assert_eq!(bin_name(7), "kaos007");
    assert_eq!(bin_name(42), "kaos042");
    assert_eq!(bin_name(99), "kaos099");
    assert_eq!(bin_name(100), "kaos100");
    assert_eq!(bin_name(1234), "kaos1234");
}

#[test]
fn trial_names_are_unique() {
    let mut seen = std::collections::HashSet::new();
    for i in 0..1500 {
        assert!(seen.insert(bin_name(i)));
    }
}

#[test]
fn sort_paths_orders_by_code_point() {
    let sorted = sort_paths(&strings(&["b", "a/b", "a.b", "a", "", "B", "a"]));
    assert_eq!(sorted, strings(&["", "B", "a", "a", "a.b", "a/b", "b"]));
    let mut expected = strings(&["é", "z", "ab", "a", "Z"]);
    let got = sort_paths(&expected);
    expected.sort();
    assert_eq!(got, expected);
}

#[test]
fn filters_are_what_follows_the_prefix() {
    let args = strings(&["harness", "chaos_tests", "kaos=tuple", "--nocapture", "kaos=", "kaos", "kaos=a=b", "xkaos=no"]);
    assert_eq!(filters_from_args(&args), strings(&["tuple", "a=b"]));
    assert_eq!(filters_from_args(&strings(&["kaos="])), Vec::<String>::new());
    assert_eq!(filters_from_args(&vec![]), Vec::<String>::new());
}

fn sample_plan() -> Vec<ExpandedTest> {
    let mut runs = Runs::new();
    runs.available("kaos-tests/tuple_structs.rs", Span::from_secs(1));
    runs.available("kaos-tests/enums.rs", Span::from_secs(1));
    runs.chaotic("kaos-tests/tuple_enums.rs", 2, 10);
    runs.available("other/unions.rs", Span::from_secs(1));
    expand_globs(runs.tests(), &vec![])
}

#[test]
fn filter_without_filters_keeps_the_plan() {
    let mut plan = sample_plan();
    filter(&mut plan, &strings(&["harness", "--nocapture", "kaos="]));
    assert_eq!(plan.len(), 4);
    assert_eq!(names_of(&plan), strings(&["kaos000", "kaos001", "kaos002", "kaos003"]));
}

#[test]
fn filter_keeps_trials_that_any_filter_selects() {
    let mut plan = sample_plan();
    filter(&mut plan, &strings(&["harness", "kaos=tuple", "kaos=unions"]));
    assert_eq!(
        paths_of(&plan),
        strings(&["kaos-tests/tuple_structs.rs", "kaos-tests/tuple_enums.rs", "other/unions.rs"])
    );
    assert_eq!(names_of(&plan), strings(&["kaos000", "kaos002", "kaos003"]));
    let mut none = sample_plan();
    filter(&mut none, &strings(&["kaos=absent"]));
    assert!(none.is_empty());
}

#[test]
fn filter_twice_is_filter_once() {
    let args = strings(&["kaos=enums"]);
    let mut once = sample_plan();
    filter(&mut once, &args);
    let mut twice = sample_plan();
    filter(&mut twice, &args);
    filter(&mut twice, &args);
    assert_eq!(paths_of(&once), strings(&["kaos-tests/enums.rs", "kaos-tests/tuple_enums.rs"]));
    assert_eq!(paths_of(&once), paths_of(&twice));
    assert_eq!(names_of(&once), names_of(&twice));
}

#[test]
fn text_helpers_agree_with_std() {
    assert!(contains("kaos-tests/a.rs", "tests"));
    assert!(contains("abc", ""));
    assert!(contains("abc", "abc"));
    assert!(!contains("abc", "abcd"));
    assert!(!contains("abc", "ca"));
    assert!(contains("aab", "ab"));
    assert!(starts_with("kaos=x", "kaos="));
    assert!(!starts_with("kao", "kaos="));
    assert!(!starts_with("xkaos=", "kaos="));
    assert!(contains_char("a*b", '*'));
    assert!(!contains_char("ab", '*'));
    assert!(precedes("a", "a"));
    assert!(precedes("a", "ab"));
    assert!(!precedes("ab", "a"));
    assert!(precedes("Z", "a"));
    assert!(!precedes("b", "a"));
    assert_eq!(decimal_text(0), "0");
    assert_eq!(decimal_text(9), "9");
    assert_eq!(decimal_text(10), "10");
    assert_eq!(decimal_text(4096), "4096");
    assert_eq!(decimal_text(usize::MAX), usize::MAX.to_string());
}
