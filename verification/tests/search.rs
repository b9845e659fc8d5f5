use kaos::sampler::Sampler;
use kaos::search::{Search, SearchResult};

fn seed(byte: u8) -> Vec<u8> {
    vec![byte; 32]
}

/// Runs a search against a target that fails exactly above `limit`.
fn run_above(samples: Vec<u64>, budget: usize, limit: u64) -> (SearchResult, Vec<u64>) {
    let mut search = Search::new(samples, budget);
    let mut probes = Vec::new();
    while let Some(surge) = search.probe() {
        probes.push(surge);
        search.record(surge > limit);
    }
    assert!(search.is_done());
    (search.result(), probes)
}

#[test]
fn search_without_samples_passes_at_once() {
    let search = Search::new(vec![], 100);
    assert!(search.is_done());
    assert_eq!(search.probe(), None);
    assert_eq!(
        search.result(),
        SearchResult { minimal_failing_surge: None, samples_run: 0, shrink_steps: 0, passed: true }
    );
    assert_eq!(search.status(), "ok, 0 samples passed");
}

#[test]
fn search_passes_when_no_sample_fails() {
    let (result, probes) = run_above(vec![10, 3999, 0, 2500], 100, 3999);
    assert_eq!(
        result,
        SearchResult { minimal_failing_surge: None, samples_run: 4, shrink_steps: 0, passed: true }
    );
    assert_eq!(probes, vec![10, 3999, 0, 2500]);
}

#[test]
fn search_shrinks_to_the_smallest_failing_surge() {
    let (result, probes) = run_above(vec![100, 9000, 123], 100, 3999);
    assert_eq!(result.minimal_failing_surge, Some(4000));
    assert!(!result.passed);
    assert_eq!(result.samples_run, 2);
    assert_eq!(probes[..3], [100, 9000, 4500]);
    assert_eq!(probes[3], 2250);
    assert_eq!(probes[4], 3375);
    assert_eq!(result.shrink_steps, probes.len() - 2);
    assert!(result.shrink_steps <= 14);
}

#[test]
fn search_trace_is_exact_on_a_small_domain() {
    let (result, probes) = run_above(vec![7], 100, 4);
    assert_eq!(probes, vec![7, 3, 5, 4]);
    assert_eq!(
        result,
        SearchResult { minimal_failing_surge: Some(5), samples_run: 1, shrink_steps: 3, passed: false }
    );
}

#[test]
fn search_stops_when_the_budget_is_spent() {
    let (result, probes) = run_above(vec![1000], 2, 9);
    assert_eq!(probes, vec![1000, 500, 250]);
    assert_eq!(
        result,
        SearchResult { minimal_failing_surge: Some(250), samples_run: 1, shrink_steps: 2, passed: false }
    );
    let (none, probes) = run_above(vec![1000], 0, 9);
    assert_eq!(probes, vec![1000]);
    assert_eq!(none.minimal_failing_surge, Some(1000));
    assert_eq!(none.shrink_steps, 0);
}

#[test]
fn search_reports_zero_when_everything_fails() {
    let mut search = Search::new(vec![5], 100);
    let mut probes = Vec::new();
    while let Some(surge) = search.probe() {
        probes.push(surge);
        search.record(true);
    }
    assert_eq!(probes, vec![5, 2, 1, 0]);
    assert_eq!(search.result().minimal_failing_surge, Some(0));
    let mut at_zero = Search::new(vec![0], 100);
    at_zero.record(true);
    assert!(at_zero.is_done());
    assert_eq!(at_zero.result().minimal_failing_surge, Some(0));
    assert_eq!(at_zero.result().shrink_steps, 0);
}

#[test]
fn search_handles_the_largest_surge() {
    let (result, _) = run_above(vec![u64::MAX], 64, u64::MAX - 1);
    assert_eq!(result.minimal_failing_surge, Some(u64::MAX));
    assert!(result.shrink_steps <= 64);
    let (low, _) = run_above(vec![u64::MAX], 64, 0);
    assert_eq!(low.minimal_failing_surge, Some(1));
    assert!(low.shrink_steps <= 64);
}

#[test]
fn search_ignores_records_after_its_end() {
    let mut search = Search::new(vec![3], 10);
    search.record(false);
    let ended = search.result();
    search.record(true);
    search.record(false);
    assert_eq!(search.result(), ended);
    assert!(ended.passed);
}

#[test]
fn search_status_names_the_counterexample() {
    let mut search = Search::new(vec![7], 100);
    assert_eq!(search.status(), "unfinished");
    while let Some(surge) = search.probe() {
        search.record(surge > 4);
    }
    assert_eq!(
        search.status(),
        "chaos test failed: minimal failing surge 5ms, found after 1 samples and 3 shrink steps"
    );
}

#[test]
fn sampler_wants_a_seed_of_32_bytes() {
    assert!(Sampler::new(&seed(1)).is_some());
    assert!(Sampler::new(&vec![1; 31]).is_none());
    assert!(Sampler::new(&vec![1; 33]).is_none());
    assert!(Sampler::new(&vec![]).is_none());
}

#[test]
fn sampler_draws_below_the_bound() {
    let mut sampler = Sampler::new(&seed(7)).unwrap();
    let samples = sampler.samples(200, 10);
    assert_eq!(samples.len(), 200);
    assert!(samples.iter().all(|s| *s < 10));
    assert!(samples.iter().any(|s| *s != samples[0]));
    assert_eq!(sampler.samples(5, 1), vec![0, 0, 0, 0, 0]);
    assert_eq!(sampler.samples(5, 0), Vec::<u64>::new());
    assert_eq!(sampler.samples(0, 10), Vec::<u64>::new());
    assert_eq!(sampler.draw(0), None);
    assert!(sampler.draw(3).unwrap() < 3);
}

#[test]
fn same_seed_gives_the_same_samples() {
    let mut first = Sampler::new(&seed(42)).unwrap();
    let mut second = Sampler::new(&seed(42)).unwrap();
    let a = first.samples(10, 10000);
    let b = second.samples(10, 10000);
    assert_eq!(a, b);
    assert_eq!(first.samples(3, 77), second.samples(3, 77));
    let mut other = Sampler::new(&seed(43)).unwrap();
    assert_ne!(other.samples(10, 10000), a);
}

#[test]
fn same_seed_and_same_target_give_the_same_search() {
    let mut first = Sampler::new(&seed(9)).unwrap();
    let mut second = Sampler::new(&seed(9)).unwrap();
    let (a, trace_a) = run_above(first.samples(10, 10000), 1024, 3999);
    let (b, trace_b) = run_above(second.samples(10, 10000), 1024, 3999);
    assert_eq!(a, b);
    assert_eq!(trace_a, trace_b);
}

#[test]
fn chaotic_search_converges_on_the_threshold() {
    let mut sampler = Sampler::new(&seed(3)).unwrap();
    let samples = sampler.samples(10, 10000);
    assert!(samples.iter().any(|s| *s >= 4000));
    let (result, _) = run_above(samples, 1024, 3999);
    assert_eq!(result.minimal_failing_surge, Some(4000));
    assert!(!result.passed);
    assert!(result.samples_run <= 10);
    assert!(result.shrink_steps <= 14);
}

#[test]
fn domain_below_the_threshold_passes() {
    let mut sampler = Sampler::new(&seed(3)).unwrap();
    let samples = sampler.samples(10, 4000);
    let (result, _) = run_above(samples, 1024, 4000);
    assert!(result.passed);
    assert_eq!(result.minimal_failing_surge, None);
    assert_eq!(result.samples_run, 10);
    assert_eq!(result.shrink_steps, 0);
}
