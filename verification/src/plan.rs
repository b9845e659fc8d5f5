//! Declared test entries and the builder that collects them.

use crate::span::Span;
use vstd::prelude::*;

verus! {

/// What an entry asks of its target.
#[derive(Clone, Copy, Debug, PartialEq, Eq)]
pub enum Mode {
    /// The target must stay up for at least `duration`.
    Available { duration: Span },
    /// The target is tried against `run_count` surges drawn from
    /// `[0, max_surge)` milliseconds; `max_surge` is exclusive.
    Chaotic { run_count: usize, max_surge: usize },
}

/// One declared entry: a path, which may hold wildcards, and a mode.
#[derive(Debug)]
pub struct Test {
    pub path: String,
    pub mode: Mode,
}

/// The mathematical value of an entry.
pub struct TestView {
    pub path: Seq<char>,
    pub mode: Mode,
}

impl View for Test {
    type V = TestView;

    open spec fn view(&self) -> TestView {
        TestView { path: self.path@, mode: self.mode }
    }
}

impl Test {
    /// A copy of this entry.
    pub fn duplicate(&self) -> (t: Test)
        ensures
            t@ == self@,
    {
        Test { path: self.path.clone(), mode: self.mode }
    }
}

/// The values of a list of entries.
pub open spec fn test_views(tests: Seq<Test>) -> Seq<TestView> {
    tests.map_values(|t: Test| t@)
}

/// The entries of one launcher, in the order in which they were declared.
#[derive(Debug)]
pub struct Runs {
    tests: Vec<Test>,
}

impl View for Runs {
    type V = Seq<TestView>;

    closed spec fn view(&self) -> Seq<TestView> {
        test_views(self.tests@)
    }
}

impl Runs {
    /// A launcher without entries.
    pub fn new() -> (runs: Runs)
        ensures
            runs@ == Seq::<TestView>::empty(),
    {
        let runs = Runs { tests: Vec::new() };
        assert(runs@ =~= Seq::<TestView>::empty());
        runs
    }

    /// Declares that the target at `path` must stay up for `duration`.
    pub fn available(&mut self, path: &str, duration: Span)
        ensures
            final(self)@ == old(self)@.push(
                TestView { path: path@, mode: Mode::Available { duration } },
            ),
    {
        self.tests.push(Test { path: path.to_owned(), mode: Mode::Available { duration } });
        assert(self@ =~= old(self)@.push(
            TestView { path: path@, mode: Mode::Available { duration } },
        ));
    }

    /// Declares a chaotic entry for the target at `path`: `run_count` surges
    /// below `max_surge` milliseconds.
    pub fn chaotic(&mut self, path: &str, run_count: usize, max_surge: usize)
        ensures
            final(self)@ == old(self)@.push(
                TestView { path: path@, mode: Mode::Chaotic { run_count, max_surge } },
            ),
    {
        self.tests.push(
            Test { path: path.to_owned(), mode: Mode::Chaotic { run_count, max_surge } },
        );
        assert(self@ =~= old(self)@.push(
            TestView { path: path@, mode: Mode::Chaotic { run_count, max_surge } },
        ));
    }

    /// How many entries were declared.
    pub fn len(&self) -> (n: usize)
        ensures
            n == self@.len(),
    {
        self.tests.len()
    }

    /// The declared entries, in order.
    pub fn tests(&self) -> (tests: &Vec<Test>)
        ensures
            test_views(tests@) == self@,
    {
        &self.tests
    }
}

} // verus!
