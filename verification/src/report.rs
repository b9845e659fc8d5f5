//! The result aggregator: one line per entry, a tally of failures, and the
//! verdict on the whole run.

use crate::order::texts;
use crate::text::{decimal, decimal_text};
use vstd::prelude::*;

verus! {

/// The name under which the harness runs its own tests. A run under this
/// name reports its failures but does not raise them.
pub open spec fn self_test_name() -> Seq<char> {
    "kaos-tests"@
}

/// Whether `project` is the harness testing itself.
pub fn is_self_test(project: &str) -> (r: bool)
    ensures
        r == (project@ == self_test_name()),
{
    let own = "kaos-tests";
    project.to_owned() == own.to_owned()
}

/// The summary of a run with `failures` failed entries out of `total`.
pub open spec fn summary_text(failures: nat, total: nat) -> Seq<char> {
    decimal(failures) + " of "@ + decimal(total) + " trials failed"@
}

/// The summary of a run with `failures` failed entries out of `total`.
pub fn summary_message(failures: usize, total: usize) -> (text: String)
    ensures
        text@ == summary_text(failures as nat, total as nat),
{
    let mut text = decimal_text(failures);
    text.append(" of ");
    let of = decimal_text(total);
    text.append(of.as_str());
    text.append(" trials failed");
    text
}

/// The mathematical value of a report.
pub struct ReportView {
    pub lines: Seq<Seq<char>>,
    pub total: nat,
    pub failures: nat,
}

impl ReportView {
    /// The report before any entry.
    pub open spec fn empty() -> ReportView {
        ReportView { lines: Seq::empty(), total: 0, failures: 0 }
    }

    /// The report after one more entry, with its line and whether it failed.
    pub open spec fn record(self, line: Seq<char>, failed: bool) -> ReportView {
        ReportView {
            lines: self.lines.push(line),
            total: self.total + 1,
            failures: if failed {
                self.failures + 1
            } else {
                self.failures
            },
        }
    }

    /// The report of a run whose entries gave `lines` and `failed`, entry by
    /// entry.
    pub open spec fn of(lines: Seq<Seq<char>>, failed: Seq<bool>) -> ReportView
        recommends
            lines.len() == failed.len(),
        decreases lines.len(),
    {
        if lines.len() == 0 || failed.len() == 0 {
            ReportView::empty()
        } else {
            ReportView::of(lines.drop_last(), failed.drop_last()).record(
                lines.last(),
                failed.last(),
            )
        }
    }

    /// The summary line.
    pub open spec fn summary(self) -> Seq<char> {
        summary_text(self.failures, self.total)
    }

    /// The failure that the harness raises: the summary, when an entry
    /// failed and the harness is not testing itself.
    pub open spec fn failure(self, self_test: bool) -> Option<Seq<char>> {
        if self.failures > 0 && !self_test {
            Some(self.summary())
        } else {
            None
        }
    }

    /// Every entry has its line, and no more entries failed than there are.
    pub open spec fn wf(self) -> bool {
        self.lines.len() == self.total && self.failures <= self.total
    }
}

/// How many entries of a run failed.
pub open spec fn count_failed(failed: Seq<bool>) -> nat
    decreases failed.len(),
{
    if failed.len() == 0 {
        0
    } else {
        count_failed(failed.drop_last()) + if failed.last() {
            1nat
        } else {
            0nat
        }
    }
}

/// For a run of `N` entries of which `K` failed, the report counts `N`
/// entries and `K` failures, its summary reads `K of N trials failed`, and a
/// failure is raised exactly if `K > 0`, unless the harness tests itself.
pub proof fn lemma_report_tallies(lines: Seq<Seq<char>>, failed: Seq<bool>)
    requires
        lines.len() == failed.len(),
    ensures
        ReportView::of(lines, failed).wf(),
        ReportView::of(lines, failed).lines == lines,
        ReportView::of(lines, failed).total == failed.len(),
        ReportView::of(lines, failed).failures == count_failed(failed),
        ReportView::of(lines, failed).summary() == summary_text(
            count_failed(failed),
            failed.len(),
        ),
        ReportView::of(lines, failed).failure(false) is Some <==> count_failed(failed) > 0,
        ReportView::of(lines, failed).failure(false) is Some ==> ReportView::of(
            lines,
            failed,
        ).failure(false) == Some(summary_text(count_failed(failed), failed.len())),
        ReportView::of(lines, failed).failure(true) is None,
    decreases lines.len(),
{
    if lines.len() > 0 {
        lemma_report_tallies(lines.drop_last(), failed.drop_last());
        assert(lines =~= lines.drop_last().push(lines.last()));
    } else {
        assert(lines =~= Seq::<Seq<char>>::empty());
    }
}

/// One entry of a report.
#[derive(Debug)]
struct Entry {
    line: String,
    failed: bool,
}

/// The report of a run.
#[derive(Debug)]
pub struct Report {
    entries: Vec<Entry>,
}

impl View for Report {
    type V = ReportView;

    closed spec fn view(&self) -> ReportView {
        ReportView {
            lines: self.entries@.map_values(|e: Entry| e.line@),
            total: self.entries@.len(),
            failures: count_failed(self.entries@.map_values(|e: Entry| e.failed)),
        }
    }
}

impl Report {
    /// A report without entries.
    pub fn new() -> (r: Report)
        ensures
            r@ == ReportView::empty(),
    {
        let r = Report { entries: Vec::new() };
        assert(r@.lines =~= Seq::<Seq<char>>::empty());
        r
    }

    /// Takes in one entry: its line, and whether it failed.
    pub fn record(&mut self, line: String, failed: bool)
        ensures
            final(self)@ == old(self)@.record(line@, failed),
    {
        let ghost lines = self@.lines;
        let ghost flags = self.entries@.map_values(|e: Entry| e.failed);
        self.entries.push(Entry { line, failed });
        proof {
            let grown = self.entries@.map_values(|e: Entry| e.failed);
            assert(grown.drop_last() =~= flags);
            assert(grown.last() == failed);
            assert(self@.lines =~= lines.push(line@));
        }
    }

    /// How many entries were taken in.
    pub fn total(&self) -> (n: usize)
        ensures
            n == self@.total,
    {
        self.entries.len()
    }

    /// How many of the entries failed.
    pub fn failures(&self) -> (n: usize)
        ensures
            n == self@.failures,
            n <= self@.total,
    {
        let ghost flags = self.entries@.map_values(|e: Entry| e.failed);
        let mut n: usize = 0;
        let mut i: usize = 0;
        assert(flags.take(0) =~= Seq::<bool>::empty());
        while i < self.entries.len()
            invariant
                i <= self.entries.len(),
                flags == self.entries@.map_values(|e: Entry| e.failed),
                n == count_failed(flags.take(i as int)),
                n <= i,
            decreases self.entries.len() - i,
        {
            proof {
                let grown = flags.take(i + 1);
                assert(grown.drop_last() =~= flags.take(i as int));
                assert(grown.last() == self.entries@[i as int].failed);
            }
            if self.entries[i].failed {
                n += 1;
            }
            i += 1;
        }
        assert(flags.take(self.entries.len() as int) =~= flags);
        n
    }

    /// The lines of the entries, in order.
    pub fn lines(&self) -> (lines: Vec<String>)
        ensures
            texts(lines@) == self@.lines,
    {
        let mut lines: Vec<String> = Vec::new();
        let mut i: usize = 0;
        while i < self.entries.len()
            invariant
                i <= self.entries.len(),
                texts(lines@) == self@.lines.take(i as int),
            decreases self.entries.len() - i,
        {
            let ghost before = texts(lines@);
            lines.push(self.entries[i].line.clone());
            assert(texts(lines@) =~= before.push(self.entries@[i as int].line@));
            assert(self@.lines.take(i + 1) =~= self@.lines.take(i as int).push(
                self.entries@[i as int].line@,
            ));
            i += 1;
        }
        assert(self@.lines.take(self.entries.len() as int) =~= self@.lines);
        lines
    }

    /// The summary line.
    pub fn summary(&self) -> (text: String)
        ensures
            text@ == self@.summary(),
    {
        summary_message(self.failures(), self.entries.len())
    }

    /// The failure to raise for the run of `project`: the summary, when an
    /// entry failed and the harness is not testing itself; else none.
    pub fn verdict(&self, project: &str) -> (failure: Option<String>)
        ensures
            failure is Some <==> self@.failures > 0 && project@ != self_test_name(),
            failure matches Some(text) ==> text@ == self@.summary(),
            option_text(failure) == self@.failure(project@ == self_test_name()),
    {
        if self.failures() > 0 && !is_self_test(project) {
            Some(self.summary())
        } else {
            None
        }
    }
}

/// The characters of an optional string.
pub open spec fn option_text(s: Option<String>) -> Option<Seq<char>> {
    match s {
        Some(text) => Some(text@),
        None => None,
    }
}

} // verus!
