//! The plan expander: from declared entries to the ordered, named list of
//! trials.
//!
//! Walking the file system is not done here. Whoever calls `expand_globs`
//! resolves each wildcard pattern first and hands in what was found.

use crate::order::{sort_paths, sorted_texts, texts};
use crate::plan::{test_views, Mode, Test, TestView};
use crate::text::{
    contains_char, decimal, decimal_text, lemma_numeral_value_of_decimal, numeral_value,
};
use vstd::prelude::*;

verus! {

/// Why an entry could not be expanded.
#[derive(Debug)]
pub enum PlanError {
    /// The pattern is malformed, near character `pos`.
    Pattern { pos: usize, msg: String },
    /// The pattern is sound, but the file system could not be read.
    Unreadable { detail: String },
}

/// The mathematical value of a `PlanError`.
pub enum PlanErrorView {
    Pattern { pos: usize, msg: Seq<char> },
    Unreadable { detail: Seq<char> },
}

impl View for PlanError {
    type V = PlanErrorView;

    open spec fn view(&self) -> PlanErrorView {
        match self {
            PlanError::Pattern { pos, msg } => PlanErrorView::Pattern { pos: *pos, msg: msg@ },
            PlanError::Unreadable { detail } => PlanErrorView::Unreadable { detail: detail@ },
        }
    }
}

/// What a report says of an error, given how its position reads.
pub open spec fn pattern_error_text(pos: Seq<char>, msg: Seq<char>) -> Seq<char> {
    "Pattern syntax error near position "@ + pos + ": "@ + msg
}

/// What a report says of an error.
pub open spec fn plan_error_text(error: PlanErrorView) -> Seq<char> {
    match error {
        PlanErrorView::Pattern { pos, msg } => pattern_error_text(decimal(pos as nat), msg),
        PlanErrorView::Unreadable { detail } => detail,
    }
}

impl PlanError {
    /// What a report says of this error.
    pub fn message(&self) -> (text: String)
        ensures
            text@ == plan_error_text(self@),
    {
        match self {
            PlanError::Pattern { pos, msg } => {
                let mut text = "Pattern syntax error near position ".to_owned();
                let at = decimal_text(*pos);
                text.append(at.as_str());
                text.append(": ");
                text.append(msg.as_str());
                text
            },
            PlanError::Unreadable { detail } => detail.clone(),
        }
    }
}

/// The value of an optional error.
pub open spec fn error_view(error: Option<PlanError>) -> Option<PlanErrorView> {
    match error {
        Some(e) => Some(e@),
        None => None,
    }
}

/// What resolving one wildcard pattern against the file system gave.
#[derive(Debug)]
pub enum Resolved {
    /// The paths that match, in any order.
    Matches(Vec<String>),
    /// The walk failed.
    Unreadable(String),
}

/// The mathematical value of a `Resolved`.
pub enum ResolvedView {
    Matches(Seq<Seq<char>>),
    Unreadable(Seq<char>),
}

impl View for Resolved {
    type V = ResolvedView;

    open spec fn view(&self) -> ResolvedView {
        match self {
            Resolved::Matches(paths) => ResolvedView::Matches(texts(paths@)),
            Resolved::Unreadable(detail) => ResolvedView::Unreadable(detail@),
        }
    }
}

/// The values of a list of resolutions.
pub open spec fn resolved_views(resolved: Seq<Resolved>) -> Seq<ResolvedView> {
    resolved.map_values(|r: Resolved| r@)
}

/// One trial of the plan.
#[derive(Debug)]
pub struct ExpandedTest {
    /// The trial's id.
    pub name: String,
    /// The trial's path and, taken from its entry, its mode.
    pub test: Test,
    /// Set when the entry could not be expanded; such a trial is a
    /// placeholder, kept so that the failure shows in the report.
    pub error: Option<PlanError>,
}

/// The mathematical value of a trial of the plan.
pub struct ExpandedView {
    pub name: Seq<char>,
    pub path: Seq<char>,
    pub mode: Mode,
    pub error: Option<PlanErrorView>,
}

impl View for ExpandedTest {
    type V = ExpandedView;

    open spec fn view(&self) -> ExpandedView {
        ExpandedView {
            name: self.name@,
            path: self.test.path@,
            mode: self.test.mode,
            error: error_view(self.error),
        }
    }
}

/// The values of a list of trials.
pub open spec fn expanded_views(trials: Seq<ExpandedTest>) -> Seq<ExpandedView> {
    trials.map_values(|t: ExpandedTest| t@)
}

/// A trial that has no id yet.
pub struct Slot {
    pub path: Seq<char>,
    pub mode: Mode,
    pub error: Option<PlanErrorView>,
}

/// The zeros that fill a trial's number up to three digits.
pub open spec fn name_padding(index: nat) -> Seq<char> {
    if index < 10 {
        "00"@
    } else if index < 100 {
        "0"@
    } else {
        ""@
    }
}

/// The id of the trial at `index`: `kaos` and the index in at least three
/// digits.
pub open spec fn trial_name(index: nat) -> Seq<char> {
    "kaos"@ + name_padding(index) + decimal(index)
}

/// The padding reads as zero.
proof fn lemma_padding_is_zero(index: nat)
    ensures
        numeral_value(name_padding(index)) == 0,
{
    reveal_strlit("00");
    reveal_strlit("0");
    reveal_strlit("");
    let two = "00"@;
    let one = "0"@;
    assert(two.drop_last() =~= one);
    assert(one.drop_last() =~= Seq::<char>::empty());
    assert(numeral_value(Seq::<char>::empty()) == 0);
    assert(numeral_value(one) == 0);
    assert(numeral_value(two) == 0);
    assert(""@ =~= Seq::<char>::empty());
}

/// Different trials have different ids.
pub proof fn lemma_trial_names_differ(i: nat, j: nat)
    requires
        i != j,
    ensures
        trial_name(i) != trial_name(j),
{
    let head = "kaos"@;
    let a = name_padding(i) + decimal(i);
    let b = name_padding(j) + decimal(j);
    lemma_padding_is_zero(i);
    lemma_padding_is_zero(j);
    lemma_numeral_value_of_decimal(name_padding(i), i);
    lemma_numeral_value_of_decimal(name_padding(j), j);
    assert(trial_name(i) =~= head + a);
    assert(trial_name(j) =~= head + b);
    assert((head + a).skip(head.len() as int) =~= a);
    assert((head + b).skip(head.len() as int) =~= b);
}

/// The id of the trial at `index`.
pub fn bin_name(index: usize) -> (name: String)
    ensures
        name@ == trial_name(index as nat),
{
    let mut name = "kaos".to_owned();
    if index < 10 {
        name.append("00");
    } else if index < 100 {
        name.append("0");
    } else {
        proof {
            reveal_strlit("");
        }
        assert(name@ + ""@ =~= name@);
    }
    let digits = decimal_text(index);
    name.append(digits.as_str());
    name
}

/// The fault, if any, that `glob` finds in a pattern: the character
/// position near which it lies and what is wrong there.
pub uninterp spec fn glob_pattern_fault(pattern: Seq<char>) -> Option<(usize, Seq<char>)>;

/// Compiles `pattern` with `glob::Pattern::new` and hands back the error it
/// gives, if any, with its position and message. The answer depends on the
/// pattern alone; which patterns the outside crate accepts is its own
/// grammar, so the answer is only named here.
#[verifier::external_body]
fn pattern_fault(pattern: &str) -> (fault: Option<PlanError>)
    ensures
        fault is None <==> glob_pattern_fault(pattern@) is None,
        fault matches Some(e) ==> e matches PlanError::Pattern { pos, msg }
            && glob_pattern_fault(pattern@) == Some((pos, msg@)),
{
    match glob::Pattern::new(pattern) {
        Ok(_) => None,
        Err(e) => Some(PlanError::Pattern { pos: e.pos, msg: e.msg.to_owned() }),
    }
}

/// Whether a path is a wildcard pattern.
pub open spec fn has_wildcard(path: Seq<char>) -> bool {
    path.contains('*')
}

/// Whether an entry's path has to be resolved against the file system: it
/// holds a wildcard and is a sound pattern.
pub open spec fn wants_resolution(path: Seq<char>) -> bool {
    has_wildcard(path) && glob_pattern_fault(path) is None
}

/// Whether an entry's path has to be resolved against the file system
/// before the plan can be expanded.
pub fn needs_resolution(test: &Test) -> (r: bool)
    ensures
        r == wants_resolution(test@.path),
{
    if contains_char(test.path.as_str(), '*') {
        pattern_fault(test.path.as_str()).is_none()
    } else {
        false
    }
}

/// The slot of trial `path` under `mode`, without an error.
pub open spec fn plain_slot(path: Seq<char>, mode: Mode) -> Slot {
    Slot { path, mode, error: None }
}

/// The trials that one entry gives, given what resolving it found. A path
/// without wildcard gives one trial. A malformed pattern, or one whose walk
/// failed, gives one placeholder that carries the error. A sound pattern
/// gives one trial for each match, in lexicographic order, each with the
/// entry's mode.
pub open spec fn expand_entry(test: TestView, found: ResolvedView) -> Seq<Slot> {
    if !has_wildcard(test.path) {
        seq![plain_slot(test.path, test.mode)]
    } else {
        match glob_pattern_fault(test.path) {
            Some((pos, msg)) => seq![
                Slot {
                    path: test.path,
                    mode: test.mode,
                    error: Some(PlanErrorView::Pattern { pos, msg }),
                },
            ],
            None => match found {
                ResolvedView::Unreadable(detail) => seq![
                    Slot {
                        path: test.path,
                        mode: test.mode,
                        error: Some(PlanErrorView::Unreadable { detail }),
                    },
                ],
                ResolvedView::Matches(paths) => sorted_texts(paths).map_values(
                    |p: Seq<char>| plain_slot(p, test.mode),
                ),
            },
        }
    }
}

/// What was found for the entry at `index`; nothing where the list of
/// resolutions is too short.
pub open spec fn resolution_at(resolved: Seq<ResolvedView>, index: int) -> ResolvedView {
    if 0 <= index < resolved.len() {
        resolved[index]
    } else {
        ResolvedView::Matches(Seq::empty())
    }
}

/// The trials of all entries, entry after entry.
pub open spec fn expansion(tests: Seq<TestView>, resolved: Seq<ResolvedView>) -> Seq<Slot>
    decreases tests.len(),
{
    if tests.len() == 0 {
        Seq::empty()
    } else {
        expansion(tests.drop_last(), resolved) + expand_entry(
            tests.last(),
            resolution_at(resolved, tests.len() - 1),
        )
    }
}

/// The trials with their ids: the trial at position `i` is named by `i`.
pub open spec fn named(slots: Seq<Slot>) -> Seq<ExpandedView> {
    Seq::new(
        slots.len(),
        |i: int|
            ExpandedView {
                name: trial_name(i as nat),
                path: slots[i].path,
                mode: slots[i].mode,
                error: slots[i].error,
            },
    )
}

/// The plan that the entries expand to.
pub open spec fn expanded_plan(tests: Seq<TestView>, resolved: Seq<ResolvedView>) -> Seq<
    ExpandedView,
> {
    named(expansion(tests, resolved))
}

/// An entry without wildcard gives exactly one trial, with the entry's path
/// and mode and without error, whatever was handed in as found.
pub proof fn lemma_plain_entry_gives_one_trial(test: TestView, found: ResolvedView)
    requires
        !has_wildcard(test.path),
    ensures
        expand_entry(test, found) == seq![plain_slot(test.path, test.mode)],
        expand_entry(test, found).len() == 1,
{
}

/// A plan of entries without wildcard expands one to one: each entry gives
/// the trial at its own position, with its path and mode and without error.
pub proof fn lemma_plain_plan_expands_one_to_one(
    tests: Seq<TestView>,
    resolved: Seq<ResolvedView>,
)
    requires
        forall|i: int| 0 <= i < tests.len() ==> !has_wildcard((#[trigger] tests[i]).path),
    ensures
        expansion(tests, resolved).len() == tests.len(),
        forall|i: int|
            0 <= i < tests.len() ==> #[trigger] expansion(tests, resolved)[i] == plain_slot(
                tests[i].path,
                tests[i].mode,
            ),
    decreases tests.len(),
{
    if tests.len() > 0 {
        let front = tests.drop_last();
        assert forall|i: int| 0 <= i < front.len() implies !has_wildcard(
            (#[trigger] front[i]).path,
        ) by {
            assert(front[i] == tests[i]);
        }
        lemma_plain_plan_expands_one_to_one(front, resolved);
        assert forall|i: int| 0 <= i < tests.len() implies #[trigger] expansion(
            tests,
            resolved,
        )[i] == plain_slot(tests[i].path, tests[i].mode) by {
            if i < front.len() {
                assert(front[i] == tests[i]);
                assert(expansion(tests, resolved)[i] == expansion(front, resolved)[i]);
            }
        }
    }
}

/// A sound wildcard entry gives exactly its matches in lexicographic order:
/// as many trials as matches, the same paths each as often, every trial with
/// the entry's mode and none with an error.
pub proof fn lemma_wildcard_entry_gives_sorted_matches(test: TestView, paths: Seq<Seq<char>>)
    requires
        wants_resolution(test.path),
    ensures
        expand_entry(test, ResolvedView::Matches(paths)).len() == paths.len(),
        expand_entry(test, ResolvedView::Matches(paths)).map_values(|s: Slot| s.path)
            == sorted_texts(paths),
        crate::order::is_sorted(sorted_texts(paths)),
        sorted_texts(paths).to_multiset() == paths.to_multiset(),
        forall|k: int|
            0 <= k < paths.len() ==> (#[trigger] expand_entry(
                test,
                ResolvedView::Matches(paths),
            )[k]).mode == test.mode && expand_entry(test, ResolvedView::Matches(paths))[k].error
                is None,
{
    crate::order::lemma_sorted_texts(paths);
    let slots = expand_entry(test, ResolvedView::Matches(paths));
    assert(slots.map_values(|s: Slot| s.path) =~= sorted_texts(paths));
}

/// An entry that cannot be expanded gives one placeholder that carries the
/// error; the other entries are expanded all the same.
pub proof fn lemma_failed_entry_gives_placeholder(test: TestView, found: ResolvedView)
    requires
        has_wildcard(test.path),
        glob_pattern_fault(test.path) is Some || found is Unreadable,
    ensures
        expand_entry(test, found).len() == 1,
        expand_entry(test, found)[0].path == test.path,
        expand_entry(test, found)[0].mode == test.mode,
        expand_entry(test, found)[0].error is Some,
{
}

/// The ids of a plan are pairwise different, and each is fixed by the
/// trial's position alone.
pub proof fn lemma_plan_names_unique(slots: Seq<Slot>, i: int, j: int)
    requires
        0 <= i < slots.len(),
        0 <= j < slots.len(),
        i != j,
    ensures
        named(slots)[i].name != named(slots)[j].name,
        named(slots)[i].name == trial_name(i as nat),
{
    lemma_trial_names_differ(i as nat, j as nat);
}

/// Expanding one entry more appends that entry's trials.
proof fn lemma_expansion_step(tests: Seq<TestView>, resolved: Seq<ResolvedView>, i: int)
    requires
        0 <= i < tests.len(),
    ensures
        expansion(tests.take(i + 1), resolved) == expansion(tests.take(i), resolved)
            + expand_entry(tests[i], resolution_at(resolved, i)),
{
    let grown = tests.take(i + 1);
    assert(grown.drop_last() =~= tests.take(i));
    assert(grown.last() == tests[i]);
}

fn push_trial(out: &mut Vec<ExpandedTest>, path: String, mode: Mode, error: Option<PlanError>)
    ensures
        final(out)@.len() == old(out)@.len() + 1,
        expanded_views(final(out)@) == expanded_views(old(out)@).push(
            ExpandedView {
                name: trial_name(old(out)@.len()),
                path: path@,
                mode,
                error: error_view(error),
            },
        ),
{
    let name = bin_name(out.len());
    let ghost added = ExpandedView {
        name: trial_name(old(out)@.len()),
        path: path@,
        mode,
        error: error_view(error),
    };
    out.push(ExpandedTest { name, test: Test { path, mode }, error });
    assert(expanded_views(out@) =~= expanded_views(old(out)@).push(added));
}

/// Expands the declared entries into the plan. `resolved[i]` is what
/// resolving the path of `tests[i]` found; it is read only for entries that
/// `needs_resolution` accepts, and a missing one counts as no match.
pub fn expand_globs(tests: &Vec<Test>, resolved: &Vec<Resolved>) -> (out: Vec<ExpandedTest>)
    ensures
        expanded_views(out@) == expanded_plan(test_views(tests@), resolved_views(resolved@)),
{
    let mut out: Vec<ExpandedTest> = Vec::new();
    let ghost entries = test_views(tests@);
    let ghost found = resolved_views(resolved@);
    let mut i: usize = 0;
    assert(entries.take(0) =~= Seq::<TestView>::empty());
    assert(expanded_views(out@) =~= named(expansion(entries.take(0), found)));
    while i < tests.len()
        invariant
            i <= tests.len(),
            entries == test_views(tests@),
            found == resolved_views(resolved@),
            out@.len() == expansion(entries.take(i as int), found).len(),
            expanded_views(out@) == named(expansion(entries.take(i as int), found)),
        decreases tests.len() - i,
    {
        let test = &tests[i];
        let mode = test.mode;
        let ghost prior = expansion(entries.take(i as int), found);
        let ghost entry = expand_entry(entries[i as int], resolution_at(found, i as int));
        proof {
            lemma_expansion_step(entries, found, i as int);
            assert(entries[i as int] == test@);
        }
        if !contains_char(test.path.as_str(), '*') {
            push_trial(&mut out, test.path.clone(), mode, None);
            assert(expanded_views(out@) =~= named(prior + entry));
        } else {
            let fault = pattern_fault(test.path.as_str());
            if fault.is_some() {
                push_trial(&mut out, test.path.clone(), mode, fault);
                assert(expanded_views(out@) =~= named(prior + entry));
            } else if i < resolved.len() {
                assert(resolution_at(found, i as int) == resolved@[i as int]@);
                match &resolved[i] {
                    Resolved::Unreadable(detail) => {
                        push_trial(
                            &mut out,
                            test.path.clone(),
                            mode,
                            Some(PlanError::Unreadable { detail: detail.clone() }),
                        );
                        assert(expanded_views(out@) =~= named(prior + entry));
                    },
                    Resolved::Matches(paths) => {
                        let sorted = sort_paths(paths);
                        let mut j: usize = 0;
                        assert(entry.take(0) =~= Seq::<Slot>::empty());
                        assert(prior + entry.take(0) =~= prior);
                        while j < sorted.len()
                            invariant
                                j <= sorted.len(),
                                entry.len() == sorted.len(),
                                entry == texts(sorted@).map_values(
                                    |p: Seq<char>| plain_slot(p, mode),
                                ),
                                out@.len() == prior.len() + j,
                                expanded_views(out@) == named(prior + entry.take(j as int)),
                            decreases sorted.len() - j,
                        {
                            push_trial(&mut out, sorted[j].clone(), mode, None);
                            assert(expanded_views(out@) =~= named(
                                prior + entry.take(j + 1),
                            ));
                            j += 1;
                        }
                        assert(entry.take(sorted.len() as int) =~= entry);
                    },
                }
            } else {
                assert(sorted_texts(Seq::<Seq<char>>::empty()) =~= Seq::<Seq<char>>::empty());
                assert(entry =~= Seq::<Slot>::empty());
                assert(prior + entry =~= prior);
            }
        }
        i += 1;
    }
    assert(entries.take(tests.len() as int) =~= entries);
    out
}

} // verus!
