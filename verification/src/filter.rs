//! Narrowing the plan by the filters given when the harness was invoked.

use crate::expand::{expanded_views, ExpandedTest, ExpandedView};
use crate::order::texts;
use crate::text::{contains, has_prefix, has_substring, starts_with};
use vstd::prelude::*;

verus! {

/// The filter that an argument carries: what stands behind `kaos=`, unless
/// nothing stands there.
pub open spec fn filter_of(arg: Seq<char>) -> Option<Seq<char>> {
    if has_prefix(arg, "kaos="@) && arg != "kaos="@ {
        Some(arg.skip("kaos="@.len() as int))
    } else {
        None
    }
}

/// The filters among the arguments, in the order of the arguments.
pub open spec fn filters_of(args: Seq<Seq<char>>) -> Seq<Seq<char>>
    decreases args.len(),
{
    if args.len() == 0 {
        Seq::empty()
    } else {
        match filter_of(args.last()) {
            Some(f) => filters_of(args.drop_last()).push(f),
            None => filters_of(args.drop_last()),
        }
    }
}

/// Whether some filter occurs in the path.
pub open spec fn selected(path: Seq<char>, filters: Seq<Seq<char>>) -> bool {
    exists|k: int| 0 <= k < filters.len() && has_substring(path, #[trigger] filters[k])
}

/// The test that keeps the trials whose path some filter occurs in.
pub open spec fn keeps(filters: Seq<Seq<char>>) -> spec_fn(ExpandedView) -> bool {
    |t: ExpandedView| selected(t.path, filters)
}

/// The plan narrowed by the filters: unchanged without filters, else the
/// selected trials in their order.
pub open spec fn filtered(trials: Seq<ExpandedView>, filters: Seq<Seq<char>>) -> Seq<
    ExpandedView,
> {
    if filters.len() == 0 {
        trials
    } else {
        trials.filter(keeps(filters))
    }
}

/// Filtering by one test twice keeps what filtering once keeps.
proof fn lemma_filter_twice(trials: Seq<ExpandedView>, keep: spec_fn(ExpandedView) -> bool)
    ensures
        trials.filter(keep).filter(keep) == trials.filter(keep),
    decreases trials.len(),
{
    reveal(Seq::filter);
    if trials.len() > 0 {
        lemma_filter_twice(trials.drop_last(), keep);
        if keep(trials.last()) {
            trials.drop_last().filter(keep).lemma_filter_push(trials.last(), keep);
        }
    }
}

/// Narrowing a plan a second time by the same filters changes nothing.
pub proof fn lemma_filter_idempotent(trials: Seq<ExpandedView>, filters: Seq<Seq<char>>)
    ensures
        filtered(filtered(trials, filters), filters) == filtered(trials, filters),
{
    if filters.len() > 0 {
        lemma_filter_twice(trials, keeps(filters));
    }
}

/// Narrowing keeps the order and only takes trials away: every trial that is
/// left was in the plan and is selected.
pub proof fn lemma_filter_selects(trials: Seq<ExpandedView>, filters: Seq<Seq<char>>, k: int)
    requires
        filters.len() > 0,
        0 <= k < filtered(trials, filters).len(),
    ensures
        trials.contains(filtered(trials, filters)[k]),
        selected(filtered(trials, filters)[k].path, filters),
{
    let kept = trials.filter(keeps(filters));
    trials.lemma_filter_pred(keeps(filters), k);
    assert(kept.contains(kept[k]));
    trials.lemma_filter_contains_rev(keeps(filters), kept[k]);
}

/// The filters among the arguments of an invocation.
pub fn filters_from_args(args: &Vec<String>) -> (filters: Vec<String>)
    ensures
        texts(filters@) == filters_of(texts(args@)),
{
    let mut filters: Vec<String> = Vec::new();
    let mut i: usize = 0;
    assert(texts(args@).take(0) =~= Seq::<Seq<char>>::empty());
    assert(texts(filters@) =~= Seq::<Seq<char>>::empty());
    while i < args.len()
        invariant
            i <= args.len(),
            texts(filters@) == filters_of(texts(args@).take(i as int)),
        decreases args.len() - i,
    {
        let arg = args[i].as_str();
        proof {
            let grown = texts(args@).take(i + 1);
            assert(grown.drop_last() =~= texts(args@).take(i as int));
            assert(grown.last() == arg@);
            reveal_strlit("kaos=");
        }
        let ghost before = texts(filters@);
        if starts_with(arg, "kaos=") {
            let n = arg.unicode_len();
            if n > 5 {
                let rest = arg.substring_char(5, n);
                assert(arg@.subrange(5, n as int) =~= arg@.skip(5));
                assert(arg@ != "kaos="@);
                filters.push(rest.to_owned());
                assert(texts(filters@) =~= before.push(arg@.skip(5)));
            } else {
                assert(arg@.subrange(0, 5) =~= arg@);
            }
        }
        i += 1;
    }
    assert(texts(args@).take(args.len() as int) =~= texts(args@));
    filters
}

fn is_selected(path: &str, filters: &Vec<String>) -> (r: bool)
    ensures
        r == selected(path@, texts(filters@)),
{
    let mut k: usize = 0;
    while k < filters.len()
        invariant
            k <= filters.len(),
            forall|m: int| 0 <= m < k ==> !has_substring(path@, #[trigger] texts(filters@)[m]),
        decreases filters.len() - k,
    {
        if contains(path, filters[k].as_str()) {
            assert(texts(filters@)[k as int] == filters@[k as int]@);
            return true;
        }
        assert(texts(filters@)[k as int] == filters@[k as int]@);
        k += 1;
    }
    false
}

/// Narrows the plan to the trials that the invocation asked for: with no
/// filter among `argv` the plan stays as it is; otherwise a trial stays if
/// at least one filter occurs in its path.
pub fn filter(tests: &mut Vec<ExpandedTest>, argv: &Vec<String>)
    ensures
        expanded_views(final(tests)@) == filtered(
            expanded_views(old(tests)@),
            filters_of(texts(argv@)),
        ),
{
    let filters = filters_from_args(argv);
    if filters.len() == 0 {
        return ;
    }
    let ghost all = expanded_views(old(tests)@);
    let ghost keep = keeps(texts(filters@));
    let mut kept: usize = 0;
    let ghost mut seen: int = 0;
    proof {
        reveal(Seq::filter);
        assert(all.take(0) =~= Seq::<ExpandedView>::empty());
        assert(all.skip(0) =~= all);
        assert(expanded_views(tests@) =~= all.take(0).filter(keep) + all.skip(0));
    }
    while kept < tests.len()
        invariant
            kept <= tests.len(),
            0 <= seen <= all.len(),
            keep == keeps(texts(filters@)),
            tests@.len() - kept == all.len() - seen,
            all.take(seen).filter(keep).len() == kept,
            expanded_views(tests@) == all.take(seen).filter(keep) + all.skip(seen),
        decreases tests.len() - kept,
    {
        let ghost now = expanded_views(tests@);
        let ghost done = all.take(seen).filter(keep);
        proof {
            assert(now[kept as int] == all.skip(seen)[0]);
            assert(now[kept as int] == tests@[kept as int]@);
            assert(all.take(seen + 1) =~= all.take(seen).push(all[seen]));
            all.take(seen).lemma_filter_push(all[seen], keep);
        }
        if is_selected(tests[kept].test.path.as_str(), &filters) {
            proof {
                assert(now =~= all.take(seen + 1).filter(keep) + all.skip(seen + 1));
                seen = seen + 1;
            }
            kept += 1;
        } else {
            tests.remove(kept);
            proof {
                assert(expanded_views(tests@) =~= now.remove(kept as int));
                assert(now.remove(kept as int) =~= done + all.skip(seen + 1));
                seen = seen + 1;
            }
        }
    }
    proof {
        assert(all.skip(seen) =~= Seq::<ExpandedView>::empty());
        assert(all.take(seen) =~= all);
        assert(expanded_views(tests@) =~= all.filter(keep));
    }
}

} // verus!
