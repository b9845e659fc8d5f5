//! Sorting paths into lexicographic order.

use crate::text::{lemma_lex_le_total, lemma_lex_le_transitive, lex_le, precedes};
use vstd::prelude::*;
use vstd::seq_lib::to_multiset_insert;

verus! {

/// The character sequences of a list of strings.
pub open spec fn texts(v: Seq<String>) -> Seq<Seq<char>> {
    v.map_values(|s: String| s@)
}

/// Every element comes at or before every later one.
pub open spec fn is_sorted(s: Seq<Seq<char>>) -> bool {
    forall|i: int, j: int| 0 <= i < j < s.len() ==> lex_le(#[trigger] s[i], #[trigger] s[j])
}

/// How many leading elements of `s` come at or before `x`.
pub open spec fn insertion_point(s: Seq<Seq<char>>, x: Seq<char>) -> nat
    decreases s.len(),
{
    if s.len() == 0 {
        0
    } else if lex_le(s[0], x) {
        1 + insertion_point(s.drop_first(), x)
    } else {
        0
    }
}

/// `s` with `x` put behind the leading elements that come at or before it.
pub open spec fn insert_sorted(s: Seq<Seq<char>>, x: Seq<char>) -> Seq<Seq<char>> {
    s.insert(insertion_point(s, x) as int, x)
}

/// The elements of `s` in lexicographic order; among equal elements the
/// order does not show.
pub open spec fn sorted_texts(s: Seq<Seq<char>>) -> Seq<Seq<char>>
    decreases s.len(),
{
    if s.len() == 0 {
        s
    } else {
        insert_sorted(sorted_texts(s.drop_last()), s.last())
    }
}

/// The insertion point is the one index up to which every element comes at
/// or before `x` and at which, if there is an element, it does not.
pub proof fn lemma_insertion_point(s: Seq<Seq<char>>, x: Seq<char>, p: int)
    requires
        0 <= p <= s.len(),
        forall|k: int| 0 <= k < p ==> lex_le(#[trigger] s[k], x),
        p < s.len() ==> !lex_le(s[p], x),
    ensures
        insertion_point(s, x) == p,
    decreases s.len(),
{
    if s.len() > 0 && p > 0 {
        assert(lex_le(s[0], x));
        let rest = s.drop_first();
        assert forall|k: int| 0 <= k < p - 1 implies lex_le(#[trigger] rest[k], x) by {
            assert(rest[k] == s[k + 1]);
        }
        lemma_insertion_point(rest, x, p - 1);
    }
}

/// What holds at the insertion point.
pub proof fn lemma_insertion_point_bounds(s: Seq<Seq<char>>, x: Seq<char>)
    ensures
        insertion_point(s, x) <= s.len(),
        forall|k: int| 0 <= k < insertion_point(s, x) ==> lex_le(#[trigger] s[k], x),
        insertion_point(s, x) < s.len() ==> !lex_le(s[insertion_point(s, x) as int], x),
    decreases s.len(),
{
    if s.len() > 0 && lex_le(s[0], x) {
        let rest = s.drop_first();
        lemma_insertion_point_bounds(rest, x);
        assert forall|k: int| 0 <= k < insertion_point(s, x) implies lex_le(
            #[trigger] s[k],
            x,
        ) by {
            if k > 0 {
                assert(s[k] == rest[k - 1]);
            }
        }
        let p = insertion_point(rest, x) as int;
        if p < rest.len() {
            assert(s[p + 1] == rest[p]);
        }
    }
}

/// Putting an element into a sorted sequence keeps it sorted and adds
/// exactly that element.
pub proof fn lemma_insert_sorted(s: Seq<Seq<char>>, x: Seq<char>)
    requires
        is_sorted(s),
    ensures
        is_sorted(insert_sorted(s, x)),
        insert_sorted(s, x).to_multiset() == s.to_multiset().insert(x),
        insert_sorted(s, x).len() == s.len() + 1,
{
    lemma_insertion_point_bounds(s, x);
    let p = insertion_point(s, x) as int;
    let r = insert_sorted(s, x);
    to_multiset_insert(s, p, x);
    assert forall|i: int, j: int| 0 <= i < j < r.len() implies lex_le(
        #[trigger] r[i],
        #[trigger] r[j],
    ) by {
        if j < p {
            assert(r[i] == s[i] && r[j] == s[j]);
        } else if j == p {
            assert(r[i] == s[i]);
        } else if i == p {
            lemma_lex_le_total(s[p], x);
            if j - 1 > p {
                assert(lex_le(s[p], s[j - 1]));
                lemma_lex_le_transitive(x, s[p], s[j - 1]);
            }
        } else if i < p {
            assert(r[i] == s[i] && r[j] == s[j - 1]);
        } else {
            assert(r[i] == s[i - 1] && r[j] == s[j - 1]);
        }
    }
}

/// The sorted sequence is in lexicographic order and holds the same elements
/// as the unsorted one, each as often.
pub proof fn lemma_sorted_texts(s: Seq<Seq<char>>)
    ensures
        is_sorted(sorted_texts(s)),
        sorted_texts(s).to_multiset() == s.to_multiset(),
        sorted_texts(s).len() == s.len(),
    decreases s.len(),
{
    broadcast use vstd::seq_lib::group_to_multiset_ensures;

    if s.len() > 0 {
        lemma_sorted_texts(s.drop_last());
        lemma_insert_sorted(sorted_texts(s.drop_last()), s.last());
        assert(s =~= s.drop_last().push(s.last()));
    } else {
        assert(sorted_texts(s) =~= s);
    }
}

/// The paths in lexicographic order.
pub fn sort_paths(paths: &Vec<String>) -> (sorted: Vec<String>)
    ensures
        texts(sorted@) == sorted_texts(texts(paths@)),
        is_sorted(texts(sorted@)),
        texts(sorted@).to_multiset() == texts(paths@).to_multiset(),
        sorted@.len() == paths@.len(),
{
    let mut sorted: Vec<String> = Vec::new();
    let mut i: usize = 0;
    assert(texts(paths@).take(0) =~= Seq::<Seq<char>>::empty());
    assert(texts(sorted@) =~= Seq::<Seq<char>>::empty());
    while i < paths.len()
        invariant
            i <= paths.len(),
            texts(sorted@) == sorted_texts(texts(paths@).take(i as int)),
        decreases paths.len() - i,
    {
        let x = paths[i].clone();
        let ghost before = texts(sorted@);
        let mut p: usize = 0;
        while p < sorted.len() && precedes(sorted[p].as_str(), x.as_str())
            invariant
                p <= sorted.len(),
                before == texts(sorted@),
                forall|k: int| 0 <= k < p ==> lex_le(#[trigger] before[k], x@),
            decreases sorted.len() - p,
        {
            p += 1;
        }
        proof {
            if p < sorted.len() {
                assert(before[p as int] == sorted@[p as int]@);
            }
            lemma_insertion_point(before, x@, p as int);
            let grown = texts(paths@).take(i + 1);
            assert(grown.drop_last() =~= texts(paths@).take(i as int));
            assert(grown.last() == x@);
        }
        sorted.insert(p, x);
        assert(texts(sorted@) =~= before.insert(p as int, x@));
        i += 1;
    }
    proof {
        assert(texts(paths@).take(paths.len() as int) =~= texts(paths@));
        lemma_sorted_texts(texts(paths@));
    }
    sorted
}

} // verus!
