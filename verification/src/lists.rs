//! Facts about filtered and mapped lists that several modules share.

use vstd::prelude::*;

verus! {

/// Filtering one element further.
pub proof fn lemma_filter_step<A>(s: Seq<A>, p: spec_fn(A) -> bool, i: int)
    requires
        0 <= i < s.len(),
    ensures
        s.take(i + 1).filter(p) == (if p(s[i]) {
            s.take(i).filter(p).push(s[i])
        } else {
            s.take(i).filter(p)
        }),
{
    reveal(Seq::filter);
    assert(s.take(i + 1).drop_last() =~= s.take(i));
}

/// Filtering nothing, and filtering all.
pub proof fn lemma_filter_ends<A>(s: Seq<A>, p: spec_fn(A) -> bool)
    ensures
        s.take(0).filter(p) == Seq::<A>::empty(),
        s.take(s.len() as int).filter(p) == s.filter(p),
{
    reveal(Seq::filter);
    assert(s.take(0) =~= Seq::<A>::empty());
    assert(s.take(s.len() as int) =~= s);
}

/// An element is kept exactly when it was there and passes.
pub proof fn lemma_filter_contains<A>(s: Seq<A>, p: spec_fn(A) -> bool, x: A)
    ensures
        s.filter(p).contains(x) <==> s.contains(x) && p(x),
    decreases s.len(),
{
    reveal(Seq::filter);
    if s.len() > 0 {
        let t = s.drop_last();
        lemma_filter_contains(t, p, x);
        assert(s =~= t.push(s.last()));
        let f = t.filter(p);
        if s.contains(x) && p(x) {
            if s.last() == x {
                assert(f.push(x)[f.len() as int] == x);
            } else {
                let i = choose|i: int| 0 <= i < s.len() && s[i] == x;
                assert(t[i] == x);
                let j = choose|j: int| 0 <= j < f.len() && f[j] == x;
                assert(s.filter(p)[j] == x);
            }
        }
        if s.filter(p).contains(x) {
            let j = choose|j: int| 0 <= j < s.filter(p).len() && s.filter(p)[j] == x;
            if j < f.len() {
                assert(f[j] == x);
                let i = choose|i: int| 0 <= i < t.len() && t[i] == x;
                assert(s[i] == x);
            } else {
                assert(s[s.len() - 1] == x);
            }
        }
    }
}

/// The place in `s` from which the `j`-th kept element comes.
pub open spec fn kept_at<A>(s: Seq<A>, p: spec_fn(A) -> bool, j: int) -> int
    decreases s.len(),
{
    if s.len() == 0 {
        0
    } else if j < s.drop_last().filter(p).len() {
        kept_at(s.drop_last(), p, j)
    } else {
        s.len() - 1
    }
}

/// Kept elements come from `s`, pass, and keep their order.
pub proof fn lemma_kept<A>(s: Seq<A>, p: spec_fn(A) -> bool)
    ensures
        s.filter(p).len() <= s.len(),
        forall|j: int|
            0 <= j < s.filter(p).len() ==> 0 <= #[trigger] kept_at(s, p, j) < s.len() && s[kept_at(
                s,
                p,
                j,
            )] == s.filter(p)[j] && p(s.filter(p)[j]),
        forall|i: int, j: int|
            0 <= i < j < s.filter(p).len() ==> #[trigger] kept_at(s, p, i) < #[trigger] kept_at(
                s,
                p,
                j,
            ),
    decreases s.len(),
{
    reveal(Seq::filter);
    if s.len() > 0 {
        let t = s.drop_last();
        lemma_kept(t, p);
        let f = t.filter(p);
        assert forall|j: int| 0 <= j < s.filter(p).len() implies 0 <= #[trigger] kept_at(s, p, j)
            < s.len() && s[kept_at(s, p, j)] == s.filter(p)[j] && p(s.filter(p)[j]) by {
            if j < f.len() {
                assert(kept_at(t, p, j) < t.len());
            }
        }
        assert forall|i: int, j: int| 0 <= i < j < s.filter(p).len() implies #[trigger] kept_at(
            s,
            p,
            i,
        ) < #[trigger] kept_at(s, p, j) by {
            if j < f.len() {
                assert(kept_at(t, p, i) < kept_at(t, p, j));
            } else {
                assert(kept_at(t, p, i) < t.len());
            }
        }
    }
}

/// A list without repetitions has none after filtering.
pub proof fn lemma_filter_no_duplicates<A>(s: Seq<A>, p: spec_fn(A) -> bool)
    requires
        s.no_duplicates(),
    ensures
        s.filter(p).no_duplicates(),
{
    lemma_kept(s, p);
    let f = s.filter(p);
    assert forall|i: int, j: int| 0 <= i < f.len() && 0 <= j < f.len() && i != j implies f[i]
        != f[j] by {
        assert(kept_at(s, p, i) != kept_at(s, p, j)) by {
            if i < j {
                assert(kept_at(s, p, i) < kept_at(s, p, j));
            } else {
                assert(kept_at(s, p, j) < kept_at(s, p, i));
            }
        }
    }
}

/// Filtering twice is filtering by both.
pub proof fn lemma_filter_twice<A>(s: Seq<A>, p: spec_fn(A) -> bool, q: spec_fn(A) -> bool)
    ensures
        s.filter(p).filter(q) == s.filter(|x: A| p(x) && q(x)),
    decreases s.len(),
{
    reveal(Seq::filter);
    if s.len() > 0 {
        let t = s.drop_last();
        lemma_filter_twice(t, p, q);
        if p(s.last()) {
            assert(t.filter(p).push(s.last()).drop_last() =~= t.filter(p));
        }
    }
}

/// Two tests that agree on the elements keep the same elements.
pub proof fn lemma_filter_agree<A>(s: Seq<A>, p: spec_fn(A) -> bool, q: spec_fn(A) -> bool)
    requires
        forall|i: int| 0 <= i < s.len() ==> p(#[trigger] s[i]) == q(s[i]),
    ensures
        s.filter(p) == s.filter(q),
    decreases s.len(),
{
    reveal(Seq::filter);
    if s.len() > 0 {
        let t = s.drop_last();
        assert forall|i: int| 0 <= i < t.len() implies p(#[trigger] t[i]) == q(t[i]) by {
            assert(t[i] == s[i]);
        }
        lemma_filter_agree(t, p, q);
        assert(p(s[s.len() - 1]) == q(s[s.len() - 1]));
    }
}

/// A test that every element passes keeps all.
pub proof fn lemma_filter_all<A>(s: Seq<A>, p: spec_fn(A) -> bool)
    requires
        forall|i: int| 0 <= i < s.len() ==> p(#[trigger] s[i]),
    ensures
        s.filter(p) == s,
    decreases s.len(),
{
    reveal(Seq::filter);
    if s.len() > 0 {
        let t = s.drop_last();
        assert forall|i: int| 0 <= i < t.len() implies p(#[trigger] t[i]) by {
            assert(t[i] == s[i]);
        }
        lemma_filter_all(t, p);
        assert(p(s[s.len() - 1]));
        assert(t.push(s.last()) =~= s);
    }
}

/// Filtering a list with one more item at the end.
pub proof fn lemma_filter_push<A>(s: Seq<A>, x: A, p: spec_fn(A) -> bool)
    ensures
        s.push(x).filter(p) == (if p(x) {
            s.filter(p).push(x)
        } else {
            s.filter(p)
        }),
{
    let t = s.push(x);
    lemma_filter_step(t, p, s.len() as int);
    lemma_filter_ends(t, p);
    assert(t.take(s.len() as int) =~= s);
    assert(t.take(s.len() as int + 1) =~= t);
}

/// A list without repetitions that stays within another is no longer.
pub proof fn lemma_distinct_bounded<A>(s: Seq<A>, t: Seq<A>)
    requires
        s.no_duplicates(),
        forall|x: A| s.contains(x) ==> t.contains(x),
    ensures
        s.len() <= t.len(),
{
    s.unique_seq_to_set();
    t.lemma_cardinality_of_set();
    assert(s.to_set().subset_of(t.to_set()));
    vstd::set_lib::lemma_len_subset(s.to_set(), t.to_set());
}

} // verus!
