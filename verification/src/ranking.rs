//! Ranking numbers: the order in which places come when their numbers are
//! sorted, equal ones keeping their order.

use vstd::prelude::*;
use crate::geom::Scalar;
use crate::order::{ahead_of, less_than, nan};

verus! {

/// How to rank.
#[derive(Clone, Copy, Debug, PartialEq, Eq, Structural)]
pub enum Ranking {
    /// Smallest first.
    Rising,
    /// Largest first.
    Falling,
    /// Smallest first, in the total order of all patterns.
    TotalRising,
    /// Largest first, in the total order of all patterns.
    TotalFalling,
}

/// `a` has to come before `b`.
pub open spec fn comes_before(how: Ranking, a: Scalar, b: Scalar) -> bool {
    match how {
        Ranking::Rising => less_than(a, b),
        Ranking::Falling => less_than(b, a),
        Ranking::TotalRising => ahead_of(a, b),
        Ranking::TotalFalling => ahead_of(b, a),
    }
}

/// All numbers can be ranked: only the total order has a place for what is no
/// number.
pub open spec fn rankable(keys: Seq<Scalar>, how: Ranking) -> bool {
    how == Ranking::TotalRising || how == Ranking::TotalFalling || forall|i: int|
        0 <= i < keys.len() ==> !nan(#[trigger] keys[i])
}

/// The first place from `i` on in `order` whose number `k` has to come before.
pub open spec fn slot(
    keys: Seq<Scalar>,
    how: Ranking,
    order: Seq<int>,
    k: Scalar,
    i: int,
) -> int
    decreases order.len() - i,
{
    if i >= order.len() || comes_before(how, k, keys[order[i]]) {
        i
    } else {
        slot(keys, how, order, k, i + 1)
    }
}

/// The places of the first `n` numbers, ranked.
pub open spec fn ranked(keys: Seq<Scalar>, how: Ranking, n: int) -> Seq<int>
    decreases n,
{
    if n <= 0 {
        Seq::empty()
    } else {
        let front = ranked(keys, how, n - 1);
        front.insert(slot(keys, how, front, keys[n - 1], 0), n - 1)
    }
}

proof fn lemma_slot(keys: Seq<Scalar>, how: Ranking, order: Seq<int>, k: Scalar, i: int)
    requires
        0 <= i <= order.len(),
    ensures
        i <= slot(keys, how, order, k, i) <= order.len(),
        forall|j: int|
            i <= j < slot(keys, how, order, k, i) ==> !comes_before(
                how,
                k,
                keys[#[trigger] order[j]],
            ),
        slot(keys, how, order, k, i) < order.len() ==> comes_before(
            how,
            k,
            keys[order[slot(keys, how, order, k, i)]],
        ),
    decreases order.len() - i,
{
    if i < order.len() && !comes_before(how, k, keys[order[i]]) {
        lemma_slot(keys, how, order, k, i + 1);
    }
}

/// A ranking lists every place exactly once.
pub proof fn law_ranked_places(keys: Seq<Scalar>, how: Ranking, n: int)
    requires
        0 <= n,
    ensures
        ranked(keys, how, n).len() == n,
        ranked(keys, how, n).no_duplicates(),
        forall|i: int| #[trigger] ranked(keys, how, n).contains(i) <==> 0 <= i < n,
    decreases n,
{
    if n > 0 {
        let front = ranked(keys, how, n - 1);
        let p = slot(keys, how, front, keys[n - 1], 0);
        let all = ranked(keys, how, n);
        law_ranked_places(keys, how, n - 1);
        lemma_slot(keys, how, front, keys[n - 1], 0);
        assert(all == front.insert(p, n - 1));
        assert forall|i: int| #[trigger] all.contains(i) <==> 0 <= i < n by {
            if all.contains(i) && i != n - 1 {
                let k = choose|k: int| 0 <= k < all.len() && all[k] == i;
                if k < p {
                    assert(front[k] == i);
                } else {
                    assert(front[k - 1] == i);
                }
                assert(front.contains(i));
            }
            if 0 <= i < n - 1 {
                assert(front.contains(i));
                let k = choose|k: int| 0 <= k < front.len() && front[k] == i;
                if k < p {
                    assert(all[k] == i);
                } else {
                    assert(all[k + 1] == i);
                }
            }
            if i == n - 1 {
                assert(all[p] == i);
            }
        }
        assert forall|i: int, j: int| 0 <= i < all.len() && 0 <= j < all.len() && i != j implies all[i]
            != all[j] by {
            let a = if i < p {
                i
            } else {
                i - 1
            };
            let b = if j < p {
                j
            } else {
                j - 1
            };
            if i != p && j != p {
                assert(front[a] != front[b]);
            } else if i == p {
                assert(front.contains(front[b]));
            } else {
                assert(front.contains(front[a]));
            }
        }
    }
}

/// In a ranking, of two places the earlier one has to come first, or neither
/// has to and they keep their order.
pub proof fn law_ranked_order(keys: Seq<Scalar>, how: Ranking, n: int)
    requires
        0 <= n <= keys.len(),
        rankable(keys, how),
    ensures
        forall|i: int, j: int|
            0 <= i < j < n ==> in_rank(
                keys,
                how,
                #[trigger] ranked(keys, how, n)[i],
                #[trigger] ranked(keys, how, n)[j],
            ),
    decreases n,
{
    law_ranked_places(keys, how, n);
    if n > 0 {
        let front = ranked(keys, how, n - 1);
        let k = keys[n - 1];
        let p = slot(keys, how, front, k, 0);
        let all = ranked(keys, how, n);
        law_ranked_places(keys, how, n - 1);
        law_ranked_order(keys, how, n - 1);
        lemma_slot(keys, how, front, k, 0);
        assert(all == front.insert(p, n - 1));
        assert forall|i: int, j: int| 0 <= i < j < n implies in_rank(
            keys,
            how,
            #[trigger] all[i],
            #[trigger] all[j],
        ) by {
            let a = if i < p {
                i
            } else {
                i - 1
            };
            let b = if j < p {
                j
            } else {
                j - 1
            };
            if i != p && j != p {
                assert(in_rank(keys, how, front[a], front[b]));
            } else if j == p {
                assert(front.contains(front[i]));
                assert(!comes_before(how, k, keys[front[i]]));
            } else {
                assert(all[j] == front[b]);
                assert(front.contains(front[b]) && front.contains(front[p]));
                if b > p {
                    assert(in_rank(keys, how, front[p], front[b]));
                }
                assert(comes_before(how, k, keys[front[p]]));
                assert(!nan(keys[front[b]]) || how == Ranking::TotalRising || how
                    == Ranking::TotalFalling);
                assert(!nan(keys[front[p]]) || how == Ranking::TotalRising || how
                    == Ranking::TotalFalling);
            }
        }
    }
}

/// Place `a` may stand before place `b`.
pub open spec fn in_rank(keys: Seq<Scalar>, how: Ranking, a: int, b: int) -> bool {
    comes_before(how, keys[a], keys[b]) || (!comes_before(how, keys[b], keys[a]) && a < b)
}

fn goes_before(how: Ranking, a: &Scalar, b: &Scalar) -> (r: bool)
    ensures
        r == comes_before(how, *a, *b),
{
    match how {
        Ranking::Rising => a.less(b),
        Ranking::Falling => b.less(a),
        Ranking::TotalRising => a.precedes(b),
        Ranking::TotalFalling => b.precedes(a),
    }
}

/// The numbers of `keys` in their total order, smallest first.
pub open spec fn rising(keys: Seq<Scalar>) -> Seq<Scalar> {
    ranked(keys, Ranking::TotalRising, keys.len() as int).map_values(|i: int| keys[i])
}

/// Places as whole numbers.
pub open spec fn places(v: Seq<usize>) -> Seq<int> {
    v.map_values(|i: usize| i as int)
}

/// The places of `keys`, ranked.
pub fn rank(keys: &Vec<Scalar>, how: Ranking) -> (r: Vec<usize>)
    requires
        rankable(keys@, how),
    ensures
        places(r@) == ranked(keys@, how, keys@.len() as int),
        r@.len() == keys@.len(),
        forall|i: int| 0 <= i < r@.len() ==> (#[trigger] r@[i]) < keys@.len(),
{
    let mut out: Vec<usize> = Vec::new();
    let mut n: usize = 0;
    assert(places(out@) =~= Seq::empty());
    while n < keys.len()
        invariant
            n <= keys@.len(),
            places(out@) == ranked(keys@, how, n as int),
            out@.len() == n,
            forall|i: int| 0 <= i < out@.len() ==> (#[trigger] out@[i]) < n,
        decreases keys.len() - n,
    {
        let ghost order = places(out@);
        let ghost o = out@;
        let ghost k = keys@[n as int];
        let mut p: usize = 0;
        while p < out.len() && !goes_before(how, &keys[n], &keys[out[p]])
            invariant
                p <= out@.len(),
                n < keys@.len(),
                out@ == o,
                order == places(out@),
                k == keys@[n as int],
                forall|i: int| 0 <= i < out@.len() ==> (#[trigger] out@[i]) < n,
                slot(keys@, how, order, k, 0) == slot(keys@, how, order, k, p as int),
            decreases out.len() - p,
        {
            assert(order[p as int] == out@[p as int]);
            p = p + 1;
        }
        proof {
            if p < out@.len() {
                assert(order[p as int] == out@[p as int]);
            }
        }
        assert(slot(keys@, how, order, k, 0) == p);
        out.insert(p, n);
        assert(places(out@) =~= order.insert(p as int, n as int));
        assert forall|i: int| 0 <= i < out@.len() implies (#[trigger] out@[i]) < n + 1 by {
            if i < p {
                assert(out@[i] == o[i]);
            } else if i > p {
                assert(out@[i] == o[i - 1]);
            }
        }
        n = n + 1;
    }
    out
}

} // verus!
