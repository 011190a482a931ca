//! Order of single-precision numbers, read off their bit patterns, and the
//! choice of the nearest of several hits.

use vstd::prelude::*;
use crate::bones::BoneId;
use crate::geom::{Scalar, BITS_ZERO};

verus! {

/// Bit pattern of `0.05`.
pub const BITS_0_05: u32 = 0x3D4C_CCCD;

/// The sign bit is set.
pub open spec fn negative(a: Scalar) -> bool {
    a.bits >= 0x8000_0000
}

/// The pattern without its sign bit; it grows with the magnitude of the number.
pub open spec fn magnitude(a: Scalar) -> int {
    if negative(a) {
        a.bits - 0x8000_0000
    } else {
        a.bits as int
    }
}

/// The pattern is that of no number.
pub open spec fn nan(a: Scalar) -> bool {
    magnitude(a) > 0x7F80_0000
}

/// A whole number that orders as the number itself does; both zeros give zero.
pub open spec fn rank_of(a: Scalar) -> int {
    if negative(a) {
        -magnitude(a)
    } else {
        magnitude(a)
    }
}

/// `a < b`.
pub open spec fn less_than(a: Scalar, b: Scalar) -> bool {
    !nan(a) && !nan(b) && rank_of(a) < rank_of(b)
}

/// `a` comes before `b` in the total order of all patterns, in which negative
/// zero precedes zero and every pattern has its place.
pub open spec fn ahead_of(a: Scalar, b: Scalar) -> bool {
    if negative(a) {
        if negative(b) {
            magnitude(a) > magnitude(b)
        } else {
            true
        }
    } else {
        !negative(b) && magnitude(a) < magnitude(b)
    }
}

impl Scalar {
    /// `self < other`; false where either is no number.
    pub fn less(&self, other: &Scalar) -> (r: bool)
        ensures
            r == less_than(*self, *other),
    {
        let a = self.bits;
        let b = other.bits;
        let an = a >= 0x8000_0000;
        let bn = b >= 0x8000_0000;
        let am: u32 = if an {
            a - 0x8000_0000
        } else {
            a
        };
        let bm: u32 = if bn {
            b - 0x8000_0000
        } else {
            b
        };
        if am > 0x7F80_0000 || bm > 0x7F80_0000 {
            return false;
        }
        if an {
            if bn {
                bm < am
            } else {
                am > 0 || bm > 0
            }
        } else {
            !bn && am < bm
        }
    }

    /// `self` precedes `other` in the total order of all patterns.
    pub fn precedes(&self, other: &Scalar) -> (r: bool)
        ensures
            r == ahead_of(*self, *other),
    {
        let a = self.bits;
        let b = other.bits;
        if a >= 0x8000_0000 {
            if b >= 0x8000_0000 {
                a > b
            } else {
                true
            }
        } else {
            b < 0x8000_0000 && a < b
        }
    }
}

/// Nothing is less than itself, and one step below is below all that follows.
pub proof fn law_less_than(a: Scalar, b: Scalar, c: Scalar)
    ensures
        !less_than(a, a),
        less_than(a, b) ==> !less_than(b, a),
        less_than(a, b) && less_than(b, c) ==> less_than(a, c),
{
}

/// Of two patterns exactly one is ahead, or they are the same.
pub proof fn law_total_order(a: Scalar, b: Scalar, c: Scalar)
    ensures
        ahead_of(a, b) || ahead_of(b, a) || a == b,
        !(ahead_of(a, b) && ahead_of(b, a)),
        ahead_of(a, b) && ahead_of(b, c) ==> ahead_of(a, c),
{
}

/// The best of a hit so far and one more: a hit behind the eye never counts,
/// and an equal one does not displace.
pub open spec fn better(best: Option<(Scalar, BoneId)>, t: Scalar, id: BoneId) -> Option<
    (Scalar, BoneId),
> {
    if less_than(t, Scalar { bits: BITS_ZERO }) {
        best
    } else {
        match best {
            Some(b) => if less_than(t, b.0) {
                Some((t, id))
            } else {
                best
            },
            None => Some((t, id)),
        }
    }
}

/// The best of the hits, taken in order.
pub open spec fn best_of(hits: Seq<(Scalar, BoneId)>) -> Option<(Scalar, BoneId)>
    decreases hits.len(),
{
    if hits.len() == 0 {
        None
    } else {
        better(best_of(hits.drop_last()), hits.last().0, hits.last().1)
    }
}

/// Keeps the better of `best` and the hit of bone `id` at distance `t`.
pub fn consider(best: &mut Option<(Scalar, BoneId)>, t: Scalar, id: BoneId)
    ensures
        *final(best) == better(*old(best), t, id),
{
    if t.less(&Scalar { bits: BITS_ZERO }) {
        return;
    }
    let take = match best {
        Some(b) => t.less(&b.0),
        None => true,
    };
    if take {
        *best = Some((t, id));
    }
}

/// The bone that is hit first along a ray, out of all hits.
pub fn nearest_bone(hits: &Vec<(Scalar, BoneId)>) -> (r: Option<BoneId>)
    ensures
        r == (match best_of(hits@) {
            Some(b) => Some(b.1),
            None => None,
        }),
{
    let mut best: Option<(Scalar, BoneId)> = None;
    let mut i: usize = 0;
    while i < hits.len()
        invariant
            i <= hits@.len(),
            best == best_of(hits@.take(i as int)),
        decreases hits.len() - i,
    {
        assert(hits@.take(i as int + 1).drop_last() =~= hits@.take(i as int));
        consider(&mut best, hits[i].0, hits[i].1);
        i = i + 1;
    }
    assert(hits@.take(i as int) =~= hits@);
    match best {
        Some(b) => Some(b.1),
        None => None,
    }
}

/// Where all distances are numbers, the bone that is found has a hit in front
/// of the eye that no other such hit is nearer than, and nothing is found only
/// where every hit lies behind the eye.
pub proof fn law_nearest(hits: Seq<(Scalar, BoneId)>)
    requires
        forall|i: int| 0 <= i < hits.len() ==> !nan((#[trigger] hits[i]).0),
    ensures
        match best_of(hits) {
            Some(b) => {
                &&& hits.contains(b)
                &&& !less_than(b.0, Scalar { bits: BITS_ZERO })
                &&& forall|i: int|
                    0 <= i < hits.len() && !less_than(
                        (#[trigger] hits[i]).0,
                        Scalar { bits: BITS_ZERO },
                    ) ==> !less_than(hits[i].0, b.0)
            },
            None => forall|i: int|
                0 <= i < hits.len() ==> less_than(
                    (#[trigger] hits[i]).0,
                    Scalar { bits: BITS_ZERO },
                ),
        },
    decreases hits.len(),
{
    if hits.len() > 0 {
        let front = hits.drop_last();
        assert forall|i: int| 0 <= i < front.len() implies !nan((#[trigger] front[i]).0) by {
            assert(front[i] == hits[i]);
        }
        law_nearest(front);
        assert(hits[hits.len() - 1] == hits.last());
        assert(!nan(hits.last().0));
        let zero = Scalar { bits: BITS_ZERO };
        match best_of(front) {
            Some(b) => {
                let k = choose|k: int| 0 <= k < front.len() && front[k] == b;
                assert(hits[k] == b);
                assert(!nan(b.0));
            },
            None => {},
        }
        match best_of(hits) {
            Some(w) => {
                assert forall|i: int| 0 <= i < hits.len() && !less_than((#[trigger] hits[i]).0, zero)
                    implies !less_than(hits[i].0, w.0) by {
                    if i < front.len() {
                        assert(front[i] == hits[i]);
                        assert(!less_than(front[i].0, zero));
                    }
                }
            },
            None => {
                assert forall|i: int| 0 <= i < hits.len() implies less_than((#[trigger] hits[i]).0, zero) by {
                    if i < front.len() {
                        assert(front[i] == hits[i]);
                    }
                }
            },
        }
    }
}

/// The place of the nearest of the distances, taken in order; an equal one does
/// not displace, and a miss has no distance.
pub open spec fn best_place(ts: Seq<Option<Scalar>>) -> Option<int>
    decreases ts.len(),
{
    if ts.len() == 0 {
        None
    } else {
        let front = best_place(ts.drop_last());
        match ts.last() {
            None => front,
            Some(t) => match front {
                Some(k) => if less_than(t, ts[k]->0) {
                    Some(ts.len() - 1)
                } else {
                    front
                },
                None => Some(ts.len() - 1),
            },
        }
    }
}

/// The place that is found is in the list and holds a distance.
pub proof fn lemma_best_place(ts: Seq<Option<Scalar>>)
    ensures
        best_place(ts) matches Some(k) ==> 0 <= k < ts.len() && ts[k] is Some,
    decreases ts.len(),
{
    if ts.len() > 0 {
        lemma_best_place(ts.drop_last());
    }
}

/// All distances that there are, are numbers.
pub open spec fn all_numbers(ts: Seq<Option<Scalar>>) -> bool {
    forall|i: int| 0 <= i < ts.len() && (#[trigger] ts[i]) is Some ==> !nan(ts[i]->0)
}

/// Where all distances are numbers, no other is nearer than the one that is
/// found, those before it are farther, and nothing is found only where there
/// are only misses.
pub proof fn law_best_place(ts: Seq<Option<Scalar>>)
    requires
        all_numbers(ts),
    ensures
        match best_place(ts) {
            Some(k) => {
                &&& 0 <= k < ts.len() && ts[k] is Some
                &&& forall|i: int|
                    0 <= i < ts.len() && (#[trigger] ts[i]) is Some ==> !less_than(
                        ts[i]->0,
                        ts[k]->0,
                    )
                &&& forall|i: int|
                    0 <= i < k && (#[trigger] ts[i]) is Some ==> less_than(ts[k]->0, ts[i]->0)
            },
            None => forall|i: int| 0 <= i < ts.len() ==> (#[trigger] ts[i]) is None,
        },
    decreases ts.len(),
{
    if ts.len() > 0 {
        let front = ts.drop_last();
        assert forall|i: int| 0 <= i < front.len() implies #[trigger] front[i] == ts[i] by {}
        assert(all_numbers(front)) by {
            assert forall|i: int| 0 <= i < front.len() && (#[trigger] front[i]) is Some implies !nan(
                front[i]->0,
            ) by {
                assert(ts[i] == front[i]);
            }
        }
        law_best_place(front);
        assert(ts.last() == ts[ts.len() - 1]);
        match best_place(front) {
            Some(k) => {
                assert(ts[k] == front[k]);
                let w = best_place(ts)->0;
                assert forall|i: int| 0 <= i < ts.len() && (#[trigger] ts[i]) is Some implies !less_than(
                    ts[i]->0,
                    ts[w]->0,
                ) by {
                    if i < front.len() {
                        assert(front[i] == ts[i]);
                    }
                }
                assert forall|i: int| 0 <= i < w && (#[trigger] ts[i]) is Some implies less_than(
                    ts[w]->0,
                    ts[i]->0,
                ) by {
                    assert(front[i] == ts[i]);
                    assert(!less_than(front[i]->0, front[k]->0));
                }
            },
            None => {
                assert forall|i: int| 0 <= i < front.len() implies (#[trigger] ts[i]) is None by {
                    assert(front[i] == ts[i]);
                }
            },
        }
    }
}

/// The place of the nearest hit, if anything was hit.
pub fn nearest_place(ts: &Vec<Option<Scalar>>) -> (r: Option<usize>)
    ensures
        match r {
            Some(k) => best_place(ts@) == Some(k as int) && k < ts@.len(),
            None => best_place(ts@) is None,
        },
{
    let mut best: Option<(usize, Scalar)> = None;
    let mut i: usize = 0;
    while i < ts.len()
        invariant
            i <= ts@.len(),
            match best {
                Some(b) => best_place(ts@.take(i as int)) == Some(b.0 as int) && b.0 < i
                    && ts@[b.0 as int] == Some(b.1),
                None => best_place(ts@.take(i as int)) is None,
            },
        decreases ts.len() - i,
    {
        let ghost t1 = ts@.take(i as int + 1);
        assert(t1.drop_last() =~= ts@.take(i as int));
        assert(t1.last() == ts@[i as int]);
        match ts[i] {
            Some(t) => {
                let take = match best {
                    Some(b) => {
                        assert(t1[b.0 as int] == ts@[b.0 as int]);
                        t.less(&b.1)
                    },
                    None => true,
                };
                if take {
                    best = Some((i, t));
                }
            },
            None => {},
        }
        i = i + 1;
    }
    assert(ts@.take(i as int) =~= ts@);
    match best {
        Some(b) => Some(b.0),
        None => None,
    }
}

/// `a >= b`.
pub open spec fn at_least(a: Scalar, b: Scalar) -> bool {
    !nan(a) && !nan(b) && rank_of(a) >= rank_of(b)
}

impl Scalar {
    /// `self >= other`; false where either is no number.
    pub fn reaches(&self, other: &Scalar) -> (r: bool)
        ensures
            r == at_least(*self, *other),
    {
        !self.is_nan() && !other.is_nan() && !self.less(other)
    }

    /// It is no number.
    pub fn is_nan(&self) -> (r: bool)
        ensures
            r == nan(*self),
    {
        let m: u32 = if self.bits >= 0x8000_0000 {
            self.bits - 0x8000_0000
        } else {
            self.bits
        };
        m > 0x7F80_0000
    }
}

/// The larger of two numbers; where one is no number, the other.
pub open spec fn larger(a: Scalar, b: Scalar) -> Scalar {
    if nan(b) {
        a
    } else if nan(a) || less_than(a, b) {
        b
    } else {
        a
    }
}

impl Scalar {
    /// The larger number; where one is no number, the other.
    pub fn or_larger(&self, other: &Scalar) -> (r: Scalar)
        ensures
            r == larger(*self, *other),
    {
        if other.is_nan() {
            *self
        } else if self.is_nan() || self.less(other) {
            *other
        } else {
            *self
        }
    }
}

/// The smaller of two numbers; where one is no number, the other.
pub open spec fn smaller(a: Scalar, b: Scalar) -> Scalar {
    if nan(b) {
        a
    } else if nan(a) || less_than(b, a) {
        b
    } else {
        a
    }
}

impl Scalar {
    /// The smaller number; where one is no number, the other.
    pub fn or_smaller(&self, other: &Scalar) -> (r: Scalar)
        ensures
            r == smaller(*self, *other),
    {
        if other.is_nan() {
            *self
        } else if self.is_nan() || other.less(self) {
            *other
        } else {
            *self
        }
    }
}

/// `x` held between `lo` and `hi`; what is no number stays.
pub open spec fn held_between(x: Scalar, lo: Scalar, hi: Scalar) -> Scalar {
    if less_than(x, lo) {
        lo
    } else if less_than(hi, x) {
        hi
    } else {
        x
    }
}

/// `x` held between `lo` and `hi`.
pub fn hold_between(x: Scalar, lo: Scalar, hi: Scalar) -> (r: Scalar)
    ensures
        r == held_between(x, lo, hi),
{
    if x.less(&lo) {
        lo
    } else if hi.less(&x) {
        hi
    } else {
        x
    }
}

} // verus!
