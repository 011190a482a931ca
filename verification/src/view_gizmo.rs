//! Viewport corner orientation gizmo (Unity-style). Click an axis to snap the
//! camera.

use vstd::prelude::*;
use crate::geom::Scalar;
use crate::order::{best_place, law_best_place, less_than, nan, nearest_place};
use crate::ranking::{places, rank, rankable, ranked, Ranking};

verus! {

/// Which view to snap to (camera sits on this world axis, looking at target).
#[derive(Clone, Copy, Debug, PartialEq, Eq, Structural)]
pub enum ViewAxis {
    PosX,
    NegX,
    PosY,
    NegY,
    PosZ,
    NegZ,
}

impl ViewAxis {
    pub open spec fn view_text(self) -> Seq<char> {
        match self {
            ViewAxis::PosX => "+X"@,
            ViewAxis::NegX => "-X"@,
            ViewAxis::PosY => "+Y"@,
            ViewAxis::NegY => "-Y"@,
            ViewAxis::PosZ => "+Z"@,
            ViewAxis::NegZ => "-Z"@,
        }
    }

    pub open spec fn positive(self) -> bool {
        self == ViewAxis::PosX || self == ViewAxis::PosY || self == ViewAxis::PosZ
    }

    /// All axes, in the order in which tips are made.
    pub open spec fn order() -> Seq<ViewAxis> {
        seq![
            ViewAxis::PosX,
            ViewAxis::NegX,
            ViewAxis::PosY,
            ViewAxis::NegY,
            ViewAxis::PosZ,
            ViewAxis::NegZ,
        ]
    }

    /// What the status line calls the view.
    pub fn label_view(self) -> (r: &'static str)
        ensures
            r@ == self.view_text(),
    {
        match self {
            ViewAxis::PosX => "+X",
            ViewAxis::NegX => "-X",
            ViewAxis::PosY => "+Y",
            ViewAxis::NegY => "-Y",
            ViewAxis::PosZ => "+Z",
            ViewAxis::NegZ => "-Z",
        }
    }

    /// What is written on the tip; only positive tips carry a letter.
    pub fn label(self) -> (r: Option<&'static str>)
        ensures
            r is Some <==> self.positive(),
            match self {
                ViewAxis::PosX => r matches Some(s) && s@ == "X"@,
                ViewAxis::PosY => r matches Some(s) && s@ == "Y"@,
                ViewAxis::PosZ => r matches Some(s) && s@ == "Z"@,
                _ => r is None,
            },
    {
        match self {
            ViewAxis::PosX => Some("X"),
            ViewAxis::PosY => Some("Y"),
            ViewAxis::PosZ => Some("Z"),
            _ => None,
        }
    }

    pub fn is_positive(self) -> (r: bool)
        ensures
            r == self.positive(),
    {
        match self {
            ViewAxis::PosX | ViewAxis::PosY | ViewAxis::PosZ => true,
            _ => false,
        }
    }

    pub fn all() -> (r: [ViewAxis; 6])
        ensures
            r@ == Self::order(),
    {
        [
            ViewAxis::PosX,
            ViewAxis::NegX,
            ViewAxis::PosY,
            ViewAxis::NegY,
            ViewAxis::PosZ,
            ViewAxis::NegZ,
        ]
    }
}

/// Each axis is listed once, and of the two on one line one is positive.
pub proof fn law_axes()
    ensures
        ViewAxis::order().no_duplicates(),
        forall|a: ViewAxis| #[trigger] ViewAxis::order().contains(a),
        forall|i: int|
            0 <= i < 3 ==> (#[trigger] ViewAxis::order()[2 * i]).positive()
                && !ViewAxis::order()[2 * i + 1].positive(),
{
    let s = ViewAxis::order();
    assert forall|a: ViewAxis| #[trigger] s.contains(a) by {
        match a {
            ViewAxis::PosX => assert(s[0] == a),
            ViewAxis::NegX => assert(s[1] == a),
            ViewAxis::PosY => assert(s[2] == a),
            ViewAxis::NegY => assert(s[3] == a),
            ViewAxis::PosZ => assert(s[4] == a),
            ViewAxis::NegZ => assert(s[5] == a),
        }
    }
    assert forall|i: int| 0 <= i < 3 implies (#[trigger] s[2 * i]).positive() && !s[2 * i
        + 1].positive() by {
        assert(i == 0 || i == 1 || i == 2);
    }
}

/// The tips in the order in which they are drawn, the farthest first.
pub fn draw_order(depths: &Vec<Scalar>) -> (r: Vec<usize>)
    requires
        rankable(depths@, Ranking::Falling),
    ensures
        places(r@) == ranked(depths@, Ranking::Falling, depths@.len() as int),
{
    rank(depths, Ranking::Falling)
}

/// How deep the tips lie that are hit.
pub open spec fn hit_depths(depths: Seq<Scalar>, hits: Seq<bool>) -> Seq<Option<Scalar>> {
    Seq::new(
        depths.len(),
        |i: int|
            if hits[i] {
                Some(depths[i])
            } else {
                None
            },
    )
}

/// The axis whose tip is under the pointer, given how deep each tip of
/// `ViewAxis::order` lies and whether it is hit: of those that are, the one in
/// front.
pub open spec fn axis_hit(depths: Seq<Scalar>, hits: Seq<bool>) -> Option<ViewAxis> {
    match best_place(hit_depths(depths, hits)) {
        Some(k) => Some(ViewAxis::order()[k]),
        None => None,
    }
}

/// The axis that is picked has its tip under the pointer, and no other tip there
/// lies in front of it; nothing is picked only where no tip is hit.
pub proof fn law_front_most(depths: Seq<Scalar>, hits: Seq<bool>)
    requires
        depths.len() == 6,
        hits.len() == 6,
        forall|i: int| 0 <= i < 6 ==> !nan(#[trigger] depths[i]),
    ensures
        match axis_hit(depths, hits) {
            Some(a) => exists|k: int|
                0 <= k < 6 && #[trigger] hits[k] && ViewAxis::order()[k] == a && forall|i: int|
                    0 <= i < 6 && #[trigger] hits[i] ==> !less_than(depths[i], depths[k]),
            None => forall|i: int| 0 <= i < 6 ==> !#[trigger] hits[i],
        },
{
    let ts = hit_depths(depths, hits);
    law_best_place(ts);
    match best_place(ts) {
        Some(k) => {
            assert(hits[k]);
            assert forall|i: int| 0 <= i < 6 && #[trigger] hits[i] implies !less_than(
                depths[i],
                depths[k],
            ) by {
                assert(ts[i] is Some);
            }
        },
        None => {
            assert forall|i: int| 0 <= i < 6 implies !#[trigger] hits[i] by {
                assert(ts[i] is None);
            }
        },
    }
}

/// Pick axis under cursor. Prefers front-most tip.
pub fn hit_test(depths: &Vec<Scalar>, hits: &Vec<bool>) -> (r: Option<ViewAxis>)
    requires
        depths@.len() == 6,
        hits@.len() == 6,
    ensures
        r == axis_hit(depths@, hits@),
{
    let mut line: Vec<Option<Scalar>> = Vec::new();
    let mut i: usize = 0;
    while i < 6
        invariant
            i <= 6,
            depths@.len() == 6,
            hits@.len() == 6,
            line@ == hit_depths(depths@, hits@).take(i as int),
        decreases 6 - i,
    {
        line.push(
            if hits[i] {
                Some(depths[i])
            } else {
                None
            },
        );
        assert(hit_depths(depths@, hits@).take(i as int + 1) =~= hit_depths(depths@, hits@).take(
            i as int,
        ).push(hit_depths(depths@, hits@)[i as int]));
        i = i + 1;
    }
    assert(line@ =~= hit_depths(depths@, hits@));
    match nearest_place(&line) {
        Some(k) => {
            let all = ViewAxis::all();
            Some(all[k])
        },
        None => None,
    }
}

} // verus!
