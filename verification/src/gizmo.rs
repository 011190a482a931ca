//! Gizmo handles: which one the pointer is over, along which directions each
//! moves, and which bones a drag takes along.

use vstd::prelude::*;
use crate::bones::BoneId;
use crate::geom::Scalar;
use crate::order::{best_place, less_than, nearest_place};
use crate::scene::{has_node, NodeView, Scene};
use crate::session::GizmoAxis;

verus! {

/// Bit pattern of `0.45`.
pub const BITS_0_45: u32 = 0x3EE6_6666;

/// Where the pointer's ray meets the plane of a ring.
#[derive(Clone, Copy, Debug, PartialEq, Eq, Structural)]
pub struct RingHit {
    /// How far off the ring, as a share of its radius.
    pub error: Scalar,
    /// Depth, made worse by the error.
    pub score: Scalar,
}

/// The rings.
pub open spec fn ring_axes() -> Seq<GizmoAxis> {
    seq![GizmoAxis::X, GizmoAxis::Y, GizmoAxis::Z]
}

/// The arrows, then the squares.
pub open spec fn handle_axes() -> Seq<GizmoAxis> {
    seq![GizmoAxis::X, GizmoAxis::Y, GizmoAxis::Z, GizmoAxis::Xy, GizmoAxis::Yz, GizmoAxis::Zx]
}

/// The score of a hit that is close enough to its ring.
pub open spec fn ring_score(hit: Option<RingHit>) -> Option<Scalar> {
    match hit {
        Some(h) => if less_than(Scalar { bits: BITS_0_45 }, h.error) {
            None
        } else {
            Some(h.score)
        },
        None => None,
    }
}

/// The distance of an arrow that is within `reach`.
pub open spec fn arrow_score(d: Scalar, reach: Scalar) -> Option<Scalar> {
    if less_than(d, reach) {
        Some(d)
    } else {
        None
    }
}

/// The rings of the rotate gizmo.
pub fn rotate_axes() -> (r: Vec<GizmoAxis>)
    ensures
        r@ == ring_axes(),
{
    vec![GizmoAxis::X, GizmoAxis::Y, GizmoAxis::Z]
}

fn score_ring(hit: Option<RingHit>) -> (r: Option<Scalar>)
    ensures
        r == ring_score(hit),
{
    match hit {
        Some(h) => if (Scalar { bits: BITS_0_45 }).less(&h.error) {
            None
        } else {
            Some(h.score)
        },
        None => None,
    }
}

fn score_arrow(d: Scalar, reach: Scalar) -> (r: Option<Scalar>)
    ensures
        r == arrow_score(d, reach),
{
    if d.less(&reach) {
        Some(d)
    } else {
        None
    }
}

/// The scores of the three rings.
pub open spec fn ring_scores(
    x: Option<RingHit>,
    y: Option<RingHit>,
    z: Option<RingHit>,
) -> Seq<Option<Scalar>> {
    seq![ring_score(x), ring_score(y), ring_score(z)]
}

/// The ring with the least score, the first of equals.
pub fn pick_rotate_axis(x: Option<RingHit>, y: Option<RingHit>, z: Option<RingHit>) -> (r: Option<
    GizmoAxis,
>)
    ensures
        match best_place(ring_scores(x, y, z)) {
            Some(k) => 0 <= k < 3 && r == Some(ring_axes()[k]),
            None => r is None,
        },
{
    let scores = vec![score_ring(x), score_ring(y), score_ring(z)];
    assert(scores@ =~= ring_scores(x, y, z));
    match nearest_place(&scores) {
        Some(k) => Some(rotate_axes()[k]),
        None => None,
    }
}

/// What the pointer is to the handles of the translate gizmo.
#[derive(Clone, Copy, Debug, PartialEq, Eq, Structural)]
pub struct HandleHits {
    /// Distance of the ray from each arrow.
    pub x: Scalar,
    pub y: Scalar,
    pub z: Scalar,
    /// How near an arrow has to be.
    pub reach: Scalar,
    /// Depth at which each square is met.
    pub xy: Option<Scalar>,
    pub yz: Option<Scalar>,
    pub zx: Option<Scalar>,
}

/// The scores of arrows and squares.
pub open spec fn handle_scores(h: HandleHits) -> Seq<Option<Scalar>> {
    seq![
        arrow_score(h.x, h.reach),
        arrow_score(h.y, h.reach),
        arrow_score(h.z, h.reach),
        h.xy,
        h.yz,
        h.zx,
    ]
}

/// The arrow or square with the least score, the first of equals.
pub fn pick_translate_axis(h: &HandleHits) -> (r: Option<GizmoAxis>)
    ensures
        match best_place(handle_scores(*h)) {
            Some(k) => 0 <= k < 6 && r == Some(handle_axes()[k]),
            None => r is None,
        },
{
    let scores = vec![
        score_arrow(h.x, h.reach),
        score_arrow(h.y, h.reach),
        score_arrow(h.z, h.reach),
        h.xy,
        h.yz,
        h.zx,
    ];
    assert(scores@ =~= handle_scores(*h));
    let axes = vec![
        GizmoAxis::X,
        GizmoAxis::Y,
        GizmoAxis::Z,
        GizmoAxis::Xy,
        GizmoAxis::Yz,
        GizmoAxis::Zx,
    ];
    assert(axes@ =~= handle_axes());
    match nearest_place(&scores) {
        Some(k) => Some(axes[k]),
        None => None,
    }
}

/// A direction of the bone's own frame.
#[derive(Clone, Copy, Debug, PartialEq, Eq, Structural)]
pub enum Side {
    X,
    Y,
    Z,
}

/// How a translate handle moves.
#[derive(Clone, Copy, Debug, PartialEq, Eq, Structural)]
pub struct HandleFrame {
    /// Along this direction, or, of a square, between this and `also`.
    pub along: Side,
    pub also: Option<Side>,
    /// The plane: its normal, and the two directions in it.
    pub normal: Side,
    pub u: Side,
    pub v: Side,
}

/// How the handle for `axis` moves; there is none for scaling.
pub open spec fn frame_of(axis: GizmoAxis) -> Option<HandleFrame> {
    match axis {
        GizmoAxis::X => Some(
            HandleFrame { along: Side::X, also: None, normal: Side::X, u: Side::Y, v: Side::Z },
        ),
        GizmoAxis::Y => Some(
            HandleFrame { along: Side::Y, also: None, normal: Side::Y, u: Side::X, v: Side::Z },
        ),
        GizmoAxis::Z => Some(
            HandleFrame { along: Side::Z, also: None, normal: Side::Z, u: Side::X, v: Side::Y },
        ),
        GizmoAxis::Xy => Some(
            HandleFrame {
                along: Side::X,
                also: Some(Side::Y),
                normal: Side::Z,
                u: Side::X,
                v: Side::Y,
            },
        ),
        GizmoAxis::Yz => Some(
            HandleFrame {
                along: Side::Y,
                also: Some(Side::Z),
                normal: Side::X,
                u: Side::Y,
                v: Side::Z,
            },
        ),
        GizmoAxis::Zx => Some(
            HandleFrame {
                along: Side::Z,
                also: Some(Side::X),
                normal: Side::Y,
                u: Side::Z,
                v: Side::X,
            },
        ),
        GizmoAxis::Uniform => None,
    }
}

/// How the handle for `axis` moves.
pub fn handle_frame(axis: GizmoAxis) -> (r: Option<HandleFrame>)
    ensures
        r == frame_of(axis),
{
    let (along, also, normal, u, v) = match axis {
        GizmoAxis::X => (Side::X, None, Side::X, Side::Y, Side::Z),
        GizmoAxis::Y => (Side::Y, None, Side::Y, Side::X, Side::Z),
        GizmoAxis::Z => (Side::Z, None, Side::Z, Side::X, Side::Y),
        GizmoAxis::Xy => (Side::X, Some(Side::Y), Side::Z, Side::X, Side::Y),
        GizmoAxis::Yz => (Side::Y, Some(Side::Z), Side::X, Side::Y, Side::Z),
        GizmoAxis::Zx => (Side::Z, Some(Side::X), Side::Y, Side::Z, Side::X),
        GizmoAxis::Uniform => {
            return None;
        },
    };
    Some(HandleFrame { along, also, normal, u, v })
}

/// The normal and the two directions in a handle's plane are the three sides of
/// the frame; an arrow moves along the normal, a square between the other two.
pub proof fn law_handle_frame(axis: GizmoAxis)
    ensures
        axis == GizmoAxis::Uniform <==> frame_of(axis) is None,
        match frame_of(axis) {
            Some(f) => {
                &&& f.normal != f.u && f.u != f.v && f.v != f.normal
                &&& match f.also {
                    None => f.along == f.normal,
                    Some(s) => f.along == f.u && s == f.v,
                }
            },
            None => true,
        },
{
}

/// The direction that the ring for `axis` turns about; Y for what is no ring.
pub open spec fn side_of(axis: GizmoAxis) -> Side {
    match axis {
        GizmoAxis::X => Side::X,
        GizmoAxis::Z => Side::Z,
        _ => Side::Y,
    }
}

/// The direction that the ring for `axis` turns about.
pub fn world_axis_of(axis: GizmoAxis) -> (r: Side)
    ensures
        r == side_of(axis),
{
    match axis {
        GizmoAxis::X => Side::X,
        GizmoAxis::Z => Side::Z,
        _ => Side::Y,
    }
}

/// The bones a drag is asked to take: the roots of the selection, or the bone
/// itself where there are none.
pub open spec fn asked_bones(bone: BoneId, roots: Seq<BoneId>) -> Seq<BoneId> {
    if roots.len() == 0 {
        seq![bone]
    } else {
        roots
    }
}

/// The bones a drag takes along: those whose node exists.
pub open spec fn taken_bones(nodes: Seq<NodeView>, bone: BoneId, roots: Seq<BoneId>) -> Seq<BoneId> {
    asked_bones(bone, roots).filter(|id: BoneId| has_node(nodes, id.node))
}

/// The bones that a rotate or translate drag takes along; none begins without
/// any.
pub fn drag_bones(scene: &Scene, bone: BoneId, roots: &Vec<BoneId>) -> (r: Option<Vec<BoneId>>)
    requires
        scene.wf(),
    ensures
        match r {
            Some(v) => v@ == taken_bones(scene@.nodes, bone, roots@) && v@.len() > 0,
            None => taken_bones(scene@.nodes, bone, roots@).len() == 0,
        },
{
    let ghost p = |id: BoneId| has_node(scene@.nodes, id.node);
    let ghost ids = asked_bones(bone, roots@);
    let mut out: Vec<BoneId> = Vec::new();
    proof {
        crate::lists::lemma_filter_ends(ids, p);
    }
    if roots.len() == 0 {
        proof {
            crate::lists::lemma_filter_step(ids, p, 0);
        }
        if scene.find_node(bone.node).is_some() {
            out.push(bone);
        }
    } else {
        let mut i: usize = 0;
        while i < roots.len()
            invariant
                i <= roots@.len(),
                scene.wf(),
                ids == roots@,
                p == (|id: BoneId| has_node(scene@.nodes, id.node)),
                out@ == ids.take(i as int).filter(p),
            decreases roots.len() - i,
        {
            proof {
                crate::lists::lemma_filter_step(ids, p, i as int);
            }
            if scene.find_node(roots[i].node).is_some() {
                out.push(roots[i]);
            }
            i = i + 1;
        }
    }
    if out.len() == 0 {
        None
    } else {
        Some(out)
    }
}

/// The handle that is drawn highlighted: the one held, else the one under the
/// pointer.
pub open spec fn highlight_of(held: Option<GizmoAxis>, hover: Option<GizmoAxis>) -> Option<GizmoAxis> {
    if held is Some {
        held
    } else {
        hover
    }
}

/// The handle that is drawn highlighted.
pub fn highlight(held: Option<GizmoAxis>, hover: Option<GizmoAxis>) -> (r: Option<GizmoAxis>)
    ensures
        r == highlight_of(held, hover),
{
    if held.is_some() {
        held
    } else {
        hover
    }
}

} // verus!
