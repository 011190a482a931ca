//! What gizmo handles and toolbar switches do.

use vstd::prelude::*;
use crate::bones::BoneId;
use crate::geom::Scalar;
use crate::gizmo::{
    arrow_score, asked_bones, frame_of, handle_axes, handle_scores, highlight_of, ring_axes, ring_score,
    ring_scores, side_of, taken_bones, HandleHits, RingHit, Side,
};
use crate::lists::lemma_filter_contains;
use crate::order::less_than;
use crate::rig::{AppMode, BrushKind, MoveMode, RigView, Tool, TransformSpace};
use crate::scene::{has_node, NodeView};
use crate::session::{AppView, GizmoAxis};
use crate::toolbar::{option_on, options_of, shows, switched, Toggle};
use crate::view_gizmo::ViewAxis;

verus! {

/// A ring is taken hold of where the pointer is not further off than 0.45 of its
/// radius; then its own score counts.
pub proof fn law_ring_score(h: RingHit)
    ensures
        less_than(Scalar { bits: 0x3EE6_6666 }, h.error) ==> ring_score(Some(h)) is None,
        !less_than(Scalar { bits: 0x3EE6_6666 }, h.error) ==> ring_score(Some(h)) == Some(h.score),
        ring_score(None) is None,
{
}

/// An arrow is taken hold of where the pointer is nearer than its reach.
pub proof fn law_arrow_score(d: Scalar, reach: Scalar)
    ensures
        less_than(d, reach) ==> arrow_score(d, reach) == Some(d),
        !less_than(d, reach) ==> arrow_score(d, reach) is None,
{
}

/// Scores stand in the order of the handles that they are of.
pub proof fn law_scores_match(x: Option<RingHit>, y: Option<RingHit>, z: Option<RingHit>, h: HandleHits, i: int)
    ensures
        ring_axes().len() == 3 && ring_scores(x, y, z).len() == 3,
        ring_axes()[0] == GizmoAxis::X && ring_axes()[1] == GizmoAxis::Y && ring_axes()[2] == GizmoAxis::Z,
        ring_scores(x, y, z)[0] == ring_score(x) && ring_scores(x, y, z)[1] == ring_score(y) && ring_scores(
            x,
            y,
            z,
        )[2] == ring_score(z),
        handle_axes().len() == 6 && handle_scores(h).len() == 6,
        0 <= i < 6 && handle_axes()[i] == GizmoAxis::X ==> handle_scores(h)[i] == arrow_score(h.x, h.reach),
        0 <= i < 6 && handle_axes()[i] == GizmoAxis::Y ==> handle_scores(h)[i] == arrow_score(h.y, h.reach),
        0 <= i < 6 && handle_axes()[i] == GizmoAxis::Z ==> handle_scores(h)[i] == arrow_score(h.z, h.reach),
        0 <= i < 6 && handle_axes()[i] == GizmoAxis::Xy ==> handle_scores(h)[i] == h.xy,
        0 <= i < 6 && handle_axes()[i] == GizmoAxis::Yz ==> handle_scores(h)[i] == h.yz,
        0 <= i < 6 && handle_axes()[i] == GizmoAxis::Zx ==> handle_scores(h)[i] == h.zx,
        0 <= i < 6 ==> handle_axes()[i] != GizmoAxis::Uniform,
{
}

/// An arrow moves along its own axis; a square moves along its two axes, across
/// the third.
pub proof fn law_frame_axes(axis: GizmoAxis)
    ensures
        axis == GizmoAxis::X ==> frame_of(axis)->0.along == Side::X && frame_of(axis)->0.also is None,
        axis == GizmoAxis::Y ==> frame_of(axis)->0.along == Side::Y && frame_of(axis)->0.also is None,
        axis == GizmoAxis::Z ==> frame_of(axis)->0.along == Side::Z && frame_of(axis)->0.also is None,
        axis == GizmoAxis::Xy ==> frame_of(axis)->0.along == Side::X && frame_of(axis)->0.also == Some(Side::Y)
            && frame_of(axis)->0.normal == Side::Z,
        axis == GizmoAxis::Yz ==> frame_of(axis)->0.along == Side::Y && frame_of(axis)->0.also == Some(Side::Z)
            && frame_of(axis)->0.normal == Side::X,
        axis == GizmoAxis::Zx ==> frame_of(axis)->0.along == Side::Z && frame_of(axis)->0.also == Some(Side::X)
            && frame_of(axis)->0.normal == Side::Y,
        axis != GizmoAxis::Uniform ==> frame_of(axis) is Some && frame_of(axis)->0.u != frame_of(axis)->0.v
            && frame_of(axis)->0.u != frame_of(axis)->0.normal && frame_of(axis)->0.v != frame_of(axis)->0.normal,
        axis == GizmoAxis::Uniform ==> frame_of(axis) is None,
        side_of(GizmoAxis::X) == Side::X && side_of(GizmoAxis::Y) == Side::Y && side_of(GizmoAxis::Z) == Side::Z,
{
}

/// A drag takes the roots of the selection that have nodes, or the bone itself
/// where there are no roots.
pub proof fn law_taken(nodes: Seq<NodeView>, bone: BoneId, roots: Seq<BoneId>, x: BoneId)
    ensures
        roots.len() > 0 ==> (taken_bones(nodes, bone, roots).contains(x) <==> roots.contains(x) && has_node(
            nodes,
            x.node,
        )),
        roots.len() == 0 ==> (taken_bones(nodes, bone, roots).contains(x) <==> x == bone && has_node(
            nodes,
            bone.node,
        )),
{
    lemma_filter_contains(asked_bones(bone, roots), |id: BoneId| has_node(nodes, id.node), x);
    if roots.len() == 0 {
        let s = asked_bones(bone, roots);
        assert(s[0] == bone);
        assert(s.contains(x) <==> x == bone);
    }
}

/// The handle that is held is lit; without one, the handle that is pointed at.
pub proof fn law_highlight(held: Option<GizmoAxis>, hover: Option<GizmoAxis>)
    ensures
        held is Some ==> highlight_of(held, hover) == held,
        held is None ==> highlight_of(held, hover) == hover,
{
}

/// Views are named by sign and letter, and the positive ones are those with a
/// plus.
pub proof fn law_view_names(a: ViewAxis, b: ViewAxis)
    ensures
        a.view_text() == b.view_text() ==> a == b,
        a.positive() <==> a.view_text()[0] == '+',
        a.view_text().len() == 2,
{
    reveal_strlit("+X");
    reveal_strlit("-X");
    reveal_strlit("+Y");
    reveal_strlit("-Y");
    reveal_strlit("+Z");
    reveal_strlit("-Z");
    let s = a.view_text();
    let t = b.view_text();
    if s == t {
        assert(s[0] == t[0] && s[1] == t[1]);
    }
}

/// The mode can always be switched, a tool in its own mode, the way of moving
/// where bones are moved in Pose, the space where bones are turned or moved.
pub proof fn law_switches_shown(r: RigView)
    ensures
        shows(r, Toggle::Mode),
        shows(r, Toggle::EditTool) <==> r.mode == AppMode::Edit,
        shows(r, Toggle::PoseTool) <==> r.mode == AppMode::Pose,
        shows(r, Toggle::ShapeTool) <==> r.mode == AppMode::Shape,
        shows(r, Toggle::Move) <==> r.mode == AppMode::Pose && r.tool == Tool::Translate,
        r.mode == AppMode::Shape ==> !shows(r, Toggle::Space),
        r.mode != AppMode::Shape && (r.tool == Tool::Translate || r.tool == Tool::Rotate) ==> shows(
            r,
            Toggle::Space,
        ),
        r.tool == Tool::Select || r.tool == Tool::AddBone ==> !shows(r, Toggle::Space),
{
}

/// Choosing a name of a switch brings what it names.
pub proof fn law_switch_names(a: AppView, t: Toggle, i: int)
    requires
        0 <= i < options_of(t).len(),
    ensures
        ({
            let b = switched(a, t, i);
            let s = options_of(t)[i];
            &&& t == Toggle::Mode && s == "Edit"@ ==> b.rig.mode == AppMode::Edit
            &&& t == Toggle::Mode && s == "Pose"@ ==> b.rig.mode == AppMode::Pose
            &&& t == Toggle::Mode && s == "Shape"@ ==> b.rig.mode == AppMode::Shape
            &&& (t == Toggle::EditTool || t == Toggle::PoseTool) && s == "Select"@ ==> b.rig.tool == Tool::Select
            &&& (t == Toggle::EditTool || t == Toggle::PoseTool) && s == "Move"@ ==> b.rig.tool == Tool::Translate
            &&& (t == Toggle::EditTool || t == Toggle::PoseTool) && s == "Rotate"@ ==> b.rig.tool == Tool::Rotate
            &&& t == Toggle::EditTool && s == "Add"@ ==> b.rig.tool == Tool::AddBone
            &&& t == Toggle::PoseTool && s == "Grab"@ ==> b.rig.tool == Tool::SoftGrab
            &&& t == Toggle::Move && s == "FK"@ ==> b.rig.move_mode == MoveMode::Fk
            &&& t == Toggle::Move && s == "IK"@ ==> b.rig.move_mode == MoveMode::AutoIk
            &&& t == Toggle::Move && s == "Soft"@ ==> b.rig.move_mode == MoveMode::Verlet
            &&& t == Toggle::ShapeTool && s == "Select"@ ==> b.rig.tool == Tool::Select && b.rig.brush_kind
                == a.rig.brush_kind
            &&& t == Toggle::ShapeTool && s == "Grab"@ ==> b.rig.tool == Tool::Brush && b.rig.brush_kind
                == BrushKind::Grab
            &&& t == Toggle::ShapeTool && s == "Inflate"@ ==> b.rig.tool == Tool::Brush && b.rig.brush_kind
                == BrushKind::Inflate
            &&& t == Toggle::ShapeTool && s == "Smooth"@ ==> b.rig.tool == Tool::Brush && b.rig.brush_kind
                == BrushKind::Smooth
            &&& t == Toggle::Space && s == "Local"@ ==> b.rig.transform_space == TransformSpace::Local
            &&& t == Toggle::Space && s == "World"@ ==> b.rig.transform_space == TransformSpace::World
            &&& b.drag is None
            &&& t != Toggle::Mode ==> b.rig.mode == a.rig.mode && b.rig.bones == a.rig.bones && b.scene == a.scene
                && b.rig.selection == a.rig.selection
        }),
{
    lemma_switch_texts();
}

/// The names on one switch differ.
proof fn lemma_switch_texts()
    ensures
        "Edit"@ != "Pose"@ && "Edit"@ != "Shape"@ && "Pose"@ != "Shape"@,
        "Select"@ != "Move"@ && "Select"@ != "Rotate"@ && "Select"@ != "Add"@ && "Select"@ != "Grab"@,
        "Move"@ != "Rotate"@ && "Move"@ != "Add"@ && "Move"@ != "Grab"@,
        "Rotate"@ != "Add"@ && "Rotate"@ != "Grab"@,
        "FK"@ != "IK"@ && "FK"@ != "Soft"@ && "IK"@ != "Soft"@,
        "Select"@ != "Inflate"@ && "Select"@ != "Smooth"@ && "Grab"@ != "Inflate"@ && "Grab"@ != "Smooth"@
            && "Inflate"@ != "Smooth"@,
        "Local"@ != "World"@,
{
    reveal_strlit("Edit");
    reveal_strlit("Pose");
    reveal_strlit("Shape");
    reveal_strlit("Select");
    reveal_strlit("Move");
    reveal_strlit("Rotate");
    reveal_strlit("Add");
    reveal_strlit("Grab");
    reveal_strlit("FK");
    reveal_strlit("IK");
    reveal_strlit("Soft");
    reveal_strlit("Inflate");
    reveal_strlit("Smooth");
    reveal_strlit("Local");
    reveal_strlit("World");
    assert("Edit"@[0] == 'E' && "Pose"@[0] == 'P' && "Shape"@[0] == 'S');
    assert("Select"@[0] == 'S' && "Move"@[0] == 'M' && "Rotate"@[0] == 'R' && "Add"@[0] == 'A' && "Grab"@[0] == 'G');
    assert("FK"@[0] == 'F' && "IK"@[0] == 'I' && "Soft"@[0] == 'S');
    assert("Inflate"@[0] == 'I' && "Smooth"@[1] == 'm' && "Select"@[1] == 'e');
    assert("Local"@[0] == 'L' && "World"@[0] == 'W');
}

/// What a switch shows as chosen is what is so.
pub proof fn law_option_on(r: RigView)
    ensures
        options_of(Toggle::Mode)[option_on(r, Toggle::Mode)] == (match r.mode {
            AppMode::Edit => "Edit"@,
            AppMode::Pose => "Pose"@,
            AppMode::Shape => "Shape"@,
        }),
        r.tool == Tool::Rotate ==> options_of(Toggle::EditTool)[option_on(r, Toggle::EditTool)] == "Rotate"@
            && options_of(Toggle::PoseTool)[option_on(r, Toggle::PoseTool)] == "Rotate"@,
        r.tool == Tool::Translate ==> options_of(Toggle::EditTool)[option_on(r, Toggle::EditTool)] == "Move"@
            && options_of(Toggle::PoseTool)[option_on(r, Toggle::PoseTool)] == "Move"@,
        r.tool == Tool::AddBone ==> options_of(Toggle::EditTool)[option_on(r, Toggle::EditTool)] == "Add"@,
        r.tool == Tool::SoftGrab ==> options_of(Toggle::PoseTool)[option_on(r, Toggle::PoseTool)] == "Grab"@,
        r.tool == Tool::Select ==> options_of(Toggle::EditTool)[option_on(r, Toggle::EditTool)] == "Select"@,
        options_of(Toggle::Move)[option_on(r, Toggle::Move)] == (match r.move_mode {
            MoveMode::Fk => "FK"@,
            MoveMode::AutoIk => "IK"@,
            MoveMode::Verlet => "Soft"@,
        }),
        r.tool == Tool::Brush ==> options_of(Toggle::ShapeTool)[option_on(r, Toggle::ShapeTool)] == (
        match r.brush_kind {
            BrushKind::Grab => "Grab"@,
            BrushKind::Inflate => "Inflate"@,
            BrushKind::Smooth => "Smooth"@,
        }),
        r.tool != Tool::Brush ==> options_of(Toggle::ShapeTool)[option_on(r, Toggle::ShapeTool)] == "Select"@,
        options_of(Toggle::Space)[option_on(r, Toggle::Space)] == (match r.transform_space {
            TransformSpace::Local => "Local"@,
            TransformSpace::World => "World"@,
        }),
{
}

} // verus!
