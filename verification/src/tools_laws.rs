//! What holds of the viewport tools as a whole.

use vstd::prelude::*;
use crate::bones::BoneId;
use crate::rig::{AppMode, RigView, Tool};
use crate::scene::{has_node, node_get};
use crate::session::{AppView, DragView};
use crate::tools::{boxed, let_up, pressing, tools_started, Ask, ToolFrame};

verus! {

broadcast use crate::scene::lemma_key_injective;

/// The same drag goes on, a marquee perhaps to another corner.
pub open spec fn same_drag(a: Option<DragView>, b: Option<DragView>) -> bool {
    match (a, b) {
        (
            Some(DragView::Marquee { start, additive, .. }),
            Some(DragView::Marquee { start: s, additive: d, .. }),
        ) => start == s && additive == d,
        _ => a == b,
    }
}

/// Once the button is up nothing is dragged any more, unless it went down again
/// in the same frame.
pub proof fn law_release_ends_drag(a: AppView, f: ToolFrame)
    requires
        f.pointer.released,
        !f.pointer.pressed,
    ensures
        tools_started(a, f).0.drag is None,
{
}

/// Until the button is up, whatever is dragged stays what is dragged, and no
/// second drag begins.
pub proof fn law_one_drag(a: AppView, f: ToolFrame)
    requires
        a.drag is Some,
        !f.pointer.released,
    ensures
        same_drag(a.drag, tools_started(a, f).0.drag),
        tools_started(a, f).0.rig == a.rig,
        tools_started(a, f).0.scene == a.scene,
{
}

/// A frame without a press of its own in the viewport changes nothing but the
/// highlighted gizmo handle.
pub proof fn law_idle_frame(a: AppView, f: ToolFrame)
    requires
        a.drag is None,
        !f.pointer.pressed || f.ui_wants_mouse || !f.over,
    ensures
        tools_started(a, f).0 == (AppView { gizmo_hover: None, ..a }),
        tools_started(a, f).1 == Ask::Done || tools_started(a, f).1 == Ask::HoverRotate
            || tools_started(a, f).1 == Ask::HoverTranslate,
        pressing(a, f) == (a, Ask::Done),
{
}

/// In Shape mode a frame never touches the bones or their selection, and never
/// asks for anything that would.
pub proof fn law_shape_spares_bones(a: AppView, f: ToolFrame)
    requires
        a.rig.mode == AppMode::Shape,
        a.drag is None,
    ensures
        tools_started(a, f).0.rig == a.rig,
        tools_started(a, f).0.scene == a.scene,
        tools_started(a, f).1 is Done || tools_started(a, f).1 is PickMesh || tools_started(
            a,
            f,
        ).1 is BeginStroke,
{
}

/// Letting go in Edit binds exactly the bones that were dragged, where they are.
pub proof fn law_edit_commits(a: AppView, bone: BoneId)
    requires
        a.rig.mode == AppMode::Edit,
        a.drag matches Some(d) && (d is Rotate || d is Translate),
    ensures
        ({
            let bones = match a.drag {
                Some(DragView::Rotate { bones, .. }) => bones,
                Some(DragView::Translate { bones, .. }) => bones,
                _ => Seq::empty(),
            };
            let k = bone.node.key_of();
            let b = let_up(a).rig.bind_locals;
            if bones.contains(bone) && has_node(a.scene.nodes, bone.node) {
                b.contains_key(k) && b[k] == (node_get(a.scene.nodes, bone.node)->0).local
            } else {
                b.contains_key(k) == a.rig.bind_locals.contains_key(k) && (b.contains_key(k)
                    ==> b[k] == a.rig.bind_locals[k])
            }
        }),
{
    crate::scene::lemma_key_handle(bone.node.key_of(), bone.node);
}

/// Letting go in any other mode leaves the bind pose alone.
pub proof fn law_pose_keeps_binds(a: AppView)
    requires
        a.rig.mode != AppMode::Edit,
    ensures
        let_up(a).rig.bind_locals == a.rig.bind_locals,
{
}

/// An additive marquee never loses a selected bone.
pub proof fn law_marquee_adds(r: RigView, ids: Seq<BoneId>, id: BoneId)
    requires
        r.selected.contains(id),
    ensures
        boxed(r, ids, true).selected.contains(id),
{
}

/// Bones are grown by the add tool alone.
pub proof fn law_only_add_grows(a: AppView, f: ToolFrame)
    ensures
        tools_started(a, f).1 is Extrude || tools_started(a, f).1 is Ground ==> a.rig.tool
            == Tool::AddBone && a.rig.mode != AppMode::Shape,
{
}

} // verus!
