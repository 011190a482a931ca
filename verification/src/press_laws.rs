//! What the viewport tools ask for, and what letting go, clicking and moving do.

use vstd::prelude::*;
use crate::bones::{has_bone, BoneId};
use crate::geom::{Scalar, Transform};
use crate::order::less_than;
use crate::pull_laws::handles_apart;
use crate::rig::{AppMode, BrushKind, MoveMode, RigView, Tool};
use crate::scene::{key_handle, lemma_key_handle, node_at, node_get, NodeHandle, NodeView};
use crate::session::{
    app_in_mode, inspecting, mode_status, placed_by_hand, selection_status, session_reset, AppView, DragView,
};
use crate::tools::{
    axis_of, bone_clicked, boxed, committed, drag_ask, dragged_bone, going_on, grown, let_up,
    moved_nodes, nothing_clicked, pressing, stroke_status, to_raise, toggled, tools_started, Ask,
    ShapeRef, ToolFrame,
};

verus! {

/// The button went down over the viewport, and the widgets do not want it.
pub open spec fn pressed_in_view(f: ToolFrame) -> bool {
    f.pointer.pressed && f.over && !f.ui_wants_mouse
}

/// A press that the viewport does not get does nothing.
pub proof fn law_press_elsewhere(a: AppView, f: ToolFrame)
    requires
        !pressed_in_view(f),
    ensures
        pressing(a, f) == (a, Ask::Done),
{
}

/// Outside Shape, with a bone selected, pressing takes hold of the bone: turning
/// with Rotate, and with Translate moving; in Pose moving pulls the chain where
/// that is how bones are moved.
pub proof fn law_press_bone(a: AppView, f: ToolFrame)
    requires
        pressed_in_view(f),
        a.rig.mode != AppMode::Shape,
        a.rig.selection is Some,
    ensures
        pressing(a, f).0 == a || a.rig.tool == Tool::Select || a.rig.tool == Tool::Brush || a.rig.tool == Tool::SoftGrab,
        a.rig.tool == Tool::Rotate ==> pressing(a, f).1 == Ask::BeginRotate,
        a.rig.tool == Tool::Translate && a.rig.mode == AppMode::Edit ==> pressing(a, f).1 == Ask::BeginTranslate,
        a.rig.tool == Tool::Translate && a.rig.mode == AppMode::Pose ==> pressing(a, f).1 == (
        match a.rig.move_mode {
            MoveMode::Fk => Ask::BeginTranslate,
            MoveMode::AutoIk => Ask::BeginIk,
            MoveMode::Verlet => Ask::BeginVerlet,
        }),
        a.rig.tool == Tool::AddBone ==> pressing(a, f).1 == (Ask::Extrude { parent: a.rig.selection->0 }),
{
}

/// Without a selection a bone is added on the ground, and every other tool picks
/// a bone or, with Ctrl, begins an additive marquee where the pointer is.
pub proof fn law_press_without_bone(a: AppView, f: ToolFrame)
    requires
        pressed_in_view(f),
        a.rig.mode != AppMode::Shape,
        a.rig.selection is None,
        !(a.rig.mode == AppMode::Pose && a.rig.tool == Tool::SoftGrab),
    ensures
        a.rig.tool == Tool::AddBone ==> pressing(a, f) == (a, Ask::Ground),
        a.rig.tool != Tool::AddBone && !f.pointer.ctrl ==> pressing(a, f) == (a, Ask::PickBone),
        a.rig.tool != Tool::AddBone && f.pointer.ctrl ==> {
            let (b, ask) = pressing(a, f);
            &&& ask == Ask::Done
            &&& b.drag == Some(
                DragView::Marquee { start: f.pointer.pos, current: f.pointer.pos, additive: true },
            )
            &&& b.rig == a.rig && b.scene == a.scene
        },
{
}

/// In Pose the grab tool takes hold of soft chains, whatever is selected.
pub proof fn law_press_grab(a: AppView, f: ToolFrame)
    requires
        pressed_in_view(f),
        a.rig.mode == AppMode::Pose,
        a.rig.tool == Tool::SoftGrab,
    ensures
        pressing(a, f) == (a, Ask::BeginGrab),
{
}

/// In Shape the brush begins a stroke where a shape key is active, and tells to
/// make one where none is; any other tool picks a mesh.
pub proof fn law_press_shape(a: AppView, f: ToolFrame)
    requires
        pressed_in_view(f),
        a.rig.mode == AppMode::Shape,
    ensures
        a.rig.tool != Tool::Brush ==> pressing(a, f) == (a, Ask::PickMesh),
        a.rig.tool == Tool::Brush && a.rig.active_shape is Some ==> pressing(a, f).1 is BeginStroke
            && pressing(a, f).0 == a,
        a.rig.tool == Tool::Brush && a.rig.active_shape is None ==> pressing(a, f).1 == Ask::Done && pressing(
            a,
            f,
        ).0.rig == a.rig && pressing(a, f).0.scene == a.scene && pressing(a, f).0.status
            == "Create / select a shape key first"@,
{
}

/// A stroke raises its shape key first where that has less than a twentieth of
/// its weight, so that the work can be seen.
pub proof fn law_raise(a: AppView, i: int)
    requires
        forall|x: int, y: int|
            0 <= x < y < a.scene.meshes.len() ==> (#[trigger] a.scene.meshes[x]).handle != (
            #[trigger] a.scene.meshes[y]).handle,
        0 <= i < a.scene.meshes.len(),
        a.rig.active_mesh == Some(a.scene.meshes[i].handle),
        a.rig.active_shape is Some,
    ensures
        ({
            let k = a.rig.active_shape->0;
            let m = a.scene.meshes[i];
            let w = if k < m.morph_weights.len() {
                m.morph_weights[k as int]
            } else {
                Scalar { bits: 0 }
            };
            &&& less_than(w, Scalar { bits: 0x3D4C_CCCD }) ==> to_raise(a) == Some(
                ShapeRef { mesh: m.handle, index: k },
            )
            &&& !less_than(w, Scalar { bits: 0x3D4C_CCCD }) ==> to_raise(a) is None
        }),
{
    let k = a.rig.active_shape->0;
    let h = a.rig.active_mesh->0;
    if exists|j: int| 0 <= j < a.scene.meshes.len() && crate::tools::faint(#[trigger] a.scene.meshes[j], h, k) {
        let j = choose|j: int|
            0 <= j < a.scene.meshes.len() && crate::tools::faint(#[trigger] a.scene.meshes[j], h, k);
        assert(j == i) by {
            if j < i {
                assert(a.scene.meshes[j].handle != a.scene.meshes[i].handle);
            } else if i < j {
                assert(a.scene.meshes[i].handle != a.scene.meshes[j].handle);
            }
        }
    }
    if less_than(crate::tools::weight_of(a.scene.meshes[i], k), Scalar { bits: 0x3D4C_CCCD }) {
        assert(crate::tools::faint(a.scene.meshes[i], h, k));
    }
}

/// While the button is down, a drag goes on as what it began as; a stroke works
/// inwards while Ctrl is held. Once it is up nothing more is asked for.
pub proof fn law_drag_goes_on(a: AppView, f: ToolFrame, d: DragView)
    requires
        a.drag == Some(d),
        !(d is Marquee),
    ensures
        !f.pointer.down ==> going_on(a, f).1 == Ask::Done,
        f.pointer.down && d is Rotate ==> going_on(a, f).1 == Ask::DragRotate,
        f.pointer.down && d is Translate ==> going_on(a, f).1 == Ask::DragTranslate,
        f.pointer.down && d is IkPull ==> going_on(a, f).1 == Ask::DragIk,
        f.pointer.down && d is Verlet ==> going_on(a, f).1 == Ask::DragVerlet,
        f.pointer.down && d is SoftGrab ==> going_on(a, f).1 == Ask::DragSoft,
        f.pointer.down && d is Sculpt ==> going_on(a, f).1 == (Ask::Stroke { invert: f.pointer.ctrl }),
        going_on(a, f).0.drag == a.drag && going_on(a, f).0.rig == a.rig && going_on(a, f).0.scene == a.scene,
        d is Rotate ==> going_on(a, f).0.gizmo_hover == Some(d->Rotate_axis),
        d is Translate ==> going_on(a, f).0.gizmo_hover == Some(d->Translate_axis),
{
}

/// A marquee keeps the corner it began at and follows the pointer with the other.
pub proof fn law_marquee_follows(a: AppView, f: ToolFrame)
    requires
        a.drag is Some,
        a.drag->0 is Marquee,
    ensures
        ({
            let d = a.drag->0;
            let (b, ask) = going_on(a, f);
            &&& ask == Ask::Done && b.rig == a.rig && b.scene == a.scene
            &&& b.drag is Some && b.drag->0 is Marquee
            &&& b.drag->0->start == d->start && b.drag->0->additive == d->additive
            &&& f.pointer.down ==> b.drag->0->current == f.pointer.pos
            &&& !f.pointer.down ==> b.drag->0->current == d->current
        }),
{
}

/// Letting go of a marquee asks what it held, from corner to corner.
pub proof fn law_marquee_ends(a: AppView, f: ToolFrame)
    requires
        f.pointer.released,
        a.drag is Some,
        a.drag->0 is Marquee,
    ensures
        ({
            let d = a.drag->0;
            let (b, ask) = tools_started(a, f);
            &&& ask == (Ask::FinishMarquee { start: d->start, current: d->current, additive: d->additive })
            &&& b.drag is None && b.edit_bone is None && b.rig == a.rig && b.scene == a.scene
        }),
{
}

/// With nothing dragged, pointing at a gizmo looks for the handle under the
/// pointer: rings for Rotate, arrows for Translate, outside Shape and where a
/// bone is selected.
pub proof fn law_hover(a: AppView, f: ToolFrame)
    requires
        a.drag is None,
        f.over,
        a.rig.selection is Some,
        a.rig.mode != AppMode::Shape,
    ensures
        a.rig.tool == Tool::Rotate ==> going_on(a, f).1 == Ask::HoverRotate,
        a.rig.tool == Tool::Translate ==> going_on(a, f).1 == Ask::HoverTranslate,
        going_on(a, f).0.gizmo_hover is None,
{
}

/// Binding what was dragged binds the dragged bones to where their nodes are,
/// and leaves all other bind transforms.
pub proof fn law_committed(
    binds: Map<u64, Transform>,
    nodes: Seq<NodeView>,
    bones: Seq<BoneId>,
    i: int,
    k: u64,
)
    requires
        handles_apart(nodes),
    ensures
        0 <= i < nodes.len() && bones.contains(BoneId { node: nodes[i].handle }) ==> {
            let out = committed(binds, nodes, bones);
            out.contains_key(nodes[i].handle.key_of()) && out[nodes[i].handle.key_of()] == nodes[i].local
        },
        !bones.contains(BoneId { node: key_handle(k) }) ==> {
            let out = committed(binds, nodes, bones);
            (out.contains_key(k) <==> binds.contains_key(k)) && (binds.contains_key(k) ==> out[k] == binds[k])
        },
{
    if 0 <= i < nodes.len() {
        let h = nodes[i].handle;
        lemma_key_handle(h.key_of(), h);
        assert(node_at(nodes, h, i));
        let j = choose|j: int| node_at(nodes, h, j);
        assert(j == i) by {
            if j < i {
                assert(nodes[j].handle != nodes[i].handle);
            } else if i < j {
                assert(nodes[i].handle != nodes[j].handle);
            }
        }
    }
}

/// Letting go ends the drag. In Edit what was turned or moved is bound where it
/// is now; in Pose the bind pose stays. The scene stays as it is.
pub proof fn law_let_up(a: AppView)
    ensures
        let_up(a).drag is None,
        let_up(a).scene == a.scene,
        let_up(a).rig.bones == a.rig.bones,
        a.rig.mode != AppMode::Edit ==> let_up(a).rig.bind_locals == a.rig.bind_locals,
        a.rig.mode == AppMode::Edit && a.drag is Some && a.drag->0 is Rotate ==> let_up(a).rig.bind_locals
            == committed(a.rig.bind_locals, a.scene.nodes, a.drag->0->Rotate_bones),
        a.rig.mode == AppMode::Edit && a.drag is Some && a.drag->0 is Translate ==> let_up(a).rig.bind_locals
            == committed(a.rig.bind_locals, a.scene.nodes, a.drag->0->Translate_bones),
        a.drag is Some && a.drag->0 is SoftGrab ==> let_up(a).rig.soft_chains
            == crate::soft_sim::grab_released(a.rig.soft_chains, a.drag->0->chain_id),
        !(a.drag is Some && a.drag->0 is SoftGrab) ==> let_up(a).rig.soft_chains == a.rig.soft_chains,
{
}

/// The bone and the handle of a drag are those it was begun with.
pub proof fn law_dragged(d: DragView)
    ensures
        d is Rotate ==> dragged_bone(d) == Some(d->Rotate_bone) && axis_of(d) == Some(d->Rotate_axis),
        d is Translate ==> dragged_bone(d) == Some(d->Translate_bone) && axis_of(d) == Some(d->Translate_axis),
        d is IkPull ==> dragged_bone(d) == Some(d->IkPull_bone) && axis_of(d) == Some(d->IkPull_axis),
        d is Verlet ==> dragged_bone(d) == Some(d->Verlet_bone) && axis_of(d) == Some(d->Verlet_axis),
        d is Sculpt || d is SoftGrab || d is Marquee ==> dragged_bone(d) is None && axis_of(d) is None,
        d is Sculpt ==> drag_ask(d, true) == (Ask::Stroke { invert: true }) && drag_ask(d, false) == (Ask::Stroke {
            invert: false,
        }),
{
}

/// Moving nodes puts each where it was last told to be, and leaves the others.
pub proof fn law_moved(nodes: Seq<NodeView>, to: Seq<(NodeHandle, Transform)>, i: int, k: int)
    requires
        0 <= i < nodes.len(),
    ensures
        moved_nodes(nodes, to).len() == nodes.len(),
        moved_nodes(nodes, to)[i] == (NodeView { local: moved_nodes(nodes, to)[i].local, ..nodes[i] }),
        0 <= k < to.len() && to[k].0 == nodes[i].handle && (forall|j: int|
            k < j < to.len() ==> (#[trigger] to[j]).0 != nodes[i].handle) ==> moved_nodes(nodes, to)[i].local
            == to[k].1,
        (forall|j: int| 0 <= j < to.len() ==> (#[trigger] to[j]).0 != nodes[i].handle) ==> moved_nodes(nodes, to)[i]
            == nodes[i],
    decreases to.len(),
{
    if to.len() > 0 {
        let t = to.drop_last();
        law_moved(nodes, t, i, k);
        assert(forall|j: int| 0 <= j < t.len() ==> #[trigger] t[j] == to[j]);
        let last = to[to.len() - 1];
        if 0 <= k < to.len() - 1 && to[k].0 == nodes[i].handle && forall|j: int|
            k < j < to.len() ==> (#[trigger] to[j]).0 != nodes[i].handle {
            assert(to[to.len() - 1].0 != nodes[i].handle);
        }
    }
}

/// Clicking a bone selects it and nothing else; clicking nothing clears the
/// selection. Nothing but the selection changes in the document, and nothing in
/// the scene.
pub proof fn law_clicked(a: AppView, id: BoneId)
    ensures
        ({
            let b = bone_clicked(a, id);
            let c = nothing_clicked(a);
            &&& b.rig.selection == Some(id) && b.rig.selected == Set::<BoneId>::empty().insert(id)
            &&& c.rig.selection is None && c.rig.selected == Set::<BoneId>::empty()
            &&& b.rig.bones == a.rig.bones && b.rig.bind_locals == a.rig.bind_locals && b.scene == a.scene
            &&& c.rig.bones == a.rig.bones && c.rig.bind_locals == a.rig.bind_locals && c.scene == a.scene
            &&& b.edit_bone is None && c.edit_bone is None
            &&& b.status == selection_status(b.rig) && c.status == selection_status(c.rig)
        }),
{
}

/// Toggling a bone that is not selected selects it, too, and makes it active;
/// toggling one that is takes it out, and another becomes active where it was.
pub proof fn law_toggled(a: RigView, b: RigView, id: BoneId, x: BoneId)
    requires
        toggled(a, b, id),
    ensures
        a.selected.contains(id) <==> !b.selected.contains(id),
        x != id ==> (a.selected.contains(x) <==> b.selected.contains(x)),
        !a.selected.contains(id) ==> b.selection == Some(id),
        a.selected.contains(id) && a.selection != Some(id) ==> b.selection == a.selection,
        a.selected.contains(id) && a.selection == Some(id) ==> b.selection != Some(id),
        a.selected.contains(id) && a.selection == Some(id) && b.selection is Some ==> b.selected.contains(
            b.selection->0,
        ),
{
}

/// A marquee selects what it holds, and what was selected where it adds; the
/// last bone it holds becomes active.
pub proof fn law_boxed(r: RigView, ids: Seq<BoneId>, additive: bool, x: BoneId)
    ensures
        boxed(r, ids, additive).selected.contains(x) <==> ids.contains(x) || (additive && r.selected.contains(x)),
        ids.len() > 0 ==> boxed(r, ids, additive).selection == Some(ids.last()),
        ids.len() == 0 && additive ==> boxed(r, ids, additive).selection == r.selection,
        ids.len() == 0 && !additive ==> boxed(r, ids, additive).selection is None,
        boxed(r, ids, additive).bones == r.bones,
{
}

/// Growing a bone makes a bone and a node of the same name under the same parent,
/// and leaves the other nodes.
pub proof fn law_grown(
    a: AppView,
    parent: Option<BoneId>,
    node: NodeHandle,
    local: Transform,
    status: Seq<char>,
)
    ensures
        ({
            let b = grown(a, parent, node, local, status);
            let n = b.scene.nodes.last();
            &&& b.scene.nodes.len() == a.scene.nodes.len() + 1 && b.scene.nodes.drop_last() == a.scene.nodes
            &&& n.handle == node && n.local == local && n.name == b.rig.bones.last().name
            &&& b.rig.bones.last().id.node == node && b.rig.bones.last().parent == parent
            &&& parent matches Some(p) ==> n.parent == Some(p.node)
            &&& parent is None ==> n.parent is None
            &&& b.rig.selection == Some(BoneId { node })
            &&& b.edit_bone is None && b.status == status
        }),
{
    let b = grown(a, parent, node, local, status);
    assert(b.scene.nodes.drop_last() =~= a.scene.nodes);
}

/// The status of a stroke tells the brush apart, and a push in from a push out.
pub proof fn law_stroke_status(kind: BrushKind, ctrl: bool)
    ensures
        kind == BrushKind::Grab ==> stroke_status(kind, ctrl) == "Grab…"@,
        kind == BrushKind::Smooth ==> stroke_status(kind, ctrl) == "Smooth…"@,
        kind == BrushKind::Inflate && ctrl ==> stroke_status(kind, ctrl) == "Deflate…"@,
        kind == BrushKind::Inflate && !ctrl ==> stroke_status(kind, ctrl) == "Inflate…"@,
{
}

/// What is told of a selection: that there is none, the name of the one bone, or
/// how many there are.
pub proof fn law_selection_status(r: RigView, id: BoneId)
    ensures
        r.selected.len() == 0 ==> selection_status(r) == "Selection cleared."@,
        r.selected.len() == 1 && r.selection == Some(id) && has_bone(r.bones, id) ==> selection_status(r)
            == "Selected: "@ + r.bones[crate::bones::bone_pos(r.bones, id)].name,
        r.selected.len() > 1 ==> selection_status(r) == "Selected: "@ + crate::text::decimal_of(r.selected.len())
            + " bones"@,
{
}

/// Inspecting a bone shows where its node is and the angles that were measured;
/// only what the inspector shows changes.
pub proof fn law_inspecting(a: AppView, id: BoneId, euler: crate::geom::Vec3)
    ensures
        node_get(a.scene.nodes, id.node) matches Some(n) ==> {
            let b = inspecting(a, id, euler);
            &&& b.edit_bone == Some(id) && b.edit_euler_deg == euler && b.edit_translation == n.local.translation
            &&& b.rig == a.rig && b.scene == a.scene && b.drag == a.drag
        },
        node_get(a.scene.nodes, id.node) is None ==> inspecting(a, id, euler) == a,
{
}

/// Placing a bone by hand moves its node there and no other; in Edit the bone is
/// bound there, in the other modes the bind pose stays.
pub proof fn law_placed_by_hand(a: AppView, id: BoneId, local: Transform, i: int, k: u64)
    requires
        handles_apart(a.scene.nodes),
        0 <= i < a.scene.nodes.len(),
    ensures
        ({
            let b = placed_by_hand(a, id, local);
            &&& b.scene.nodes.len() == a.scene.nodes.len()
            &&& a.scene.nodes[i].handle == id.node ==> b.scene.nodes[i].local == local
            &&& a.scene.nodes[i].handle != id.node ==> b.scene.nodes[i] == a.scene.nodes[i]
            &&& a.rig.mode == AppMode::Edit && a.scene.nodes[i].handle == id.node ==> b.rig.bind_locals.contains_key(
                id.node.key_of(),
            ) && b.rig.bind_locals[id.node.key_of()] == local
            &&& a.rig.mode != AppMode::Edit ==> b.rig.bind_locals == a.rig.bind_locals
            &&& k != id.node.key_of() && a.rig.bind_locals.contains_key(k) ==> b.rig.bind_locals.contains_key(k)
                && b.rig.bind_locals[k] == a.rig.bind_locals[k]
            &&& b.rig.overlay_dirty && b.rig.bones == a.rig.bones
        }),
{
    let nodes = crate::scene::with_local(a.scene.nodes, id.node, local);
    if a.scene.nodes[i].handle == id.node {
        assert(node_at(nodes, id.node, i));
        let j = choose|j: int| node_at(nodes, id.node, j);
        assert(nodes[j].handle == a.scene.nodes[j].handle);
        assert(nodes[j].local == local);
    }
}

/// Changing modes from the session switches document and scene, and drops what
/// was being dragged or inspected.
pub proof fn law_app_mode(a: AppView, mode: AppMode)
    ensures
        ({
            let b = app_in_mode(a, mode);
            &&& b.rig.mode == mode
            &&& b.rig == crate::rig_pose::mode_set(a.rig, a.scene, mode)
            &&& b.scene == crate::rig_pose::mode_scene(a.rig, a.scene, mode)
            &&& b.drag is None && b.edit_bone is None && b.status == mode_status(mode)
        }),
{
}

/// A session that starts over drags, inspects and edits nothing, and has camera
/// and graphics brought up to date; document, scene and status stay.
pub proof fn law_session_reset(a: AppView)
    ensures
        ({
            let b = session_reset(a);
            &&& b.drag is None && b.gizmo_hover is None && b.edit_bone is None && b.editing_driver is None
            &&& b.driver_spawn_page == 0 && b.resync_camera && b.clear_gpu_cache
            &&& b.rig == a.rig && b.scene == a.scene && b.status == a.status
        }),
{
}

/// Without a drag, nothing is hovered in Shape mode, outside the viewport,
/// without a selection, or with another tool than those for turning and moving:
/// a frame is then looked at for a press.
pub proof fn law_no_hover(a: AppView, f: ToolFrame)
    requires
        a.drag is None,
        a.rig.mode == AppMode::Shape || !f.over || a.rig.selection is None || !(a.rig.tool == Tool::Rotate || a.rig.tool
            == Tool::Translate),
    ensures
        going_on(a, f) == pressing(AppView { gizmo_hover: None, ..a }, f),
{
}

} // verus!
