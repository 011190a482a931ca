//! What switching modes does to the pose, and what a document starts from.

use vstd::prelude::*;
use crate::bones::{has_bone, BoneId, BoneView};
use crate::geom::Transform;
use crate::rig::{AppMode, RigView, SoftView, Tool};
use crate::rig_pose::{
    bone_grown, bone_name, captured, first_bone_local, mode_scene, mode_set, model_cleared,
    no_transform, pose_reset, reposed, shape_mesh, starter_bones, starter_nodes,
};
use crate::scene::{
    first_mesh_of, key_handle, lemma_key_handle, lemma_node_pos, node_at, scene_ok, NodeHandle,
    NodeView, SceneView,
};

verus! {

/// Switching to Edit or to Shape puts every bone that is bound to where it is
/// bound; all other nodes, and what else there is of a node, stay. Switching to
/// Pose leaves all nodes where they are.
pub proof fn law_mode_pose(r: RigView, s: SceneView, mode: AppMode, i: int)
    requires
        r.mode != mode,
        0 <= i < s.nodes.len(),
    ensures
        ({
            let out = mode_scene(r, s, mode);
            let n = s.nodes[i];
            let k = n.handle.key_of();
            let bound = has_bone(r.bones, BoneId { node: n.handle }) && r.bind_locals.contains_key(k);
            &&& out.nodes.len() == s.nodes.len() && out.skins == s.skins && out.meshes == s.meshes
            &&& (mode == AppMode::Edit || mode == AppMode::Shape) && bound ==> out.nodes[i].local
                == r.bind_locals[k] && out.nodes[i] == (NodeView { local: out.nodes[i].local, ..n })
            &&& mode == AppMode::Pose || !bound ==> out.nodes[i] == n
        }),
{
}

/// Switching to Pose binds every bone to where it stands, and forgets all else
/// that was bound.
pub proof fn law_pose_binds(r: RigView, s: SceneView, i: int, k: u64)
    requires
        r.mode != AppMode::Pose,
        scene_ok(s),
    ensures
        0 <= i < s.nodes.len() && has_bone(r.bones, BoneId { node: s.nodes[i].handle }) ==> {
            let b = mode_set(r, s, AppMode::Pose).bind_locals;
            &&& b.contains_key(s.nodes[i].handle.key_of())
            &&& b[s.nodes[i].handle.key_of()] == s.nodes[i].local
        },
        mode_set(r, s, AppMode::Pose).bind_locals.contains_key(k) ==> has_bone(
            r.bones,
            BoneId { node: key_handle(k) },
        ),
{
    if 0 <= i < s.nodes.len() {
        let h = s.nodes[i].handle;
        lemma_key_handle(h.key_of(), h);
        assert(node_at(s.nodes, h, i));
        lemma_node_pos(s, h, i);
    }
}

/// Going to Pose and back, whatever was posed in between, leaves every bone where
/// it stood before.
pub proof fn law_pose_is_undone(r: RigView, s: SceneView, posed: SceneView, r2: RigView, mode: AppMode, i: int)
    requires
        r.mode != AppMode::Pose,
        mode != AppMode::Pose,
        scene_ok(s),
        posed.nodes.len() == s.nodes.len(),
        forall|j: int| 0 <= j < s.nodes.len() ==> (#[trigger] posed.nodes[j]).handle == s.nodes[j].handle,
        r2.mode == AppMode::Pose,
        r2.bones == r.bones,
        r2.bind_locals == mode_set(r, s, AppMode::Pose).bind_locals,
        0 <= i < s.nodes.len(),
        has_bone(r.bones, BoneId { node: s.nodes[i].handle }),
    ensures
        mode_scene(r2, posed, mode).nodes[i].local == s.nodes[i].local,
{
    law_pose_binds(r, s, i, 0);
    assert(posed.nodes[i].handle == s.nodes[i].handle);
    law_mode_pose(r2, posed, mode, i);
}

/// Switching modes changes the mode and the tool, and else only what belongs to
/// it: Pose its bind pose, Edit and Shape start soft motion over and redraw the
/// weights, Shape takes a mesh where none is active.
pub proof fn law_mode_keeps(r: RigView, s: SceneView, mode: AppMode)
    requires
        r.mode != mode,
    ensures
        ({
            let out = mode_set(r, s, mode);
            &&& out.mode == mode
            &&& out.bones == r.bones && out.selected == r.selected && out.selection == r.selection
            &&& out.ik_chains == r.ik_chains && out.colliders == r.colliders && out.drivers == r.drivers
            &&& mode != AppMode::Pose ==> out.bind_locals == r.bind_locals
            &&& mode == AppMode::Pose ==> out.soft_chains == r.soft_chains
            &&& mode != AppMode::Pose ==> out.overlay_dirty && out.soft_chains.len()
                == r.soft_chains.len() && forall|i: int|
                0 <= i < r.soft_chains.len() ==> !(#[trigger] out.soft_chains[i]).initialized
            &&& mode != AppMode::Shape || r.active_mesh is Some ==> out.active_mesh == r.active_mesh
            &&& out.active_shape == r.active_shape && out.brush_kind == r.brush_kind
        }),
{
}

/// In Edit a tool that works there stays in hand, any other gives way to moving;
/// Pose begins with turning, Shape with the brush.
pub proof fn law_mode_tool_kept(r: RigView, s: SceneView, mode: AppMode)
    requires
        r.mode != mode,
    ensures
        mode == AppMode::Edit && (r.tool == Tool::Translate || r.tool == Tool::AddBone || r.tool
            == Tool::Rotate) ==> mode_set(r, s, mode).tool == r.tool,
        mode == AppMode::Edit && !(r.tool == Tool::Translate || r.tool == Tool::AddBone || r.tool
            == Tool::Rotate) ==> mode_set(r, s, mode).tool == Tool::Translate,
        mode == AppMode::Pose ==> mode_set(r, s, mode).tool == Tool::Rotate,
        mode == AppMode::Shape ==> mode_set(r, s, mode).tool == Tool::Brush,
{
}

/// The mesh that is taken where none is active is the one of the first node that
/// carries a mesh; there is none only if no node does.
pub proof fn law_first_mesh(nodes: Seq<NodeView>, i: int)
    ensures
        0 <= i < nodes.len() && nodes[i].mesh is Some && (forall|j: int|
            0 <= j < i ==> (#[trigger] nodes[j]).mesh is None) ==> first_mesh_of(nodes) == nodes[i].mesh,
        (forall|j: int| 0 <= j < nodes.len() ==> (#[trigger] nodes[j]).mesh is None) ==> first_mesh_of(
            nodes,
        ) is None,
    decreases nodes.len(),
{
    if nodes.len() > 0 {
        let t = nodes.skip(1);
        law_first_mesh(t, i - 1);
        assert(forall|j: int| 0 <= j < t.len() ==> #[trigger] t[j] == nodes[j + 1]);
        if i > 0 && i < nodes.len() && forall|j: int| 0 <= j < i ==> (#[trigger] nodes[j]).mesh is None {
            assert(nodes[0].mesh is None);
        }
        if forall|j: int| 0 <= j < nodes.len() ==> (#[trigger] nodes[j]).mesh is None {
            assert(nodes[0].mesh is None);
        }
    }
}

/// Switching to Shape takes a mesh where none is active, and shape keys are made
/// on the active one, or on that.
pub proof fn law_shape_mesh(r: RigView, s: SceneView)
    ensures
        r.mode != AppMode::Shape && r.active_mesh is None ==> mode_set(r, s, AppMode::Shape).active_mesh
            == first_mesh_of(s.nodes),
        r.active_mesh is Some ==> shape_mesh(r, s) == r.active_mesh,
        r.active_mesh is None ==> shape_mesh(r, s) == first_mesh_of(s.nodes),
{
}

/// Resetting the pose puts exactly the bones asked for, where they are bound,
/// to where they are bound.
pub proof fn law_reposed(nodes: Seq<NodeView>, which: Set<BoneId>, binds: Map<u64, Transform>, i: int)
    requires
        0 <= i < nodes.len(),
    ensures
        ({
            let n = nodes[i];
            let out = reposed(nodes, which, binds);
            let hit = which.contains(BoneId { node: n.handle }) && binds.contains_key(n.handle.key_of());
            &&& out.len() == nodes.len()
            &&& hit ==> out[i].local == binds[n.handle.key_of()]
            &&& out[i] == (NodeView { local: out[i].local, ..n })
            &&& !hit ==> out[i] == n
        }),
{
}

/// Resetting the pose starts soft motion over and has the weights drawn anew; the
/// rest of the document stays.
pub proof fn law_pose_reset(r: RigView, i: int)
    ensures
        pose_reset(r) == (RigView {
            soft_chains: pose_reset(r).soft_chains,
            overlay_dirty: true,
            ..r
        }),
        pose_reset(r).soft_chains.len() == r.soft_chains.len(),
        0 <= i < r.soft_chains.len() ==> !pose_reset(r).soft_chains[i].initialized
            && pose_reset(r).soft_chains[i] == (SoftView { initialized: false, ..r.soft_chains[i] }),
{
}

/// What is remembered as bind pose are the bones that have nodes, each where its
/// node is.
pub proof fn law_captured(bs: Seq<BoneView>, s: SceneView, i: int, k: u64)
    requires
        scene_ok(s),
    ensures
        0 <= i < s.nodes.len() && has_bone(bs, BoneId { node: s.nodes[i].handle }) ==> captured(
            bs,
            s.nodes,
        ).contains_key(s.nodes[i].handle.key_of()) && captured(bs, s.nodes)[s.nodes[i].handle.key_of()]
            == s.nodes[i].local,
        captured(bs, s.nodes).contains_key(k) ==> has_bone(bs, BoneId { node: key_handle(k) }) && exists|j: int|
            0 <= j < s.nodes.len() && (#[trigger] s.nodes[j]).handle == key_handle(k),
{
    if 0 <= i < s.nodes.len() {
        let h = s.nodes[i].handle;
        lemma_key_handle(h.key_of(), h);
        assert(node_at(s.nodes, h, i));
        lemma_node_pos(s, h, i);
    }
    if captured(bs, s.nodes).contains_key(k) {
        let j = choose|j: int| node_at(s.nodes, key_handle(k), j);
        assert(s.nodes[j].handle == key_handle(k));
    }
}

/// A bone that is grown gets the default name with the next number, hangs under
/// its parent, is the only one selected, and is bound where it stands.
pub proof fn law_bone_grown(r: RigView, id: BoneId, parent: Option<BoneId>, local: Transform, other: u64)
    requires
        r.next_bone_serial < u32::MAX,
    ensures
        ({
            let out = bone_grown(r, id, parent, local);
            &&& out.bones.len() == r.bones.len() + 1
            &&& out.bones.last().id == id && out.bones.last().parent == parent
            &&& out.bones.last().name == bone_name(r.next_bone_serial)
            &&& out.bones.last().children.len() == 0 && out.bones.last().deform
            &&& out.overlay_dirty
            &&& out.next_bone_serial == r.next_bone_serial + 1
            &&& out.selection == Some(id) && out.selected == Set::<BoneId>::empty().insert(id)
            &&& out.bind_locals.contains_key(id.node.key_of()) && out.bind_locals[id.node.key_of()] == local
            &&& other != id.node.key_of() ==> (out.bind_locals.contains_key(other)
                <==> r.bind_locals.contains_key(other)) && (r.bind_locals.contains_key(other)
                ==> out.bind_locals[other] == r.bind_locals[other])
            &&& out.ik_chains == r.ik_chains && out.soft_chains == r.soft_chains && out.drivers == r.drivers
            &&& out.mode == r.mode && out.tool == r.tool
        }),
{
}

/// Default names of different numbers differ.
pub proof fn law_bone_names(a: u32, b: u32)
    requires
        bone_name(a) == bone_name(b),
    ensures
        a == b,
{
    let p = "Bone_"@.len() as int;
    assert(bone_name(a).skip(p) =~= crate::text::decimal_of(a as nat));
    assert(bone_name(b).skip(p) =~= crate::text::decimal_of(b as nat));
    crate::text::lemma_decimal_injective(a as nat, b as nat);
}

/// A new document has a root and one bone that hangs under it, a little above,
/// and a node for each.
pub proof fn law_starter(root: NodeHandle, tip: NodeHandle)
    requires
        root != tip,
    ensures
        ({
            let bs = starter_bones(BoneId { node: root }, BoneId { node: tip });
            let ns = starter_nodes(root, tip);
            &&& bs.len() == 2 && ns.len() == 2
            &&& bs[0].id.node == root && bs[0].parent is None && bs[0].name == "Root"@
            &&& bs[0].children == seq![BoneId { node: tip }]
            &&& bs[1].id.node == tip && bs[1].parent == Some(BoneId { node: root }) && bs[1].name == "Bone"@
            &&& bs[1].children.len() == 0
            &&& bs[0].deform && bs[1].deform
            &&& ns[0].handle == root && ns[0].parent is None && ns[0].local == no_transform()
            &&& ns[1].handle == tip && ns[1].parent == Some(root) && ns[1].local == first_bone_local()
            &&& ns[0].name == "Root"@ && ns[1].name == "Bone"@
        }),
{
    let bs = starter_bones(BoneId { node: root }, BoneId { node: tip });
    assert(bs[0].children =~= seq![BoneId { node: tip }]);
}

/// Where nothing moves, turns or grows, and where the first bone stands above
/// the root.
pub proof fn law_start_transforms()
    ensures
        ({
            let n = no_transform();
            &&& n.translation.x.bits == 0 && n.translation.y.bits == 0 && n.translation.z.bits == 0
            &&& n.rotation.x.bits == 0 && n.rotation.y.bits == 0 && n.rotation.z.bits == 0
                && n.rotation.w.bits == 0x3F80_0000
            &&& n.scale.x.bits == 0x3F80_0000 && n.scale.y.bits == 0x3F80_0000 && n.scale.z.bits
                == 0x3F80_0000
            &&& first_bone_local().rotation == n.rotation && first_bone_local().scale == n.scale
            &&& first_bone_local().translation.x.bits == 0 && first_bone_local().translation.z.bits == 0
            &&& first_bone_local().translation.y.bits == 0x3EB3_3333
        }),
{
}

/// A document without its model has no bones, nothing selected, bound or driven
/// through chains; the drivers, what is shown, the mode, the tool and the
/// viewport stay.
pub proof fn law_model_cleared(r: RigView)
    ensures
        ({
            let out = model_cleared(r);
            &&& out.bones.len() == 0 && out.selection is None && out.selected == Set::<BoneId>::empty()
            &&& out.bind_locals == Map::<u64, Transform>::empty()
            &&& out.ik_chains.len() == 0 && out.soft_chains.len() == 0 && out.colliders.len() == 0
            &&& out.active_mesh is None && out.active_shape is None
            &&& out.drivers == r.drivers && out.mode == r.mode && out.tool == r.tool
            &&& out.show_skeleton == r.show_skeleton && out.show_mesh == r.show_mesh
                && out.show_colliders == r.show_colliders
            &&& out.viewport_rect == r.viewport_rect
        }),
{
}

} // verus!
