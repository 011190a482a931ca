//! When drivers write what, what writing does to a mesh or a bone, and how a
//! skeleton is read from a scene.

use vstd::prelude::*;
use crate::bones::{ancestor, has_bone, strictly_under, BoneId, BoneView};
use crate::driver::{DriverNodeView, DriverView};
use crate::drivers_panel::needs_pre_ik;
use crate::evaluate::{
    above_chain, all_morphs_written, blend_of, bone_set, driver_after, driver_morphs, in_pass, mesh_written,
    padded, supports_ik, weights_written, written_to, DriverPass,
};
use crate::geom::{Scalar, Transform};
use crate::graph::{preview_of, settled, BoneSetOp, Host, MorphWrite};
use crate::kinds::DriverNodeKind;
use crate::rig::RigView;
use crate::rig_load::{
    bone_label, is_bone_node, is_joint, joint_above, logical_parent, matches_node, no_joints, skeleton_of,
};
use crate::rig_relink::{needs_relink, relinked};
use crate::scene::{has_node, node_get, node_parent, MeshView, NodeHandle, NodeView, SceneView};

verus! {

/// A write comes before IK exactly if the bone is above a bone or the tip of an
/// enabled IK chain; all other writes come after.
pub proof fn law_when(r: RigView, op: BoneSetOp, i: int, k: int, n: nat)
    ensures
        0 <= i < r.ik_chains.len() && r.ik_chains[i].enabled && n >= 1 && ancestor(r.bones, r.ik_chains[i].tip, n)
            == Some(op.bone) ==> in_pass(r, DriverPass::PreIk, op) && !in_pass(r, DriverPass::PostIk, op),
        0 <= i < r.ik_chains.len() && r.ik_chains[i].enabled && 0 <= k < r.ik_chains[i].bones.len() && n >= 1
            && ancestor(r.bones, r.ik_chains[i].bones[k], n) == Some(op.bone) ==> in_pass(
            r,
            DriverPass::PreIk,
            op,
        ) && !in_pass(r, DriverPass::PostIk, op),
        (forall|j: int| 0 <= j < r.ik_chains.len() ==> !(#[trigger] r.ik_chains[j]).enabled) ==> in_pass(
            r,
            DriverPass::PostIk,
            op,
        ) && !in_pass(r, DriverPass::PreIk, op),
        in_pass(r, DriverPass::PreIk, op) ==> exists|j: int|
            0 <= j < r.ik_chains.len() && (#[trigger] r.ik_chains[j]).enabled,
{
    if 0 <= i < r.ik_chains.len() && r.ik_chains[i].enabled {
        let c = r.ik_chains[i];
        if n >= 1 && ancestor(r.bones, c.tip, n) == Some(op.bone) {
            assert(crate::bones::strictly_under(r.bones, op.bone, c.tip));
        }
        if 0 <= k < c.bones.len() && n >= 1 && ancestor(r.bones, c.bones[k], n) == Some(op.bone) {
            assert(crate::bones::strictly_under(r.bones, op.bone, c.bones[k]));
        }
    }
}

/// Before IK bones move 0.55 of the way to where they are driven, after it all
/// the way.
pub proof fn law_blend()
    ensures
        blend_of(DriverPass::PreIk).bits == 0x3F0C_CCCD,
        blend_of(DriverPass::PostIk).bits == 0x3F80_0000,
{
}

/// The shape key writes of a pass are those of the drivers that are on.
pub proof fn law_morphs_written(h: Host, r: RigView, n: nat, w: MorphWrite)
    requires
        n <= r.drivers.len(),
    ensures
        all_morphs_written(h, r, n).contains(w) <==> exists|i: int|
            0 <= i < n && (#[trigger] r.drivers[i]).enabled && driver_morphs(h, r, r.drivers[i]).contains(w),
    decreases n,
{
    if n > 0 {
        law_morphs_written(h, r, (n - 1) as nat, w);
        let before = all_morphs_written(h, r, (n - 1) as nat);
        let own = driver_morphs(h, r, r.drivers[n - 1]);
        let all = before + own;
        if before.contains(w) {
            let k = choose|k: int| 0 <= k < before.len() && before[k] == w;
            assert(all[k] == w);
        }
        if own.contains(w) {
            let k = choose|k: int| 0 <= k < own.len() && own[k] == w;
            assert(all[before.len() + k] == w);
        }
        if all.contains(w) {
            let k = choose|k: int| 0 <= k < all.len() && all[k] == w;
            if k < before.len() {
                assert(before[k] == w);
            } else {
                assert(own[k - before.len()] == w);
            }
        }
    }
}

/// A pass brings what nodes show up to date: of drivers that are on in both
/// passes, of the others in the last one alone. Nothing else of a driver changes.
pub proof fn law_driver_after(h: Host, r: RigView, pass: DriverPass, d: DriverView, i: int)
    requires
        0 <= i < d.nodes.len(),
    ensures
        ({
            let e = driver_after(h, r, pass, d);
            &&& e.nodes.len() == d.nodes.len()
            &&& e.enabled == d.enabled && e.id == d.id && e.name == d.name && e.space == d.space
            &&& d.enabled || pass == DriverPass::PostIk ==> e.nodes[i].preview == preview_of(
                h,
                settled(h, r.bones, d),
                d.nodes[i],
            )
            &&& e.nodes[i] == (DriverNodeView { preview: e.nodes[i].preview, ..d.nodes[i] })
            &&& !d.enabled && pass == DriverPass::PreIk ==> e == d
        }),
{
}

proof fn lemma_weights_kept(m: MeshView, weights: Seq<Scalar>, writes: Seq<MorphWrite>, n: nat, k: int)
    requires
        n <= writes.len(),
        0 <= k < weights.len(),
        forall|j: int| 0 <= j < writes.len() ==> !((#[trigger] writes[j]).mesh == m.handle && writes[j].shape == k),
    ensures
        weights_written(m.handle, weights, writes, n).len() == weights.len(),
        weights_written(m.handle, weights, writes, n)[k] == weights[k],
    decreases n,
{
    if n > 0 {
        lemma_weights_kept(m, weights, writes, (n - 1) as nat, k);
        assert(!(writes[n - 1].mesh == m.handle && writes[n - 1].shape == k));
    }
}

/// A shape key that nobody writes keeps its weight, zero where it had none; a
/// mesh that nobody writes stays as it is, and writing changes weights alone.
pub proof fn law_unwritten(m: MeshView, writes: Seq<MorphWrite>, k: int)
    ensures
        (forall|j: int| 0 <= j < writes.len() ==> (#[trigger] writes[j]).mesh != m.handle) ==> mesh_written(m, writes)
            == m,
        mesh_written(m, writes).handle == m.handle && mesh_written(m, writes).morph_targets == m.morph_targets,
        0 <= k < padded(m).len() && written_to(writes, m.handle) && (forall|j: int|
            0 <= j < writes.len() ==> !((#[trigger] writes[j]).mesh == m.handle && writes[j].shape == k)) ==> {
            let w = mesh_written(m, writes).morph_weights;
            &&& k < m.morph_weights.len() ==> w[k] == m.morph_weights[k]
            &&& k >= m.morph_weights.len() ==> w[k].bits == 0
        },
{
    if 0 <= k < padded(m).len() && forall|j: int|
        0 <= j < writes.len() ==> !((#[trigger] writes[j]).mesh == m.handle && writes[j].shape == k) {
        lemma_weights_kept(m, padded(m), writes, writes.len(), k);
    }
}

/// Setting a bone sets the parts that are driven to what drives them, and leaves
/// the others.
pub proof fn law_bone_parts(op: BoneSetOp, cur: Transform, driven: Transform)
    ensures
        op.pos is Some ==> bone_set(op, cur, driven).translation == driven.translation,
        op.pos is None ==> bone_set(op, cur, driven).translation == cur.translation,
        op.rot is Some ==> bone_set(op, cur, driven).rotation == driven.rotation,
        op.rot is None ==> bone_set(op, cur, driven).rotation == cur.rotation,
        op.scale is Some ==> bone_set(op, cur, driven).scale == driven.scale,
        op.scale is None ==> bone_set(op, cur, driven).scale == cur.scale,
{
}

/// A node is a bone if a skin has it as a joint; where no skin has joints, every
/// node is one.
pub proof fn law_bone_nodes(s: SceneView, h: NodeHandle, i: int)
    ensures
        0 <= i < s.skins.len() && s.skins[i].joints.contains(h) && has_node(s.nodes, h) ==> is_bone_node(s, h),
        (forall|k: int| 0 <= k < s.skins.len() ==> (#[trigger] s.skins[k]).joints.len() == 0) && has_node(s.nodes, h)
            ==> is_bone_node(s, h),
        0 <= i < s.skins.len() && s.skins[i].joints.len() > 0 && (forall|k: int|
            0 <= k < s.skins.len() ==> !(#[trigger] s.skins[k]).joints.contains(h)) ==> !is_bone_node(s, h),
        !has_node(s.nodes, h) ==> !is_bone_node(s, h),
{
    if 0 <= i < s.skins.len() && s.skins[i].joints.len() > 0 {
        let j = s.skins[i].joints[0];
        assert(s.skins[i].joints.contains(j));
        assert(is_joint(s.skins, j));
    }
    if forall|k: int| 0 <= k < s.skins.len() ==> (#[trigger] s.skins[k]).joints.len() == 0 {
        assert(no_joints(s.skins)) by {
            assert forall|h: NodeHandle| !is_joint(s.skins, h) by {
                if is_joint(s.skins, h) {
                    let k = choose|k: int| 0 <= k < s.skins.len() && (#[trigger] s.skins[k]).joints.contains(h);
                    assert(s.skins[k].joints.len() > 0);
                }
            }
        }
    }
}

/// A bone hangs under the nearest joint above its node; where there are no
/// joints, under the node above it.
pub proof fn law_logical_parent(s: SceneView, n: NodeView, p: NodeHandle)
    ensures
        n.parent is None ==> logical_parent(s, n) is None,
        no_joints(s.skins) && n.parent == Some(p) ==> logical_parent(s, n) == Some(BoneId { node: p }),
        !no_joints(s.skins) && n.parent == Some(p) && is_joint(s.skins, p) ==> logical_parent(s, n) == Some(
            BoneId { node: p },
        ),
        !no_joints(s.skins) ==> (logical_parent(s, n) matches Some(b) ==> is_joint(s.skins, b.node)),
        !no_joints(s.skins) && n.parent == Some(p) && !is_joint(s.skins, p) && node_parent(s.nodes, p) is None
            ==> logical_parent(s, n) is None,
{
    if n.parent is Some {
        lemma_joint_above(s, n.parent->0, s.nodes.len());
    }
}

proof fn lemma_joint_above(s: SceneView, h: NodeHandle, fuel: nat)
    ensures
        joint_above(s, h, fuel) matches Some(j) ==> is_joint(s.skins, j),
    decreases fuel,
{
    if fuel > 0 && !is_joint(s.skins, h) {
        match node_parent(s.nodes, h) {
            Some(p) => {
                lemma_joint_above(s, p, (fuel - 1) as nat);
            },
            None => {},
        }
    }
}

/// Going up from a node that is no joint is going up from the one above it.
pub proof fn law_joint_above(s: SceneView, h: NodeHandle, p: NodeHandle, fuel: nat)
    ensures
        is_joint(s.skins, h) ==> joint_above(s, h, fuel) == Some(h),
        fuel > 0 && !is_joint(s.skins, h) && node_parent(s.nodes, h) == Some(p) ==> joint_above(s, h, fuel)
            == joint_above(s, p, (fuel - 1) as nat),
        !is_joint(s.skins, h) && node_parent(s.nodes, h) is None ==> joint_above(s, h, fuel) is None,
{
}

/// Bones are called as their nodes are, and by number where those have no name.
pub proof fn law_bone_label(n: NodeView)
    ensures
        n.name.len() > 0 ==> bone_label(n) == n.name,
        n.name.len() == 0 ==> bone_label(n) == "Bone_"@ + crate::text::decimal_of(n.handle.index as nat),
{
}

/// A skeleton read from a scene has exactly the bone nodes, in the order of
/// their slots, named and hung as the nodes are, and deforming where a skin has
/// them as joints.
pub proof fn law_skeleton(s: SceneView, bs: Seq<BoneView>, i: int, h: NodeHandle)
    requires
        skeleton_of(s, bs),
        0 <= i < bs.len(),
    ensures
        is_bone_node(s, bs[i].id.node),
        is_bone_node(s, h) ==> has_bone(bs, BoneId { node: h }),
        i + 1 < bs.len() ==> bs[i].id.node.index < bs[i + 1].id.node.index,
        node_get(s.nodes, bs[i].id.node) is Some,
        bs[i].name == bone_label(node_get(s.nodes, bs[i].id.node)->0),
        bs[i].parent == logical_parent(s, node_get(s.nodes, bs[i].id.node)->0),
        bs[i].deform <==> is_joint(s.skins, bs[i].id.node),
{
    assert(crate::bones::bone_at(bs, bs[i].id, i));
    assert(has_bone(bs, bs[i].id));
    assert(matches_node(s, bs[i]));
    if is_bone_node(s, h) {
        assert(has_bone(bs, BoneId { node: h }));
    }
}

/// A node has to be hung anew exactly if it does not hang under the node of its
/// bone's parent.
pub proof fn law_needs_relink(b: BoneView, nodes: Seq<NodeView>)
    ensures
        b.parent matches Some(p) ==> (node_get(nodes, b.id.node) matches Some(n) ==> (needs_relink(b, nodes) <==> n.parent
            != Some(p.node))),
        b.parent is None ==> !needs_relink(b, nodes),
{
}

/// Hanging nodes anew puts each under the node of its bone's parent, at the
/// transform worked out for it, and leaves all other nodes.
pub proof fn law_relink_step(
    bs: Seq<BoneView>,
    nodes: Seq<NodeView>,
    steps: Seq<usize>,
    locals: Seq<Transform>,
    k: nat,
    i: int,
)
    requires
        0 < k <= steps.len(),
        0 <= i < nodes.len(),
    ensures
        ({
            let was = relinked(bs, nodes, steps, locals, (k - 1) as nat);
            let out = relinked(bs, nodes, steps, locals, k);
            let b = bs[steps[k - 1] as int];
            &&& out.len() == nodes.len() && was.len() == nodes.len() && out[i].handle == nodes[i].handle
            &&& b.parent is Some && nodes[i].handle == b.id.node ==> out[i].parent == Some(b.parent->0.node)
                && out[i].local == locals[k - 1] && out[i].name == was[i].name && out[i].mesh == was[i].mesh
            &&& nodes[i].handle != b.id.node || b.parent is None ==> out[i] == was[i]
        }),
    decreases k,
{
    lemma_relinked(bs, nodes, steps, locals, (k - 1) as nat, i);
}

proof fn lemma_relinked(
    bs: Seq<BoneView>,
    nodes: Seq<NodeView>,
    steps: Seq<usize>,
    locals: Seq<Transform>,
    k: nat,
    i: int,
)
    requires
        0 <= i < nodes.len(),
    ensures
        relinked(bs, nodes, steps, locals, k).len() == nodes.len(),
        relinked(bs, nodes, steps, locals, k)[i].handle == nodes[i].handle,
    decreases k,
{
    if k > 0 {
        lemma_relinked(bs, nodes, steps, locals, (k - 1) as nat, i);
    }
}

/// A bone carries IK where a chain that is on hangs below it, and a driver runs
/// before IK where it writes such a bone.
pub proof fn law_supports_ik(r: RigView, d: DriverView, bone: BoneId, i: int, j: int)
    ensures
        0 <= i < r.ik_chains.len() && r.ik_chains[i].enabled && strictly_under(r.bones, bone, r.ik_chains[i].tip)
            ==> supports_ik(r, bone),
        0 <= i < r.ik_chains.len() && r.ik_chains[i].enabled && 0 <= j < r.ik_chains[i].bones.len() && strictly_under(
            r.bones,
            bone,
            r.ik_chains[i].bones[j],
        ) ==> supports_ik(r, bone),
        (forall|k: int| 0 <= k < r.ik_chains.len() ==> !(#[trigger] r.ik_chains[k]).enabled) ==> !supports_ik(r, bone),
        (forall|x: BoneId| !#[trigger] strictly_under(r.bones, bone, x)) ==> !supports_ik(r, bone),
        0 <= i < d.nodes.len() && d.nodes[i].kind == DriverNodeKind::BoneSet && d.nodes[i].bone == Some(bone)
            && supports_ik(r, bone) ==> needs_pre_ik(r, d),
        (forall|k: int| 0 <= k < d.nodes.len() ==> (#[trigger] d.nodes[k]).kind != DriverNodeKind::BoneSet)
            ==> !needs_pre_ik(r, d),
        (forall|k: int| 0 <= k < d.nodes.len() ==> (#[trigger] d.nodes[k]).bone is None) ==> !needs_pre_ik(r, d),
        (forall|b: BoneId| !#[trigger] supports_ik(r, b)) ==> !needs_pre_ik(r, d),
{
    if 0 <= i < r.ik_chains.len() {
        let c = r.ik_chains[i];
        assert(0 <= j < c.bones.len() && strictly_under(r.bones, bone, c.bones[j]) ==> above_chain(r.bones, c, bone));
    }
}

} // verus!
