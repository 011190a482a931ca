//! What single steps on scenes and rigs change, and what they leave.

use vstd::prelude::*;
use crate::bones::{BoneId, BoneView};
use crate::evaluate::padded_to;
use crate::forest_edit::{adopt, bereft, leaf, live_kids};
use crate::geom::{Scalar, Transform};
use crate::gizmo::asked_bones;
use crate::lists::lemma_filter_contains;
use crate::pull::{bind_turns, can_pull, chain_up};
use crate::rig::{AppMode, BrushKind, MoveMode, SoftView, Tool, TransformSpace};
use crate::rig_chains::sim_reset;
use crate::rig_edit::{binds_without, cut_loose};
use crate::rig_pose::{restored, scene_cleared, shown_as};
use crate::rig_select::{empty_rig, listed_before};
use crate::scene::{has_node, with_local, with_parent, MeshHandle, MeshView, NodeHandle, NodeView};
use crate::sculpt::{refreshed, with_neighbours, PickTarget, SculptView};
use crate::tools::{faint, weight_of};

verus! {

/// A node gets its transform, and nothing else of it changes, nor any other node.
pub proof fn law_with_local(nodes: Seq<NodeView>, h: NodeHandle, t: Transform, i: int)
    requires
        0 <= i < nodes.len(),
    ensures
        with_local(nodes, h, t).len() == nodes.len(),
        nodes[i].handle == h ==> with_local(nodes, h, t)[i].local == t,
        nodes[i].handle != h ==> with_local(nodes, h, t)[i] == nodes[i],
        with_local(nodes, h, t)[i] == (NodeView { local: with_local(nodes, h, t)[i].local, ..nodes[i] }),
{
}

/// A node gets its parent, and nothing else of it changes, nor any other node.
pub proof fn law_with_parent(nodes: Seq<NodeView>, h: NodeHandle, p: Option<NodeHandle>, i: int)
    requires
        0 <= i < nodes.len(),
    ensures
        with_parent(nodes, h, p).len() == nodes.len(),
        nodes[i].handle == h ==> with_parent(nodes, h, p)[i].parent == p,
        nodes[i].handle != h ==> with_parent(nodes, h, p)[i] == nodes[i],
        with_parent(nodes, h, p)[i] == (NodeView { parent: with_parent(nodes, h, p)[i].parent, ..nodes[i] }),
{
}

/// The nodes of the bones that are cut loose have no parent; the others keep theirs.
pub proof fn law_cut_loose(nodes: Seq<NodeView>, kids: Seq<BoneId>, i: int)
    requires
        0 <= i < nodes.len(),
    ensures
        cut_loose(nodes, kids).len() == nodes.len(),
        kids.contains(BoneId { node: nodes[i].handle }) ==> cut_loose(nodes, kids)[i].parent is None,
        !kids.contains(BoneId { node: nodes[i].handle }) ==> cut_loose(nodes, kids)[i] == nodes[i],
        cut_loose(nodes, kids)[i] == (NodeView { parent: cut_loose(nodes, kids)[i].parent, ..nodes[i] }),
{
}

/// Bind transforms of other bones stay.
pub proof fn law_binds_without(m: Map<u64, Transform>, dead: Set<BoneId>, b: BoneId)
    ensures
        dead.contains(b) ==> !binds_without(m, dead).contains_key(b.node.key_of()),
        binds_without(m, Set::empty()) == m,
{
    if dead.contains(b) {
        assert(crate::rig_edit::keyed(dead, b.node.key_of()));
    }
    assert(binds_without(m, Set::empty()) =~= m);
}

/// Starting again changes no number of a soft chain.
pub proof fn law_sim_reset(cs: Seq<SoftView>, i: int)
    requires
        0 <= i < cs.len(),
    ensures
        sim_reset(cs).len() == cs.len(),
        !sim_reset(cs)[i].initialized,
        sim_reset(cs)[i] == (SoftView { initialized: false, ..cs[i] }),
{
}

/// A new bone has no children; its parent has one more, the last, and no other
/// bone changes.
pub proof fn law_adopted(b: BoneView, parent: Option<BoneId>, id: BoneId, name: Seq<char>, deform: bool)
    ensures
        leaf(id, name, parent, deform).id == id && leaf(id, name, parent, deform).name == name,
        leaf(id, name, parent, deform).parent == parent && leaf(id, name, parent, deform).children.len() == 0,
        leaf(id, name, parent, deform).deform == deform,
        parent == Some(b.id) ==> adopt(b, parent, id).children == b.children.push(id),
        parent != Some(b.id) ==> adopt(b, parent, id) == b,
        adopt(b, parent, id).parent == b.parent && adopt(b, parent, id).name == b.name,
{
}

/// A bone that lost another is neither its child nor its parent any more.
pub proof fn law_bereft(b: BoneView, id: BoneId, c: BoneId)
    ensures
        bereft(b, id).parent != Some(id),
        b.parent != Some(id) ==> bereft(b, id).parent == b.parent,
        bereft(b, id).children.contains(c) <==> b.children.contains(c) && c != id,
        bereft(b, id).id == b.id && bereft(b, id).name == b.name && bereft(b, id).deform == b.deform,
{
    let dead = Set::<BoneId>::empty().insert(id);
    lemma_filter_contains(b.children, |x: BoneId| !dead.contains(x), c);
}

/// Children that are not dead stay.
pub proof fn law_live_kids(kids: Seq<BoneId>, dead: Set<BoneId>, c: BoneId)
    ensures
        live_kids(kids, dead).contains(c) <==> kids.contains(c) && !dead.contains(c),
{
    lemma_filter_contains(kids, |x: BoneId| !dead.contains(x), c);
}

/// A new document is empty; it starts in Pose mode with the tool for turning.
pub proof fn law_empty_rig()
    ensures
        empty_rig().bones.len() == 0 && empty_rig().drivers.len() == 0 && empty_rig().ik_chains.len() == 0,
        empty_rig().soft_chains.len() == 0 && empty_rig().colliders.len() == 0,
        empty_rig().selection is None && empty_rig().selected == Set::<BoneId>::empty(),
        empty_rig().bind_locals == Map::<u64, Transform>::empty(),
        empty_rig().show_skeleton && empty_rig().show_mesh && !empty_rig().show_weights
            && empty_rig().show_colliders,
        empty_rig().mode == AppMode::Pose && empty_rig().tool == Tool::Rotate,
        empty_rig().move_mode == MoveMode::Fk && empty_rig().transform_space == TransformSpace::Local,
        empty_rig().brush_kind == BrushKind::Grab,
        empty_rig().brush_radius == (Scalar { bits: 0x3DA3_D70A }),
        empty_rig().brush_strength == (Scalar { bits: 0x3F26_6666 }),
        empty_rig().next_bone_serial == 1 && empty_rig().next_ik_serial == 1 && empty_rig().next_soft_serial == 1,
        empty_rig().next_collider_serial == 1 && empty_rig().next_shape_serial == 1,
        empty_rig().source_path is None && empty_rig().model_root is None && empty_rig().active_mesh is None
            && empty_rig().active_shape is None,
        scene_cleared().nodes.len() == 0 && scene_cleared().skins.len() == 0 && scene_cleared().meshes.len() == 0,
{
}

/// The active bone is listed first, the others by slot.
pub proof fn law_listed_before(active: Option<BoneId>, a: BoneId, b: BoneId)
    ensures
        active == Some(a) && a != b ==> listed_before(active, a, b) && !listed_before(active, b, a),
        active != Some(a) && active != Some(b) && a.node.index < b.node.index ==> listed_before(active, a, b)
            && !listed_before(active, b, a),
        active != Some(a) && active != Some(b) && a.node.index == b.node.index && a.node.generation
            < b.node.generation ==> listed_before(active, a, b) && !listed_before(active, b, a),
        !listed_before(active, a, a),
{
}

/// A node takes its bind transform where it is one of those asked for and has
/// one; else it stays.
pub proof fn law_restored_node(n: NodeView, which: Set<BoneId>, binds: Map<u64, Transform>, visible: bool)
    ensures
        which.contains(BoneId { node: n.handle }) && binds.contains_key(n.handle.key_of()) ==> restored(
            n,
            which,
            binds,
        ).local == binds[n.handle.key_of()],
        !which.contains(BoneId { node: n.handle }) ==> restored(n, which, binds) == n,
        !binds.contains_key(n.handle.key_of()) ==> restored(n, which, binds) == n,
        restored(n, which, binds) == (NodeView { local: restored(n, which, binds).local, ..n }),
        n.mesh is Some ==> shown_as(n, visible).visible == visible,
        n.mesh is None ==> shown_as(n, visible) == n,
        shown_as(n, visible).local == n.local && shown_as(n, visible).parent == n.parent,
{
}

/// A pull starts on two bones or more that all have nodes.
pub proof fn law_can_pull(bs: Seq<BoneView>, nodes: Seq<NodeView>, bone: BoneId, n: nat, i: int)
    ensures
        can_pull(bs, nodes, bone, n) ==> chain_up(bs, bone, n).len() >= 2,
        can_pull(bs, nodes, bone, n) && 0 <= i < chain_up(bs, bone, n).len() ==> has_node(
            nodes,
            chain_up(bs, bone, n)[i].node,
        ),
        chain_up(bs, bone, n).len() >= 2 && (forall|j: int|
            0 <= j < chain_up(bs, bone, n).len() ==> has_node(nodes, (#[trigger] chain_up(bs, bone, n)[j]).node))
            ==> can_pull(bs, nodes, bone, n),
{
}

/// The rotations to spring back to are those of bind, in the order of the bones.
pub proof fn law_bind_turns(binds: Map<u64, Transform>, ids: Seq<BoneId>, i: int)
    requires
        0 <= i < ids.len(),
    ensures
        !binds.contains_key(ids[i].node.key_of()) ==> bind_turns(binds, ids) is None,
        bind_turns(binds, ids) matches Some(q) ==> q.len() == ids.len() && q[i] == binds[ids[i].node.key_of()].rotation,
{
}

/// Weights are filled up with zeros and never cut.
pub proof fn law_padded_to(w: Seq<Scalar>, n: nat, i: int)
    ensures
        padded_to(w, n).len() == (if w.len() >= n {
            w.len()
        } else {
            n
        }),
        0 <= i < w.len() ==> padded_to(w, n)[i] == w[i],
        w.len() <= i < n ==> padded_to(w, n)[i] == (Scalar { bits: 0 }),
{
}

/// A drag takes the roots of the selection, or the bone it began on.
pub proof fn law_asked_bones(bone: BoneId, roots: Seq<BoneId>)
    ensures
        roots.len() > 0 ==> asked_bones(bone, roots) == roots,
        roots.len() == 0 ==> asked_bones(bone, roots) == seq![bone],
{
}

/// A shape key without weight weighs nothing, and one below a twentieth is faint.
pub proof fn law_faint(m: MeshView, h: MeshHandle, i: usize)
    ensures
        i < m.morph_weights.len() ==> weight_of(m, i) == m.morph_weights[i as int],
        i >= m.morph_weights.len() ==> weight_of(m, i) == (Scalar { bits: 0 }),
        faint(m, h, i) <==> m.handle == h && crate::order::less_than(weight_of(m, i), Scalar { bits: 0x3D4C_CCCD }),
{
}

/// A stroke takes the vertices under the brush while the pointer is on its mesh,
/// and keeps those it had when it is not.
pub proof fn law_refreshed(
    d: SculptView,
    hit: Option<PickTarget>,
    verts: Seq<crate::sculpt::BrushVert>,
    n: nat,
    indices: Seq<u32>,
)
    ensures
        hit is Some && hit->0.mesh == d.mesh ==> refreshed(d, hit, verts).verts == verts,
        hit is None || hit->0.mesh != d.mesh ==> refreshed(d, hit, verts) == d,
        refreshed(d, hit, verts).mesh == d.mesh && refreshed(d, hit, verts).adjacency == d.adjacency,
        d.adjacency.len() > 0 ==> with_neighbours(d, n, indices) == d,
        with_neighbours(d, n, indices).verts == d.verts,
{
}

} // verus!
