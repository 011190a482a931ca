//! What the panels list, and what their fields change.

use vstd::prelude::*;
use crate::bones::{bone_pos, has_bone, BoneId, BoneView};
use crate::bones_panel::{
    chain_deleted, chain_text, cut_off, ik_at, soft_at, soft_root, subtree_deleted, switched_text, target_of,
};
use crate::driver::DriverView;
use crate::drivers_panel::{driver_row, ik_carriers, into_pose, needs_pre_ik, shape_name};
use crate::geom::Scalar;
use crate::inspector::{
    collider_added, collider_edited, collider_on, ik_on, inspected, section, soft_added,
    soft_field_set, soft_on, ColliderEdit, Section, SoftField,
};
use crate::kinds::DriverNodeKind;
use crate::lists::lemma_filter_contains;
use crate::order::less_than;
use crate::rig::{AppMode, BoneCollider, IkView, RigView, SoftView};
use crate::rig_chains::{control_kind, CapsuleGeometry, SoftGeometry};
use crate::rig_edit::doomed;
use crate::rig_pose::has_mesh;
use crate::scene::{node_get, MeshHandle, MeshView, NodeView, SceneView};
use crate::session::AppView;
use crate::shapes_panel::{into_shape, lists_mesh, mesh_label, mesh_rows, mesh_settled, shape_rows, MeshRowView};

verus! {

/// The IK chain on a bone is the first one with that tip.
pub proof fn law_ik_on(cs: Seq<IkView>, tip: BoneId, i: int)
    ensures
        0 <= i < cs.len() && cs[i].tip == tip && (forall|j: int| 0 <= j < i ==> (#[trigger] cs[j]).tip != tip)
            ==> ik_on(cs, tip) == Some(cs[i].id),
        (forall|j: int| 0 <= j < cs.len() ==> (#[trigger] cs[j]).tip != tip) ==> ik_on(cs, tip) is None,
    decreases cs.len(),
{
    if cs.len() > 0 {
        let t = cs.skip(1);
        law_ik_on(t, tip, i - 1);
        assert(forall|j: int| 0 <= j < t.len() ==> #[trigger] t[j] == cs[j + 1]);
        if i > 0 && forall|j: int| 0 <= j < i ==> (#[trigger] cs[j]).tip != tip {
            assert(cs[0].tip != tip);
        }
        if forall|j: int| 0 <= j < cs.len() ==> (#[trigger] cs[j]).tip != tip {
            assert(cs[0].tip != tip);
        }
    }
}

/// The soft chain of a bone is the first one that lists it.
pub proof fn law_soft_on(cs: Seq<SoftView>, id: BoneId, i: int)
    ensures
        0 <= i < cs.len() && cs[i].bones.contains(id) && (forall|j: int|
            0 <= j < i ==> !(#[trigger] cs[j]).bones.contains(id)) ==> soft_on(cs, id) == Some(cs[i].id),
        (forall|j: int| 0 <= j < cs.len() ==> !(#[trigger] cs[j]).bones.contains(id)) ==> soft_on(cs, id) is None,
    decreases cs.len(),
{
    if cs.len() > 0 {
        let t = cs.skip(1);
        law_soft_on(t, id, i - 1);
        assert(forall|j: int| 0 <= j < t.len() ==> #[trigger] t[j] == cs[j + 1]);
        if i > 0 && forall|j: int| 0 <= j < i ==> !(#[trigger] cs[j]).bones.contains(id) {
            assert(!cs[0].bones.contains(id));
        }
        if forall|j: int| 0 <= j < cs.len() ==> !(#[trigger] cs[j]).bones.contains(id) {
            assert(!cs[0].bones.contains(id));
        }
    }
}

/// The collider of a bone is the first one on it.
pub proof fn law_collider_on(cs: Seq<BoneCollider>, id: BoneId, i: int)
    ensures
        0 <= i < cs.len() && cs[i].bone == id && (forall|j: int| 0 <= j < i ==> (#[trigger] cs[j]).bone != id)
            ==> collider_on(cs, id) == Some(cs[i].id),
        (forall|j: int| 0 <= j < cs.len() ==> (#[trigger] cs[j]).bone != id) ==> collider_on(cs, id) is None,
    decreases cs.len(),
{
    if cs.len() > 0 {
        let t = cs.skip(1);
        law_collider_on(t, id, i - 1);
        assert(forall|j: int| 0 <= j < t.len() ==> #[trigger] t[j] == cs[j + 1]);
        if i > 0 && forall|j: int| 0 <= j < i ==> (#[trigger] cs[j]).bone != id {
            assert(cs[0].bone != id);
        }
        if forall|j: int| 0 <= j < cs.len() ==> (#[trigger] cs[j]).bone != id {
            assert(cs[0].bone != id);
        }
    }
}

/// The inspector offers what exists, and to create what does not; on a control
/// it offers to create nothing.
pub proof fn law_section(existing: Option<u32>, control: bool, even: bool)
    ensures
        !control && existing is Some ==> section(existing, control, even) == Section::Existing(existing->0),
        !control && existing is None ==> section(existing, control, even) == Section::Create,
        control && existing is None ==> section(existing, control, even) == Section::Hidden,
        control && existing is Some && even ==> section(existing, control, even) == Section::Existing(existing->0),
        control && !even ==> section(existing, control, even) == Section::Hidden,
{
}

/// What the inspector tells of a bone: its name, whether it deforms, the name of
/// its parent, its role, and in Pose where its node is. It can be moved in Edit,
/// and controls in every mode.
pub proof fn law_inspected(a: AppView, sel: BoneId, p: BoneId)
    requires
        has_bone(a.rig.bones, sel),
    ensures
        ({
            let o = inspected(a, sel);
            let b = a.rig.bones[bone_pos(a.rig.bones, sel)];
            &&& o.name == b.name && o.deform == b.deform
            &&& o.role == control_kind(a.rig.ik_chains, sel)
            &&& b.parent == Some(p) && has_bone(a.rig.bones, p) ==> o.parent == Some(
                a.rig.bones[bone_pos(a.rig.bones, p)].name,
            )
            &&& b.parent is None ==> o.parent is None
            &&& o.movable <==> a.rig.mode == AppMode::Edit || o.role is Some
            &&& a.rig.mode == AppMode::Pose ==> (node_get(a.scene.nodes, sel.node) matches Some(n)
                ==> o.translation == Some(n.local.translation))
            &&& a.rig.mode != AppMode::Pose ==> o.translation is None
            &&& a.rig.selected.len() > 1 ==> o.many == Some(a.rig.selected.len() as usize)
            &&& a.rig.selected.len() <= 1 ==> o.many is None
        }),
{
}

/// A field of a soft chain changes that number alone; other gravity has the
/// chain start from the pose.
pub proof fn law_soft_field(c: SoftView, x: Scalar)
    ensures
        soft_field_set(c, SoftField::Gravity, x).gravity == x,
        !soft_field_set(c, SoftField::Gravity, x).initialized,
        soft_field_set(c, SoftField::Stiffness, x).stiffness == x,
        soft_field_set(c, SoftField::Damping, x).damping == x,
        soft_field_set(c, SoftField::Inertia, x).inertia == x,
        soft_field_set(c, SoftField::MaxAngle, x).max_angle == x,
        soft_field_set(c, SoftField::Stiffness, x) == (SoftView { stiffness: x, ..c }),
        ({
            let d = soft_field_set(c, SoftField::Damping, x);
            d.gravity == c.gravity && d.stiffness == c.stiffness && d.inertia == c.inertia && d.max_angle
                == c.max_angle && d.initialized == c.initialized && d.enabled == c.enabled
        }),
        ({
            let d = soft_field_set(c, SoftField::Gravity, x);
            d.damping == c.damping && d.stiffness == c.stiffness && d.inertia == c.inertia && d.max_angle
                == c.max_angle && d.bones == c.bones && d.enabled == c.enabled
        }),
        ({
            let d = soft_field_set(c, SoftField::Inertia, x);
            d.gravity == c.gravity && d.damping == c.damping && d.stiffness == c.stiffness && d.max_angle
                == c.max_angle && d.initialized == c.initialized
        }),
        ({
            let d = soft_field_set(c, SoftField::MaxAngle, x);
            d.gravity == c.gravity && d.damping == c.damping && d.stiffness == c.stiffness && d.inertia == c.inertia
                && d.initialized == c.initialized
        }),
{
}

/// A field of a collider changes that alone; the radius stays between a
/// thousandth and a half.
pub proof fn law_collider_field(c: BoneCollider, x: Scalar, on: bool)
    ensures
        collider_edited(c, ColliderEdit::Enabled(on)) == (BoneCollider { enabled: on, ..c }),
        collider_edited(c, ColliderEdit::Softness(x)) == (BoneCollider { softness: x, ..c }),
        less_than(x, Scalar { bits: 0x3A83_126F }) ==> collider_edited(c, ColliderEdit::Radius(x)).radius.bits
            == 0x3A83_126F,
        less_than(Scalar { bits: 0x3F00_0000 }, x) ==> collider_edited(c, ColliderEdit::Radius(x)).radius.bits
            == 0x3F00_0000,
        !less_than(x, Scalar { bits: 0x3A83_126F }) && !less_than(Scalar { bits: 0x3F00_0000 }, x)
            ==> collider_edited(c, ColliderEdit::Radius(x)).radius == x,
        ({
            let d = collider_edited(c, ColliderEdit::Radius(x));
            d.bone == c.bone && d.id == c.id && d.enabled == c.enabled && d.a_local == c.a_local && d.b_local
                == c.b_local && d.softness == c.softness
        }),
{
    let lo = Scalar { bits: 0x3A83_126F };
    let hi = Scalar { bits: 0x3F00_0000 };
    assert(less_than(lo, hi));
}

/// The ends of a capsule go where they are told.
pub proof fn law_collider_axis(c: BoneCollider, a: crate::geom::Vec3, b: crate::geom::Vec3)
    ensures
        ({
            let d = collider_edited(c, ColliderEdit::Axis { a_local: a, b_local: b });
            d.a_local == a && d.b_local == b && d.radius == c.radius && d.bone == c.bone && d.id == c.id
        }),
{
}

/// A new soft chain comes last, with the next number, over the run and the
/// anchor that it was given; the rest of the document stays.
pub proof fn law_soft_added(r: RigView, anchor: BoneId, bones: Seq<BoneId>, geo: SoftGeometry)
    requires
        r.next_soft_serial < u32::MAX,
    ensures
        ({
            let o = soft_added(r, anchor, bones, geo);
            let c = o.soft_chains.last();
            &&& o.soft_chains.drop_last() == r.soft_chains
            &&& c.id == r.next_soft_serial && o.next_soft_serial == r.next_soft_serial + 1
            &&& c.anchor == anchor && c.bones == bones && c.enabled && !c.initialized
            &&& c.name == "Soft_"@ + crate::rig_chains::name_or(r.bones, bones[0], "Soft"@) + "×"@
                + crate::text::decimal_of(bones.len())
            &&& o.bones == r.bones && o.ik_chains == r.ik_chains && o.colliders == r.colliders && o.selection
                == r.selection
        }),
{
    assert(soft_added(r, anchor, bones, geo).soft_chains.drop_last() =~= r.soft_chains);
}

/// A new collider comes last, with the next number, on its bone and between the
/// ends that were measured, no thinner than a hundredth.
pub proof fn law_collider_added(r: RigView, bone: BoneId, geo: CapsuleGeometry)
    requires
        r.next_collider_serial < u32::MAX,
    ensures
        ({
            let o = collider_added(r, bone, geo);
            let c = o.colliders.last();
            &&& o.colliders.drop_last() == r.colliders
            &&& c.id == r.next_collider_serial && o.next_collider_serial == r.next_collider_serial + 1
            &&& c.bone == bone && c.enabled && c.a_local == geo.a_local && c.b_local == geo.b_local
            &&& c.softness.bits == 0x3EB3_3333
            &&& less_than(geo.radius, Scalar { bits: 0x3C23_D70A }) ==> c.radius.bits == 0x3C23_D70A
            &&& less_than(Scalar { bits: 0x3C23_D70A }, geo.radius) ==> c.radius == geo.radius
            &&& o.bones == r.bones && o.soft_chains == r.soft_chains
        }),
{
    assert(collider_added(r, bone, geo).colliders.drop_last() =~= r.colliders);
}

/// The meshes that are listed are those of the table that a node carries.
pub proof fn law_meshes_listed(nodes: Seq<NodeView>, meshes: Seq<MeshView>, h: MeshHandle)
    ensures
        lists_mesh(mesh_rows(nodes, meshes), h) <==> has_mesh(meshes, h) && exists|i: int|
            0 <= i < nodes.len() && (#[trigger] nodes[i]).mesh == Some(h),
    decreases nodes.len(),
{
    if nodes.len() > 0 {
        let t = nodes.drop_last();
        let n = nodes[nodes.len() - 1];
        let was = mesh_rows(t, meshes);
        let all = mesh_rows(nodes, meshes);
        law_meshes_listed(t, meshes, h);
        let adds = n.mesh is Some && !lists_mesh(was, n.mesh->0) && has_mesh(meshes, n.mesh->0);
        assert(lists_mesh(all, h) <==> lists_mesh(was, h) || (adds && n.mesh == Some(h))) by {
            if lists_mesh(was, h) {
                let k = choose|k: int| 0 <= k < was.len() && (#[trigger] was[k]).mesh == h;
                assert(all[k].mesh == h);
            }
            if adds {
                assert(all[was.len() as int].mesh == n.mesh->0);
            }
            if lists_mesh(all, h) {
                let k = choose|k: int| 0 <= k < all.len() && (#[trigger] all[k]).mesh == h;
                if k < was.len() {
                    assert(was[k].mesh == h);
                }
            }
        }
        if exists|i: int| 0 <= i < t.len() && (#[trigger] t[i]).mesh == Some(h) {
            let i = choose|i: int| 0 <= i < t.len() && (#[trigger] t[i]).mesh == Some(h);
            assert(nodes[i].mesh == Some(h));
        }
        if exists|i: int| 0 <= i < nodes.len() && (#[trigger] nodes[i]).mesh == Some(h) {
            let i = choose|i: int| 0 <= i < nodes.len() && (#[trigger] nodes[i]).mesh == Some(h);
            if i < t.len() {
                assert(t[i].mesh == Some(h));
            }
        }
    }
}

/// A shape key is listed with its name and weight; the active one is marked, and
/// those that a driver drives.
pub proof fn law_shape_row(r: RigView, m: MeshView, i: int)
    requires
        0 <= i < m.morph_targets.len() <= usize::MAX,
    ensures
        ({
            let row = shape_rows(r, m)[i];
            &&& shape_rows(r, m).len() == m.morph_targets.len()
            &&& row.name == m.morph_targets[i]
            &&& i < m.morph_weights.len() ==> row.weight == m.morph_weights[i]
            &&& i >= m.morph_weights.len() ==> row.weight.bits == 0
            &&& row.selected <==> r.active_shape == Some(i as usize)
            &&& row.driven <==> exists|k: int|
                0 <= k < r.drivers.len() && crate::driver::writes_morph(#[trigger] r.drivers[k], m.handle, i as usize)
        }),
{
}

/// The active mesh stays where it is listed; else the first one becomes active,
/// and no shape key of it.
pub proof fn law_mesh_settled(r: RigView, rows: Seq<MeshRowView>)
    requires
        rows.len() > 0,
    ensures
        r.active_mesh is Some && lists_mesh(rows, r.active_mesh->0) ==> mesh_settled(r, rows) == r,
        r.active_mesh is None || !lists_mesh(rows, r.active_mesh->0) ==> mesh_settled(r, rows).active_mesh == Some(
            rows[0].mesh,
        ) && mesh_settled(r, rows).active_shape is None && mesh_settled(r, rows).bones == r.bones,
{
}

/// Meshes are called as the node that carries them, and by number where that has
/// no name.
pub proof fn law_mesh_label(n: NodeView, h: MeshHandle)
    ensures
        n.name.len() > 0 ==> mesh_label(n, h) == n.name,
        n.name.len() == 0 ==> mesh_label(n, h) == "Mesh "@ + crate::text::decimal_of(h.index as nat),
{
}

/// Work on shapes switches to Shape and work on drivers to Pose, where one is not
/// there already.
pub proof fn law_into_mode(a: AppView)
    ensures
        into_shape(a).rig.mode == AppMode::Shape,
        a.rig.mode == AppMode::Shape ==> into_shape(a) == a,
        into_pose(a).rig.mode == AppMode::Pose,
        a.rig.mode == AppMode::Pose ==> into_pose(a) == a,
{
}

/// A driver is listed as it is, with how many nodes and links it has and when it
/// runs; the one that is edited is marked.
pub proof fn law_driver_row(a: AppView, d: DriverView, i: int)
    ensures
        ({
            let row = driver_row(a, d);
            &&& row.id == d.id && row.name == d.name && row.enabled == d.enabled
            &&& row.editing <==> a.editing_driver == Some(d.id)
        }),
        0 <= i < d.nodes.len() && d.nodes[i].kind == DriverNodeKind::BoneSet && d.nodes[i].bone is Some
            && crate::evaluate::supports_ik(a.rig, d.nodes[i].bone->0) ==> needs_pre_ik(a.rig, d),
        (forall|k: int| 0 <= k < d.nodes.len() ==> (#[trigger] d.nodes[k]).kind != DriverNodeKind::BoneSet)
            ==> !needs_pre_ik(a.rig, d),
{
}

/// The bones that carry an IK chain are listed, and no others.
pub proof fn law_ik_carriers(r: RigView, i: int)
    requires
        0 <= i < r.bones.len(),
    ensures
        crate::evaluate::supports_ik(r, r.bones[i].id) ==> ik_carriers(r).contains(r.bones[i].id),
        forall|x: BoneId| #[trigger] ik_carriers(r).contains(x) ==> crate::evaluate::supports_ik(r, x),
{
    let p = |b: BoneView| crate::evaluate::supports_ik(r, b.id);
    let kept = r.bones.filter(p);
    lemma_filter_contains(r.bones, p, r.bones[i]);
    assert(r.bones.contains(r.bones[i]));
    if crate::evaluate::supports_ik(r, r.bones[i].id) {
        let k = choose|k: int| 0 <= k < kept.len() && kept[k] == r.bones[i];
        assert(ik_carriers(r)[k] == r.bones[i].id);
    }
    assert forall|x: BoneId| #[trigger] ik_carriers(r).contains(x) implies crate::evaluate::supports_ik(r, x) by {
        let k = choose|k: int| 0 <= k < ik_carriers(r).len() && ik_carriers(r)[k] == x;
        assert(kept.contains(kept[k]));
        lemma_filter_contains(r.bones, p, kept[k]);
    }
}

/// The name of a shape key is the one in its mesh.
pub proof fn law_shape_name(meshes: Seq<MeshView>, h: MeshHandle, i: usize, k: int)
    requires
        forall|x: int, y: int|
            0 <= x < y < meshes.len() ==> (#[trigger] meshes[x]).handle != (#[trigger] meshes[y]).handle,
    ensures
        0 <= k < meshes.len() && meshes[k].handle == h && i < meshes[k].morph_targets.len() ==> shape_name(meshes, h, i)
            == Some(meshes[k].morph_targets[i as int]),
        (forall|j: int| 0 <= j < meshes.len() ==> (#[trigger] meshes[j]).handle != h) ==> shape_name(meshes, h, i) is None,
{
    if 0 <= k < meshes.len() && meshes[k].handle == h && i < meshes[k].morph_targets.len() {
        assert(crate::shapes_panel::mesh_is(meshes, h, k));
        let j = crate::drivers_panel::shape_at(meshes, h, i);
        assert(j == k) by {
            if j < k {
                assert(meshes[j].handle != meshes[k].handle);
            } else if k < j {
                assert(meshes[k].handle != meshes[j].handle);
            }
        }
    }
}

/// The target of a chain is that of the chain with its number, and the root of a
/// soft chain the first bone of the one with its number.
pub proof fn law_chain_bones(cs: Seq<IkView>, ss: Seq<SoftView>, id: u32, i: int)
    requires
        forall|x: int, y: int| 0 <= x < y < cs.len() ==> (#[trigger] cs[x]).id != (#[trigger] cs[y]).id,
        forall|x: int, y: int| 0 <= x < y < ss.len() ==> (#[trigger] ss[x]).id != (#[trigger] ss[y]).id,
    ensures
        0 <= i < cs.len() && cs[i].id == id ==> target_of(cs, id) == Some(cs[i].target),
        (forall|j: int| 0 <= j < cs.len() ==> (#[trigger] cs[j]).id != id) ==> target_of(cs, id) is None,
        0 <= i < ss.len() && ss[i].id == id ==> soft_root(ss, id) == Some(ss[i].bones[0]),
        (forall|j: int| 0 <= j < ss.len() ==> (#[trigger] ss[j]).id != id) ==> soft_root(ss, id) is None,
{
    if 0 <= i < cs.len() && cs[i].id == id {
        assert(ik_at(cs, id, i));
        let j = crate::bones_panel::ik_place(cs, id);
        assert(j == i) by {
            if j < i {
                assert(cs[j].id != cs[i].id);
            } else if i < j {
                assert(cs[i].id != cs[j].id);
            }
        }
    }
    if 0 <= i < ss.len() && ss[i].id == id {
        assert(soft_at(ss, id, i));
        let j = crate::bones_panel::soft_place(ss, id);
        assert(j == i) by {
            if j < i {
                assert(ss[j].id != ss[i].id);
            } else if i < j {
                assert(ss[i].id != ss[j].id);
            }
        }
    }
}

/// Deleting a bone deletes all that is doomed with it, from document and scene,
/// and nothing else; deleting what is no bone changes nothing.
pub proof fn law_subtree_deleted(r0: RigView, s0: SceneView, id: BoneId, r1: RigView, s1: SceneView, x: BoneId)
    requires
        subtree_deleted(r0, s0, id, r1, s1),
    ensures
        !has_bone(r0.bones, id) ==> r1 == r0 && s1 == s0,
        has_bone(r0.bones, id) && has_bone(r0.bones, x) ==> (has_bone(r1.bones, x) <==> !doomed(r0, id).contains(x)),
        has_bone(r0.bones, id) ==> (r1.selected.contains(x) <==> r0.selected.contains(x) && !doomed(r0, id).contains(x)),
        has_bone(r0.bones, id) ==> s1.meshes == s0.meshes && s1.skins == s0.skins && r1.drivers == r0.drivers,
{
    if has_bone(r0.bones, id) && has_bone(r0.bones, x) {
        let i = choose|i: int| crate::bones::bone_at(r0.bones, x, i);
        crate::bone_laws::law_pruned(r0.bones, doomed(r0, id), i, x);
        if !doomed(r0, id).contains(x) {
            let out = r1.bones;
            let k = choose|k: int| 0 <= k < out.len() && (#[trigger] out[k]).id == r0.bones[i].id;
            assert(crate::bones::bone_at(out, x, k));
        }
    }
}

/// Removing a chain that is not there changes nothing.
pub proof fn law_chain_unknown(r0: RigView, s0: SceneView, id: u32, r1: RigView, s1: SceneView)
    requires
        chain_deleted(r0, s0, id, r1, s1),
        forall|i: int| 0 <= i < r0.ik_chains.len() ==> (#[trigger] r0.ik_chains[i]).id != id,
    ensures
        r1 == r0,
        s1 == s0,
{
}

/// What a chain is listed as tells whether it is on.
pub proof fn law_chain_text(name: Seq<char>)
    ensures
        chain_text(name, true) == "● "@ + name,
        chain_text(name, false) == "○ "@ + name,
        switched_text(name, true) == name + " enabled"@,
        switched_text(name, false) == name + " muted"@,
{
}

/// What was dragged or inspected is let go of when bones go.
pub proof fn law_cut_off(a: AppView, rig: RigView, scene: SceneView, status: Seq<char>)
    ensures
        ({
            let b = cut_off(a, rig, scene, status);
            b.rig == rig && b.scene == scene && b.drag is None && b.edit_bone is None && b.status == status
        }),
{
}

} // verus!
