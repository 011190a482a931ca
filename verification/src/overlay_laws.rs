//! What the weight overlay and the skeleton show.

use vstd::prelude::*;
use crate::bones::BoneId;
use crate::geom::Scalar;
use crate::mesh_faces::{face_at, face_count, faces_of, Face};
use crate::order::less_than;
use crate::rig::{IkControlKind, IkView, RigView};
use crate::rig_chains::control_kind;
use crate::scene::{MeshHandle, NodeHandle, NodeView, SkinHandle, SkinView};
use crate::skeleton::{all_joints, all_sticks, child_sticks, sticks_of, JointLook, Stick};
use crate::weights::{
    face_pull, flags_of, heated, is_corner, joints_of, mesh_overlay, mesh_skin_of, needed_of, overlay_visible,
    part_overlay, parts_of, pull_of, pulls, pulls_of, HeatFace, MeshSkinView, SkinnedPart,
};

verus! {

/// A joint counts for the overlay exactly if its bone is selected.
pub proof fn law_flags(r: RigView, joints: Seq<NodeHandle>, i: int)
    requires
        0 <= i < joints.len(),
    ensures
        flags_of(r, joints).len() == joints.len(),
        flags_of(r, joints)[i] <==> r.selected.contains(BoneId { node: joints[i] }),
{
}

/// The overlay is shown where it is switched on and a bone is selected.
pub proof fn law_overlay_visible(r: RigView, id: BoneId)
    ensures
        r.show_weights && r.selected.contains(id) ==> overlay_visible(r),
        !r.show_weights ==> !overlay_visible(r),
        r.selected == Set::<BoneId>::empty() ==> !overlay_visible(r),
{
}

/// What is skinned are the nodes with both a mesh and a skin.
pub proof fn law_parts(nodes: Seq<NodeView>, p: SkinnedPart)
    ensures
        parts_of(nodes).contains(p) <==> exists|i: int|
            0 <= i < nodes.len() && (#[trigger] nodes[i]).handle == p.node && nodes[i].mesh == Some(p.mesh)
                && nodes[i].skin == Some(p.skin),
    decreases nodes.len(),
{
    if nodes.len() > 0 {
        let t = nodes.drop_last();
        let n = nodes[nodes.len() - 1];
        let was = parts_of(t);
        let all = parts_of(nodes);
        law_parts(t, p);
        let own = n.handle == p.node && n.mesh == Some(p.mesh) && n.skin == Some(p.skin);
        assert(all.contains(p) <==> was.contains(p) || own) by {
            if was.contains(p) {
                let k = choose|k: int| 0 <= k < was.len() && was[k] == p;
                assert(all[k] == p);
            }
            if own {
                assert(all[was.len() as int] == p);
            }
            if all.contains(p) && !was.contains(p) {
                let k = choose|k: int| 0 <= k < all.len() && all[k] == p;
                if k < was.len() {
                    assert(was[k] == p);
                }
            }
        }
        if was.contains(p) {
            let i = choose|i: int|
                0 <= i < t.len() && (#[trigger] t[i]).handle == p.node && t[i].mesh == Some(p.mesh) && t[i].skin
                    == Some(p.skin);
            assert(nodes[i] == t[i]);
        }
        if exists|i: int|
            0 <= i < nodes.len() && (#[trigger] nodes[i]).handle == p.node && nodes[i].mesh == Some(p.mesh)
                && nodes[i].skin == Some(p.skin) {
            let i = choose|i: int|
                0 <= i < nodes.len() && (#[trigger] nodes[i]).handle == p.node && nodes[i].mesh == Some(p.mesh)
                    && nodes[i].skin == Some(p.skin);
            if i < t.len() {
                assert(t[i] == nodes[i]);
            }
        }
    }
}

/// A vertex that no selected joint pulls on is not pulled at all, and one with a
/// weight to a selected joint at least that much.
pub proof fn law_vertex_pull(
    flags: Seq<bool>,
    joints: Seq<[u16; 4]>,
    weights: Seq<[Scalar; 4]>,
    n: nat,
    i: int,
    k: int,
)
    requires
        0 <= i < n,
        0 <= k < 4,
    ensures
        pulls_of(flags, joints, weights, n).len() == n,
        joints[i]@[k] < flags.len() && flags[joints[i]@[k] as int] ==> !less_than(
            pulls_of(flags, joints, weights, n)[i],
            weights[i]@[k],
        ),
        (forall|j: int|
            0 <= j < 4 ==> !(#[trigger] joints[i]@[j] < flags.len() && flags[joints[i]@[j] as int])) ==> pulls_of(
            flags,
            joints,
            weights,
            n,
        )[i].bits == 0,
{
    crate::weights::law_pull(flags, joints[i], weights[i], 4);
    let w = weights[i];
    if joints[i]@[k] < flags.len() && flags[joints[i]@[k] as int] {
        assert(pulls(flags, joints[i], k));
        assert(!less_than(pull_of(flags, joints[i], w, 4), w@[k]));
    }
    if forall|j: int| 0 <= j < 4 ==> !(#[trigger] joints[i]@[j] < flags.len() && flags[joints[i]@[j] as int]) {
        let js = joints[i];
        assert(!(js@[0] < flags.len() && flags[js@[0] as int]));
        assert(!(js@[1] < flags.len() && flags[js@[1] as int]));
        assert(!(js@[2] < flags.len() && flags[js@[2] as int]));
        assert(!(js@[3] < flags.len() && flags[js@[3] as int]));
        reveal_with_fuel(pull_of, 5);
    }
}

/// A triangle is pulled as strongly as the strongest of its corners.
pub proof fn law_face_pull(w: Seq<Scalar>, f: Face)
    requires
        f.a < w.len() && f.b < w.len() && f.c < w.len(),
    ensures
        !less_than(face_pull(w, f), w[f.a as int]),
        !less_than(face_pull(w, f), w[f.b as int]),
        !less_than(face_pull(w, f), w[f.c as int]),
        face_pull(w, f) == w[f.a as int] || face_pull(w, f) == w[f.b as int] || face_pull(w, f) == w[f.c as int],
{
}

/// The overlay has every triangle that is pulled by a thousandth or more.
pub proof fn law_heated_all(faces: Seq<Face>, w: Seq<Scalar>, i: int)
    requires
        0 <= i < faces.len(),
        !less_than(face_pull(w, faces[i]), Scalar { bits: 0x3A83_126F }),
    ensures
        heated(faces, w).contains(HeatFace { face: faces[i], weight: face_pull(w, faces[i]) }),
    decreases faces.len(),
{
    let t = faces.drop_last();
    let was = heated(t, w);
    let all = heated(faces, w);
    let x = HeatFace { face: faces[i], weight: face_pull(w, faces[i]) };
    if i < t.len() {
        law_heated_all(t, w, i);
        let k = choose|k: int| 0 <= k < was.len() && was[k] == x;
        assert(all[k] == x);
    } else {
        assert(all[was.len() as int] == x);
    }
}

/// A vertex has to be placed exactly if it is a corner of a triangle shown.
pub proof fn law_needed(faces: Seq<HeatFace>, n: nat, i: int)
    requires
        0 <= i < n,
    ensures
        needed_of(faces, n).len() == n,
        needed_of(faces, n)[i] <==> exists|k: int|
            0 <= k < faces.len() && ((#[trigger] faces[k]).face.a == i || faces[k].face.b == i || faces[k].face.c == i),
{
    if needed_of(faces, n)[i] {
        let k = choose|k: int| 0 <= k < faces.len() && is_corner((#[trigger] faces[k]).face, i);
        assert(faces[k].face.a == i || faces[k].face.b == i || faces[k].face.c == i);
    }
    if exists|k: int|
        0 <= k < faces.len() && ((#[trigger] faces[k]).face.a == i || faces[k].face.b == i || faces[k].face.c == i) {
        let k = choose|k: int|
            0 <= k < faces.len() && ((#[trigger] faces[k]).face.a == i || faces[k].face.b == i || faces[k].face.c
                == i);
        assert(is_corner(faces[k].face, i));
    }
}

/// Triangles are three indices each, in order, and those that point past the
/// vertices are left out.
pub proof fn law_faces(indices: Seq<u32>, n: nat, t: int, f: Face)
    requires
        0 <= t <= face_count(indices),
    ensures
        faces_of(indices, n, t).contains(f) <==> exists|i: int|
            0 <= i < t && f == #[trigger] face_at(indices, i) && f.a < n && f.b < n && f.c < n,
        3 * face_count(indices) <= indices.len() < 3 * face_count(indices) + 3,
    decreases t,
{
    if t > 0 {
        law_faces(indices, n, t - 1, f);
        let was = faces_of(indices, n, t - 1);
        let all = faces_of(indices, n, t);
        let x = face_at(indices, t - 1);
        if x.a < n && x.b < n && x.c < n {
            assert(all[was.len() as int] == x);
            if was.contains(f) {
                let k = choose|k: int| 0 <= k < was.len() && was[k] == f;
                assert(all[k] == f);
            }
            if all.contains(f) && f != x {
                let k = choose|k: int| 0 <= k < all.len() && all[k] == f;
                assert(was[k] == f);
            }
        }
        if was.contains(f) {
            let i = choose|i: int|
                0 <= i < t - 1 && f == #[trigger] face_at(indices, i) && f.a < n && f.b < n && f.c < n;
            assert(f == face_at(indices, i));
        }
        if exists|i: int| 0 <= i < t && f == #[trigger] face_at(indices, i) && f.a < n && f.b < n && f.c < n {
            let i = choose|i: int|
                0 <= i < t && f == #[trigger] face_at(indices, i) && f.a < n && f.b < n && f.c < n;
            if i < t - 1 {
                assert(f == face_at(indices, i));
            }
        }
    }
}

/// The corners of triangle `t` are its three indices.
pub proof fn law_face_at(indices: Seq<u32>, t: int)
    requires
        0 <= t < face_count(indices),
    ensures
        face_at(indices, t).a == indices[3 * t],
        face_at(indices, t).b == indices[3 * t + 1],
        face_at(indices, t).c == indices[3 * t + 2],
{
}

/// The joints of a skin are those of its first entry in the table.
pub proof fn law_joints_of(skins: Seq<SkinView>, h: SkinHandle, k: int, i: int)
    requires
        0 <= k <= skins.len(),
    ensures
        0 <= i < k && skins[i].handle == h && (forall|j: int| 0 <= j < i ==> (#[trigger] skins[j]).handle != h)
            ==> joints_of(skins, h, k) == Some(skins[i].joints),
        (forall|j: int| 0 <= j < k ==> (#[trigger] skins[j]).handle != h) ==> joints_of(skins, h, k) is None,
    decreases k,
{
    if k > 0 {
        law_joints_of(skins, h, k - 1, i);
        if i == k - 1 && forall|j: int| 0 <= j < i ==> (#[trigger] skins[j]).handle != h {
            law_joints_of(skins, h, k - 1, 0);
        }
    }
}

/// The weights of a mesh are those of its first entry in the table.
pub proof fn law_mesh_skin_of(ms: Seq<MeshSkinView>, h: MeshHandle, k: int, i: int)
    requires
        0 <= k <= ms.len(),
    ensures
        0 <= i < k && ms[i].handle == h && (forall|j: int| 0 <= j < i ==> (#[trigger] ms[j]).handle != h)
            ==> mesh_skin_of(ms, h, k) == Some(ms[i]),
        (forall|j: int| 0 <= j < k ==> (#[trigger] ms[j]).handle != h) ==> mesh_skin_of(ms, h, k) is None,
    decreases k,
{
    if k > 0 {
        law_mesh_skin_of(ms, h, k - 1, i);
        if i == k - 1 && forall|j: int| 0 <= j < i ==> (#[trigger] ms[j]).handle != h {
            law_mesh_skin_of(ms, h, k - 1, 0);
        }
    }
}

/// A part shows what its own skin and mesh give; nothing where no joint of the
/// skin is selected.
pub proof fn law_part_overlay(r: RigView, skins: Seq<SkinView>, ms: Seq<MeshSkinView>, p: SkinnedPart)
    ensures
        part_overlay(r, skins, ms, p) matches Some(o) ==> {
            &&& o.part == p && o.faces.len() > 0
            &&& exists|id: BoneId| #[trigger] r.selected.contains(id)
        },
{
    if part_overlay(r, skins, ms, p) is Some {
        let joints = joints_of(skins, p.skin, skins.len() as int)->0;
        let flags = flags_of(r, joints);
        let i = choose|i: int| 0 <= i < flags.len() && flags[i] == true;
        assert(r.selected.contains(BoneId { node: joints[i] }));
    }
}

/// A mesh without joints or without weights shows nothing.
pub proof fn law_unskinned(p: SkinnedPart, flags: Seq<bool>, m: MeshSkinView)
    ensures
        m.joints is None || m.weights is None ==> mesh_overlay(p, flags, m) is None,
{
}

proof fn lemma_child_sticks(
    ik: Seq<IkView>,
    bone: BoneId,
    kids: Seq<BoneId>,
    selected: bool,
    k: int,
    s: Stick,
)
    requires
        0 <= k <= kids.len(),
    ensures
        child_sticks(ik, bone, kids, selected, k).contains(s) <==> s.bone == bone && s.selected == selected && exists|i: int|
            0 <= i < k && control_kind(ik, #[trigger] kids[i]) is None && s.tip == Some(kids[i]),
    decreases k,
{
    if k > 0 {
        lemma_child_sticks(ik, bone, kids, selected, k - 1, s);
        let was = child_sticks(ik, bone, kids, selected, k - 1);
        let all = child_sticks(ik, bone, kids, selected, k);
        if control_kind(ik, kids[k - 1]) is None {
            assert(all[was.len() as int].tip == Some(kids[k - 1]));
            if was.contains(s) {
                let m = choose|m: int| 0 <= m < was.len() && was[m] == s;
                assert(all[m] == s);
            }
            if all.contains(s) {
                let m = choose|m: int| 0 <= m < all.len() && all[m] == s;
                if m < was.len() {
                    assert(was[m] == s);
                } else {
                    assert(control_kind(ik, kids[k - 1]) is None);
                }
            }
        }
        if was.contains(s) {
            let i = choose|i: int|
                0 <= i < k - 1 && control_kind(ik, #[trigger] kids[i]) is None && s.tip == Some(kids[i]);
            assert(control_kind(ik, kids[i]) is None);
        }
        if s.bone == bone && s.selected == selected && exists|i: int|
            0 <= i < k && control_kind(ik, #[trigger] kids[i]) is None && s.tip == Some(kids[i]) {
            let i = choose|i: int|
                0 <= i < k && control_kind(ik, #[trigger] kids[i]) is None && s.tip == Some(kids[i]);
            if i < k - 1 {
                assert(control_kind(ik, kids[i]) is None);
            } else {
                assert(all[was.len() as int] == s);
            }
        }
    }
}

/// `s` is a stick of bone `i`: from the bone to a child, or of its own where it
/// has none; no control has or ends one, and it is lit where the bone is selected.
pub open spec fn is_stick(r: RigView, i: int, s: Stick) -> bool {
    let b = r.bones[i];
    &&& s.bone == b.id
    &&& s.selected <==> r.selected.contains(b.id)
    &&& control_kind(r.ik_chains, b.id) is None
    &&& b.children.len() == 0 ==> s.tip is None
    &&& b.children.len() > 0 ==> exists|k: int|
        0 <= k < b.children.len() && control_kind(r.ik_chains, #[trigger] b.children[k]) is None && s.tip == Some(
            b.children[k],
        )
}

/// The skeleton is drawn with the sticks of all bones, and with no others.
pub proof fn law_sticks(r: RigView, m: int, s: Stick)
    requires
        0 <= m <= r.bones.len(),
    ensures
        all_sticks(r, m).contains(s) <==> exists|i: int| 0 <= i < m && #[trigger] is_stick(r, i, s),
    decreases m,
{
    if m > 0 {
        law_sticks(r, m - 1, s);
        let b = r.bones[m - 1];
        let was = all_sticks(r, m - 1);
        let own = sticks_of(r, b);
        lemma_child_sticks(
            r.ik_chains,
            b.id,
            b.children,
            r.selected.contains(b.id),
            b.children.len() as int,
            s,
        );
        assert(own.contains(s) <==> is_stick(r, m - 1, s)) by {
            if control_kind(r.ik_chains, b.id) is None && b.children.len() == 0 {
                let one = Stick { bone: b.id, tip: None, selected: r.selected.contains(b.id) };
                assert(own[0] == one);
                if own.contains(s) {
                    assert(s == one);
                }
                if is_stick(r, m - 1, s) {
                    assert(s == one);
                }
            }
        }
        let all = was + own;
        if was.contains(s) {
            let k = choose|k: int| 0 <= k < was.len() && was[k] == s;
            assert(all[k] == s);
            let i = choose|i: int| 0 <= i < m - 1 && #[trigger] is_stick(r, i, s);
            assert(0 <= i < m && is_stick(r, i, s));
        }
        if own.contains(s) {
            let k = choose|k: int| 0 <= k < own.len() && own[k] == s;
            assert(all[was.len() + k] == s);
        }
        if all.contains(s) {
            let k = choose|k: int| 0 <= k < all.len() && all[k] == s;
            if k < was.len() {
                assert(was[k] == s);
            } else {
                assert(own[k - was.len()] == s);
            }
        }
        if exists|i: int| 0 <= i < m && #[trigger] is_stick(r, i, s) {
            let i = choose|i: int| 0 <= i < m && #[trigger] is_stick(r, i, s);
            if i < m - 1 {
                assert(0 <= i < m - 1 && is_stick(r, i, s));
            }
        }
    }
}

/// Every bone has a joint; controls look like targets and poles until they are
/// selected, other bones plain.
pub proof fn law_joints(r: RigView, i: int)
    requires
        0 <= i < r.bones.len(),
    ensures
        ({
            let j = all_joints(r)[i];
            let id = r.bones[i].id;
            let c = control_kind(r.ik_chains, id);
            &&& all_joints(r).len() == r.bones.len() && j.bone == id
            &&& c is None && r.selected.contains(id) ==> j.look == JointLook::Selected
            &&& c is None && !r.selected.contains(id) ==> j.look == JointLook::Plain
            &&& c is Some && r.selected.contains(id) ==> j.look == JointLook::SelectedControl
            &&& c == Some(IkControlKind::Target) && !r.selected.contains(id) ==> j.look == JointLook::Target
            &&& c == Some(IkControlKind::Pole) && !r.selected.contains(id) ==> j.look == JointLook::Pole
        }),
{
}

} // verus!
