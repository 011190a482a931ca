//! What a new IK chain, soft chain or collider is made of, and when there is none.

use vstd::prelude::*;
use crate::bones::{ancestor, bone_pos, depth_of, has_bone, kids_of, parent_of, BoneId, BoneView};
use crate::rig::{IkControlKind, IkView, RigView, SoftView};
use crate::rig_chains::{
    control_kind, control_local, first_on_tip, first_soft, fresh_soft, ik_count, ik_created, ik_plan, ik_scene, ik_switched,
    in_soft, name_or, soft_lengths, soft_plan, soft_switched, tip_taken, without_ik, IkGeometry, SoftGeometry,
};
use crate::rig_paths::{deepest, path_down, run_stops_at, soft_run, MAX_SOFT_BONES};
use crate::geom::{Quat, Scalar, Vec3};
use crate::order::{less_than, nan};
use crate::scene::SceneView;

verus! {

/// An IK chain rotates as many bones as asked for, at least one and at most 32.
pub proof fn law_ik_count(n: usize)
    ensures
        1 <= n <= 32 ==> ik_count(n) == n,
        n == 0 ==> ik_count(n) == 1,
        n > 32 ==> ik_count(n) == 32,
{
}

/// Going up one more is going to the parent.
proof fn lemma_up(r: RigView, x: BoneId, n: nat)
    requires
        n >= 1,
    ensures
        ancestor(r.bones, x, n) == (match ancestor(r.bones, x, (n - 1) as nat) {
            Some(a) => parent_of(r.bones, a),
            None => None,
        }),
{
}

proof fn lemma_above(r: RigView, x: BoneId, a: nat, b: nat)
    requires
        a <= b,
        ancestor(r.bones, x, b) is Some,
    ensures
        ancestor(r.bones, x, a) is Some,
    decreases b,
{
    if a < b {
        lemma_above(r, x, a, (b - 1) as nat);
    }
}

/// The bones of a new IK chain are those above its tip, root first: each is the
/// parent of the next, and the last one the parent of the tip.
pub proof fn law_ik_plan_bones(r: RigView, tip: BoneId, n: usize, i: int)
    requires
        ik_plan(r, tip, n) is Ok,
    ensures
        ({
            let bones = ik_plan(r, tip, n)->Ok_0;
            &&& bones.len() == ik_count(n)
            &&& parent_of(r.bones, tip) == Some(bones.last())
            &&& 0 <= i && i + 1 < bones.len() ==> parent_of(r.bones, bones[i + 1]) == Some(bones[i])
        }),
{
    let c = ik_count(n);
    let bones = ik_plan(r, tip, n)->Ok_0;
    lemma_above(r, tip, 1, c);
    lemma_up(r, tip, 1);
    assert(ancestor(r.bones, tip, 0) == Some(tip));
    assert(bones.last() == ancestor(r.bones, tip, 1)->0);
    if 0 <= i && i + 1 < bones.len() {
        let m = (c - i) as nat;
        lemma_above(r, tip, m, c);
        lemma_above(r, tip, (m - 1) as nat, c);
        lemma_up(r, tip, m);
        assert(bones[i] == ancestor(r.bones, tip, m)->0);
        assert(bones[i + 1] == ancestor(r.bones, tip, (m - 1) as nat)->0);
    }
}

/// An IK chain is refused on a tip that has one, on a control bone, on a bone
/// without parent and where too few bones stand above; else there is one.
pub proof fn law_ik_refused(r: RigView, tip: BoneId, n: usize)
    ensures
        (exists|i: int| 0 <= i < r.ik_chains.len() && (#[trigger] r.ik_chains[i]).tip == tip) ==> ik_plan(
            r,
            tip,
            n,
        ) is Err,
        (exists|i: int|
            0 <= i < r.ik_chains.len() && ((#[trigger] r.ik_chains[i]).target == tip || r.ik_chains[i].pole == tip))
            ==> ik_plan(r, tip, n) is Err,
        parent_of(r.bones, tip) is None ==> ik_plan(r, tip, n) is Err,
        ancestor(r.bones, tip, ik_count(n)) is None ==> ik_plan(r, tip, n) is Err,
        ik_plan(r, tip, n) is Err ==> {
            ||| exists|i: int| 0 <= i < r.ik_chains.len() && (#[trigger] r.ik_chains[i]).tip == tip
            ||| exists|i: int|
                0 <= i < r.ik_chains.len() && ((#[trigger] r.ik_chains[i]).target == tip || r.ik_chains[i].pole
                    == tip)
            ||| ancestor(r.bones, tip, ik_count(n)) is None
        },
{
    lemma_control(r.ik_chains, tip);
    assert(ancestor(r.bones, tip, 0) == Some(tip));
    lemma_up(r, tip, 1);
    if ancestor(r.bones, tip, ik_count(n)) is Some {
        lemma_above(r, tip, 1, ik_count(n));
    }
}

proof fn lemma_control(cs: Seq<IkView>, id: BoneId)
    ensures
        control_kind(cs, id) is Some <==> exists|i: int|
            0 <= i < cs.len() && ((#[trigger] cs[i]).target == id || cs[i].pole == id),
    decreases cs.len(),
{
    if cs.len() > 0 {
        let t = cs.skip(1);
        lemma_control(t, id);
        if exists|i: int| 0 <= i < t.len() && ((#[trigger] t[i]).target == id || t[i].pole == id) {
            let i = choose|i: int| 0 <= i < t.len() && ((#[trigger] t[i]).target == id || t[i].pole == id);
            assert(cs[i + 1] == t[i]);
        }
        if exists|i: int| 0 <= i < cs.len() && ((#[trigger] cs[i]).target == id || cs[i].pole == id) {
            let i = choose|i: int| 0 <= i < cs.len() && ((#[trigger] cs[i]).target == id || cs[i].pole == id);
            if i > 0 {
                assert(t[i - 1] == cs[i]);
            } else {
                assert(cs[0].target == id || cs[0].pole == id);
            }
        }
    }
}

/// The target of a chain is a target and its pole a pole, as far as no bone
/// controls two chains; a bone that controls none is neither.
pub proof fn law_control_role(cs: Seq<IkView>, id: BoneId, i: int)
    requires
        forall|j: int| 0 <= j < i ==> (#[trigger] cs[j]).target != id && cs[j].pole != id,
        0 <= i < cs.len(),
    ensures
        cs[i].target == id ==> control_kind(cs, id) == Some(IkControlKind::Target),
        cs[i].target != id && cs[i].pole == id ==> control_kind(cs, id) == Some(IkControlKind::Pole),
    decreases cs.len(),
{
    if i > 0 {
        let t = cs.skip(1);
        assert(cs[0].target != id && cs[0].pole != id);
        assert(t[i - 1] == cs[i]);
        assert forall|j: int| 0 <= j < i - 1 implies (#[trigger] t[j]).target != id && t[j].pole != id by {
            assert(t[j] == cs[j + 1]);
        }
        law_control_role(t, id, i - 1);
    }
}

/// The name of a bone is that of the bone, or the other one where there is none.
proof fn lemma_name(r: RigView, id: BoneId, other: Seq<char>)
    ensures
        has_bone(r.bones, id) ==> name_or(r.bones, id, other) == r.bones[bone_pos(r.bones, id)].name,
        !has_bone(r.bones, id) ==> name_or(r.bones, id, other) == other,
{
}

/// A new IK chain is on, has the next number, runs over the bones asked for to
/// its tip, and is controlled by two new roots that deform nothing: the target
/// at the target position and the pole at the pole position, both bound there.
/// The target is all that is selected, and the rest of the document stays.
pub proof fn law_ik_created(
    r: RigView,
    tip: BoneId,
    bones: Seq<BoneId>,
    target: BoneId,
    pole: BoneId,
    geo: IkGeometry,
    i: int,
)
    requires
        target != pole,
        r.next_ik_serial < u32::MAX,
        0 <= i < r.bones.len(),
    ensures
        ({
            let out = ik_created(r, tip, bones, target, pole, geo);
            let c = out.ik_chains.last();
            let n = r.bones.len() as int;
            &&& out.ik_chains.len() == r.ik_chains.len() + 1
            &&& out.ik_chains.drop_last() == r.ik_chains
            &&& c.id == r.next_ik_serial && out.next_ik_serial == r.next_ik_serial + 1
            &&& c.enabled && c.tip == tip && c.bones == bones && c.target == target && c.pole == pole
            &&& c.name == "IK_"@ + name_or(r.bones, tip, "IK"@) + "×"@ + crate::text::decimal_of(bones.len())
            &&& out.overlay_dirty
            &&& c.lengths.len() == geo.lengths@.len()
            &&& out.bones.len() == n + 2
            &&& out.bones[i] == r.bones[i]
            &&& out.bones[n].id == target && out.bones[n].parent is None && !out.bones[n].deform
            &&& out.bones[n + 1].id == pole && out.bones[n + 1].parent is None && !out.bones[n + 1].deform
            &&& out.bones[n].children.len() == 0 && out.bones[n + 1].children.len() == 0
            &&& out.bones[n].name == name_or(r.bones, tip, "IK"@) + ".IK"@
            &&& out.bones[n + 1].name == name_or(r.bones, tip, "IK"@) + ".Pole"@
            &&& out.selection == Some(target) && out.selected == Set::<BoneId>::empty().insert(target)
            &&& out.bind_locals.contains_key(target.node.key_of()) && out.bind_locals.contains_key(
                pole.node.key_of(),
            )
            &&& target.node.key_of() != pole.node.key_of() ==> out.bind_locals[target.node.key_of()].translation
                == geo.target_pos && out.bind_locals[target.node.key_of()].rotation == geo.target_rot
            &&& out.bind_locals[pole.node.key_of()].translation == geo.pole_pos
            &&& out.soft_chains == r.soft_chains && out.colliders == r.colliders && out.drivers == r.drivers
            &&& out.mode == r.mode && out.tool == r.tool
        }),
{
    let out = ik_created(r, tip, bones, target, pole, geo);
    assert(out.ik_chains.drop_last() =~= r.ik_chains);
}

/// The scene gets two nodes, where target and pole are bound; the others stay.
pub proof fn law_ik_scene(
    r: RigView,
    s: SceneView,
    tip: BoneId,
    target: BoneId,
    pole: BoneId,
    geo: IkGeometry,
    i: int,
)
    ensures
        ({
            let out = ik_scene(r, s, tip, target, pole, geo);
            let n = s.nodes.len() as int;
            &&& out.nodes.len() == n + 2
            &&& 0 <= i < n ==> out.nodes[i] == s.nodes[i]
            &&& out.nodes[n].handle == target.node && out.nodes[n + 1].handle == pole.node
            &&& out.nodes[n].parent is None && out.nodes[n + 1].parent is None
            &&& out.nodes[n].local.translation == geo.target_pos && out.nodes[n].local.rotation == geo.target_rot
            &&& out.nodes[n + 1].local.translation == geo.pole_pos
            &&& out.meshes == s.meshes && out.skins == s.skins
        }),
{
}

/// A control stands as it is told, without scaling.
pub proof fn law_control_local(pos: Vec3, rot: Quat)
    ensures
        control_local(pos, rot).translation == pos,
        control_local(pos, rot).rotation == rot,
        control_local(pos, rot).scale.x.bits == 0x3F80_0000,
        control_local(pos, rot).scale.y.bits == 0x3F80_0000,
        control_local(pos, rot).scale.z.bits == 0x3F80_0000,
{
}

/// Removing a chain by its place leaves all others.
pub proof fn law_without_ik(r: RigView, i: int, j: int)
    requires
        0 <= i < r.ik_chains.len(),
        0 <= j < r.ik_chains.len(),
    ensures
        without_ik(r, i).ik_chains.len() == r.ik_chains.len() - 1,
        j < i ==> without_ik(r, i).ik_chains[j] == r.ik_chains[j],
        j > i ==> without_ik(r, i).ik_chains[j - 1] == r.ik_chains[j],
        without_ik(r, i).bones == r.bones && without_ik(r, i).selected == r.selected,
{
}

/// A soft chain is refused on a control bone, where the bone or one of its run
/// is in a soft chain already, and where the run is shorter than two bones; else
/// it takes the run that it was given, with its anchor.
pub proof fn law_soft_plan(r: RigView, x: BoneId)
    ensures
        (exists|i: int|
            0 <= i < r.ik_chains.len() && ((#[trigger] r.ik_chains[i]).target == x || r.ik_chains[i].pole == x))
            ==> soft_plan(r, x) is Err,
        (exists|i: int| 0 <= i < r.soft_chains.len() && (#[trigger] r.soft_chains[i]).bones.contains(x))
            ==> soft_plan(r, x) is Err,
        soft_run(r.bones, x) is Err ==> soft_plan(r, x) is Err,
        soft_plan(r, x) matches Ok(run) ==> {
            &&& soft_run(r.bones, x) == Ok::<_, Seq<char>>(run)
            &&& run.1.len() >= 2
            &&& forall|i: int, j: int|
                0 <= i < run.1.len() && 0 <= j < r.soft_chains.len() ==> !#[trigger] r.soft_chains[j].bones.contains(
                    #[trigger] run.1[i],
                )
        },
{
    lemma_control(r.ik_chains, x);
    if soft_plan(r, x) is Ok {
        let run = soft_plan(r, x)->Ok_0;
        assert forall|i: int, j: int| 0 <= i < run.1.len() && 0 <= j < r.soft_chains.len() implies !#[trigger] r.soft_chains[j].bones.contains(
            #[trigger] run.1[i],
        ) by {
            if r.soft_chains[j].bones.contains(run.1[i]) {
                assert(in_soft(r.soft_chains, run.1[i]));
            }
        }
    }
}

/// A soft chain of two or more bones that nothing speaks against is made.
pub proof fn law_soft_accepted(r: RigView, x: BoneId)
    requires
        soft_run(r.bones, x) is Ok,
        soft_run(r.bones, x)->Ok_0.1.len() >= 2,
        forall|i: int|
            0 <= i < r.ik_chains.len() ==> (#[trigger] r.ik_chains[i]).target != x && r.ik_chains[i].pole != x,
        forall|j: int| 0 <= j < r.soft_chains.len() ==> !(#[trigger] r.soft_chains[j]).bones.contains(x),
        forall|i: int, j: int|
            0 <= i < soft_run(r.bones, x)->Ok_0.1.len() && 0 <= j < r.soft_chains.len()
                ==> !#[trigger] r.soft_chains[j].bones.contains(
                #[trigger] soft_run(r.bones, x)->Ok_0.1[i],
            ),
    ensures
        soft_plan(r, x) is Ok,
{
    lemma_control(r.ik_chains, x);
    assert(!in_soft(r.soft_chains, x));
    let run = soft_run(r.bones, x)->Ok_0;
    assert forall|i: int| 0 <= i < run.1.len() implies !in_soft(r.soft_chains, #[trigger] run.1[i]) by {
        if in_soft(r.soft_chains, run.1[i]) {
            let j = choose|j: int|
                0 <= j < r.soft_chains.len() && (#[trigger] r.soft_chains[j]).bones.contains(run.1[i]);
            assert(!r.soft_chains[j].bones.contains(run.1[i]));
        }
    }
}

/// A new soft chain is on, is yet to be simulated, and starts with gravity of
/// 9.8, stiffness 45, damping 2.5, no inertia and no slack.
pub proof fn law_fresh_soft(id: u32, name: Seq<char>, anchor: BoneId, bones: Seq<BoneId>, geo: SoftGeometry)
    ensures
        ({
            let c = fresh_soft(id, name, anchor, bones, geo);
            &&& c.id == id && c.name == name && c.anchor == anchor && c.bones == bones
            &&& c.enabled && !c.initialized
            &&& c.curr_pos.len() == 0 && c.prev_pos.len() == 0
            &&& c.lengths.len() == geo.lengths@.len()
            &&& c.tip_length == geo.tip_length && c.support_normal_local == geo.support_normal_local
            &&& c.gravity.bits == 0x411C_CCCD && c.stiffness.bits == 0x4234_0000 && c.damping.bits == 0x4020_0000
            &&& c.inertia.bits == 0 && c.grab_relax.bits == 0 && c.max_angle.bits == 0x3FD4_3B67
            &&& c.prev_root_vel.x.bits == 0 && c.prev_root_vel.y.bits == 0 && c.prev_root_vel.z.bits == 0
        }),
{
}

/// Switching a chain on or off switches that chain alone; a soft chain that is
/// switched on starts from the pose.
pub proof fn law_switched(c: IkView, d: SoftView, id: u32, on: bool)
    ensures
        c.id == id ==> ik_switched(c, id, on).enabled == on,
        ik_switched(c, id, on) == (IkView { enabled: ik_switched(c, id, on).enabled, ..c }),
        c.id != id ==> ik_switched(c, id, on) == c,
        d.id == id ==> soft_switched(d, id, on).enabled == on,
        d.id == id && on ==> !soft_switched(d, id, on).initialized,
        d.id == id && !on ==> soft_switched(d, id, on).initialized == d.initialized,
        soft_switched(d, id, on) == (SoftView {
            enabled: soft_switched(d, id, on).enabled,
            initialized: soft_switched(d, id, on).initialized,
            ..d
        }),
        d.id != id ==> soft_switched(d, id, on) == d,
{
}

/// Why a soft chain cannot be made, in the order in which it is looked into.
pub proof fn law_soft_reasons(r: RigView, x: BoneId)
    ensures
        control_kind(r.ik_chains, x) is Some ==> soft_plan(r, x) == Err::<(BoneId, Seq<BoneId>), Seq<char>>(
            "Cannot create Soft on an IK control bone"@,
        ),
        control_kind(r.ik_chains, x) is None && in_soft(r.soft_chains, x) ==> soft_plan(r, x) == Err::<
            (BoneId, Seq<BoneId>),
            Seq<char>,
        >("Bone already in a Soft chain"@),
        control_kind(r.ik_chains, x) is None && !in_soft(r.soft_chains, x) && soft_run(r.bones, x) is Err ==> soft_plan(
            r,
            x,
        ) == soft_run(r.bones, x),
        control_kind(r.ik_chains, x) is None && !in_soft(r.soft_chains, x) && soft_run(r.bones, x) is Ok && soft_run(
            r.bones,
            x,
        )->Ok_0.1.len() < 2 ==> soft_plan(r, x) == Err::<(BoneId, Seq<BoneId>), Seq<char>>(
            "Need at least 2 bones (root + tip). Extrude a child first"@,
        ),
        !has_bone(r.bones, x) ==> soft_run(r.bones, x) == Err::<(BoneId, Seq<BoneId>), Seq<char>>("Invalid bone"@),
{
}

/// A soft run goes down from parent to child and ends at the deepest bone below
/// the one asked for; it has at most 32 bones. Above it, the bones branch or the
/// skeleton begins.
pub proof fn law_soft_run(bs: Seq<BoneView>, x: BoneId, i: int)
    requires
        soft_run(bs, x) is Ok,
    ensures
        ({
            let (anchor, run) = soft_run(bs, x)->Ok_0;
            &&& 1 <= run.len() <= 32
            &&& run.last() == deepest(bs, x)
            &&& parent_of(bs, run[0]) == Some(anchor)
            &&& 0 < i < run.len() ==> parent_of(bs, run[i]) == Some(run[i - 1])
            &&& kids_of(bs, anchor).len() != 1 || parent_of(bs, anchor) is None
        }),
{
    let tip = deepest(bs, x);
    let d = (depth_of(bs, x) - 1) as nat;
    let k = choose|k: nat| k < MAX_SOFT_BONES && #[trigger] run_stops_at(bs, tip, d, k);
    let run = path_down(bs, tip, k);
    lemma_below(bs, tip, k + 1, k);
    assert(run[0] == ancestor(bs, tip, k)->0);
    assert(run.last() == ancestor(bs, tip, 0)->0);
    if 0 < i < run.len() {
        let n = (k - i) as nat;
        lemma_below(bs, tip, k + 1, n + 1);
        lemma_below(bs, tip, k + 1, n);
        assert(run[i] == ancestor(bs, tip, n)->0);
        assert(run[i - 1] == ancestor(bs, tip, n + 1)->0);
    }
}

proof fn lemma_below(bs: Seq<BoneView>, x: BoneId, n: nat, k: nat)
    requires
        ancestor(bs, x, n) is Some,
        k <= n,
    ensures
        ancestor(bs, x, k) is Some,
    decreases n,
{
    if k < n {
        lemma_below(bs, x, (n - 1) as nat, k);
    }
}

/// The first bone of a soft chain has no distance to keep; the others keep at
/// least a thousandth.
pub proof fn law_soft_lengths(v: Seq<Scalar>, i: int)
    ensures
        soft_lengths(v).len() == v.len(),
        v.len() > 0 ==> soft_lengths(v)[0] == (Scalar { bits: 0 }),
        0 < i < v.len() && !nan(v[i]) ==> !less_than(soft_lengths(v)[i], v[i]) && !less_than(
            soft_lengths(v)[i],
            Scalar { bits: 0x3A83_126F },
        ),
        0 < i < v.len() && less_than(Scalar { bits: 0x3A83_126F }, v[i]) ==> soft_lengths(v)[i] == v[i],
{
}

/// The chain of a tip is the first one on it, and the soft chain of a joint the
/// first one that has it.
pub proof fn law_first_chain(cs: Seq<IkView>, ss: Seq<SoftView>, id: BoneId, i: int, j: int)
    ensures
        first_on_tip(cs, id, i) && first_on_tip(cs, id, j) ==> i == j,
        first_on_tip(cs, id, i) ==> 0 <= i < cs.len() && cs[i].tip == id,
        first_on_tip(cs, id, i) && 0 <= j < cs.len() && cs[j].tip == id ==> i <= j,
        first_soft(ss, id, i) && first_soft(ss, id, j) ==> i == j,
        first_soft(ss, id, i) ==> 0 <= i < ss.len() && ss[i].bones.contains(id),
        first_soft(ss, id, i) && 0 <= j < ss.len() && ss[j].bones.contains(id) ==> i <= j,
        0 <= i < cs.len() ==> tip_taken(cs, cs[i].tip),
        (forall|k: int| 0 <= k < cs.len() ==> (#[trigger] cs[k]).tip != id) ==> !tip_taken(cs, id),
{
}

} // verus!
