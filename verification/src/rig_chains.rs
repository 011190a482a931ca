//! IK chains, soft chains and colliders: finding, creating and removing them.

use vstd::prelude::*;
use crate::bones::{ancestor, bone_pos, has_bone, kids_of, BoneId, BoneView};
use crate::driver::lists_bone;
use crate::forest_edit::{leaf, lemma_with_bone, with_bone};
use crate::geom::{
    identity_mat, identity_quat, mat_identity, quat_identity, scalar, scalar_of, splat3, vec3_splat, Quat, Scalar,
    Transform, Vec3, BITS_0_001, BITS_0_01, BITS_ONE, BITS_ZERO,
};
use crate::lists::{lemma_filter_ends, lemma_filter_step};
use crate::order::{at_least, larger, law_less_than};
use crate::rig::{
    ik_ok, soft_view, BoneCollider, IkChain, IkControlKind, IkView, RigDocument, RigView, SoftChain,
    SoftView,
};
use crate::rig_edit::{bone_node, fresh, lemma_collider_filter_ok, lemma_soft_filter_ok, single_deleted};
use crate::rig_paths::{reversed, soft_run};
use crate::scene::{node_at, node_get, NodeHandle, Scene, SceneView};
use crate::text::{decimal, decimal_of, join};

verus! {

/// The longest IK chain.
pub const MAX_IK_BONES: usize = 32;

/// Bit pattern of `9.8`.
pub const BITS_9_8: u32 = 0x411C_CCCD;

/// Bit pattern of `45.0`.
pub const BITS_STIFFNESS: u32 = 0x4234_0000;

/// Bit pattern of `2.5`.
pub const BITS_2_5: u32 = 0x4020_0000;

/// Bit pattern of 95 degrees in radians.
pub const BITS_95_DEGREES: u32 = 0x3FD4_3B67;

/// Bit pattern of `0.35`.
pub const BITS_SOFTNESS: u32 = 0x3EB3_3333;

/// The role of `id` in the first chain that has it as a control bone.
pub open spec fn control_kind(chains: Seq<IkView>, id: BoneId) -> Option<IkControlKind>
    decreases chains.len(),
{
    if chains.len() == 0 {
        None
    } else if chains[0].target == id {
        Some(IkControlKind::Target)
    } else if chains[0].pole == id {
        Some(IkControlKind::Pole)
    } else {
        control_kind(chains.skip(1), id)
    }
}

/// The first chain on tip `tip`.
pub open spec fn first_on_tip(chains: Seq<IkView>, tip: BoneId, i: int) -> bool {
    0 <= i < chains.len() && chains[i].tip == tip && forall|j: int|
        0 <= j < i ==> (#[trigger] chains[j]).tip != tip
}

pub open spec fn tip_taken(chains: Seq<IkView>, tip: BoneId) -> bool {
    exists|i: int| 0 <= i < chains.len() && (#[trigger] chains[i]).tip == tip
}

/// `id` is a joint of a soft chain.
pub open spec fn in_soft(chains: Seq<SoftView>, id: BoneId) -> bool {
    exists|i: int| 0 <= i < chains.len() && (#[trigger] chains[i]).bones.contains(id)
}

/// The first soft chain with joint `id`.
pub open spec fn first_soft(chains: Seq<SoftView>, id: BoneId, i: int) -> bool {
    0 <= i < chains.len() && chains[i].bones.contains(id) && forall|j: int|
        0 <= j < i ==> !(#[trigger] chains[j]).bones.contains(id)
}

/// The collider on bone `id` is number `i`.
pub open spec fn collider_at(cs: Seq<BoneCollider>, id: BoneId, i: int) -> bool {
    0 <= i < cs.len() && cs[i].bone == id
}

pub open spec fn has_collider(cs: Seq<BoneCollider>, id: BoneId) -> bool {
    exists|i: int| collider_at(cs, id, i)
}

/// The name of bone `id`, or `other` where it is none.
pub open spec fn name_or(bs: Seq<BoneView>, id: BoneId, other: Seq<char>) -> Seq<char> {
    if has_bone(bs, id) {
        bs[bone_pos(bs, id)].name
    } else {
        other
    }
}

/// How many bones an IK chain rotates when `n` are asked for.
pub open spec fn ik_count(n: usize) -> nat {
    if n < 1 {
        1
    } else if n > MAX_IK_BONES {
        MAX_IK_BONES as nat
    } else {
        n as nat
    }
}

/// The bones, root first, that an IK chain on `tip` rotates, or why there is none.
pub open spec fn ik_plan(r: RigView, tip: BoneId, n: usize) -> Result<Seq<BoneId>, Seq<char>> {
    let c = ik_count(n);
    if tip_taken(r.ik_chains, tip) {
        Err("IK already exists on this tip"@)
    } else if control_kind(r.ik_chains, tip) is Some {
        Err("Cannot create IK on a control bone"@)
    } else if ancestor(r.bones, tip, 1) is None {
        Err("Tip needs at least one parent bone"@)
    } else if ancestor(r.bones, tip, c) is None {
        Err("Not enough ancestors for this chain length"@)
    } else {
        Ok(Seq::new(c, |i: int| ancestor(r.bones, tip, (c - i) as nat)->0))
    }
}

/// Lengths as a chain keeps them: none below a thousandth.
pub open spec fn segment_lengths(measured: Seq<Scalar>) -> Seq<Scalar> {
    measured.map_values(|x: Scalar| larger(x, scalar_of(BITS_0_001)))
}

/// Lengths as a soft chain keeps them: zero for its root, which is pinned, and
/// none of the others below a thousandth.
pub open spec fn soft_lengths(measured: Seq<Scalar>) -> Seq<Scalar> {
    Seq::new(
        measured.len(),
        |i: int|
            if i == 0 {
                scalar_of(BITS_ZERO)
            } else {
                larger(measured[i], scalar_of(BITS_0_001))
            },
    )
}

/// Whatever was measured, every length that a chain keeps is a number and at
/// least a thousandth, but for the first of a soft chain, which is zero.
pub proof fn law_lengths(measured: Seq<Scalar>, i: int)
    requires
        0 <= i < measured.len(),
    ensures
        at_least(segment_lengths(measured)[i], scalar_of(BITS_0_001)),
        i > 0 ==> at_least(soft_lengths(measured)[i], scalar_of(BITS_0_001)),
        i == 0 ==> soft_lengths(measured)[i] == scalar_of(BITS_ZERO),
{
    law_less_than(scalar_of(BITS_0_001), scalar_of(BITS_0_001), scalar_of(BITS_0_001));
}

/// `measured`, none below a thousandth.
fn keep_segments(measured: &Vec<Scalar>) -> (r: Vec<Scalar>)
    ensures
        r@ == segment_lengths(measured@),
{
    let mut out: Vec<Scalar> = Vec::new();
    let mut i: usize = 0;
    while i < measured.len()
        invariant
            i <= measured@.len(),
            out@ == segment_lengths(measured@).take(i as int),
        decreases measured.len() - i,
    {
        out.push(measured[i].or_larger(&scalar(BITS_0_001)));
        assert(segment_lengths(measured@).take(i as int + 1) =~= segment_lengths(measured@).take(
            i as int,
        ).push(segment_lengths(measured@)[i as int]));
        i = i + 1;
    }
    assert(segment_lengths(measured@).take(i as int) =~= segment_lengths(measured@));
    out
}

/// `measured`, the first zero and none of the others below a thousandth.
fn keep_soft(measured: &Vec<Scalar>) -> (r: Vec<Scalar>)
    ensures
        r@ == soft_lengths(measured@),
{
    let mut out = keep_segments(measured);
    if out.len() > 0 {
        out.set(0, scalar(BITS_ZERO));
    }
    assert(out@ =~= soft_lengths(measured@));
    out
}

/// What the host computes from the pose for a new IK chain.
pub struct IkGeometry {
    /// Measured segment lengths, one per rotating bone.
    pub lengths: Vec<Scalar>,
    /// World position of the tip.
    pub target_pos: Vec3,
    /// World rotation of the tip, normalized.
    pub target_rot: Quat,
    pub pole_pos: Vec3,
}

pub open spec fn control_local(pos: Vec3, rot: Quat) -> Transform {
    Transform { translation: pos, rotation: rot, scale: vec3_splat(scalar_of(BITS_ONE)) }
}

/// `r` with an IK chain on `tip` over `bones`, controlled by the new bones
/// `target` and `pole`; the target ends up selected.
pub open spec fn ik_created(
    r: RigView,
    tip: BoneId,
    bones: Seq<BoneId>,
    target: BoneId,
    pole: BoneId,
    geo: IkGeometry,
) -> RigView {
    let name = name_or(r.bones, tip, "IK"@);
    RigView {
        bones: with_bone(
            with_bone(r.bones, leaf(target, name + ".IK"@, None, false)),
            leaf(pole, name + ".Pole"@, None, false),
        ),
        ik_chains: r.ik_chains.push(
            IkView {
                id: r.next_ik_serial,
                name: "IK_"@ + name + "×"@ + decimal_of(bones.len()),
                tip,
                bones,
                target,
                pole,
                enabled: true,
                lengths: segment_lengths(geo.lengths@),
                tip_rot_offset: quat_identity(),
            },
        ),
        next_ik_serial: (r.next_ik_serial + 1) as u32,
        selected: Set::empty().insert(target),
        selection: Some(target),
        overlay_dirty: true,
        bind_locals: r.bind_locals.insert(
            target.node.key_of(),
            control_local(geo.target_pos, geo.target_rot),
        ).insert(pole.node.key_of(), control_local(geo.pole_pos, quat_identity())),
        ..r
    }
}

/// The scene with the two control bones of a new IK chain.
pub open spec fn ik_scene(
    r: RigView,
    s: SceneView,
    tip: BoneId,
    target: BoneId,
    pole: BoneId,
    geo: IkGeometry,
) -> SceneView {
    let name = name_or(r.bones, tip, "IK"@);
    SceneView {
        nodes: s.nodes.push(
            bone_node(
                target.node,
                name + ".IK"@,
                None,
                control_local(geo.target_pos, geo.target_rot),
            ),
        ).push(
            bone_node(
                pole.node,
                name + ".Pole"@,
                None,
                control_local(geo.pole_pos, quat_identity()),
            ),
        ),
        ..s
    }
}

/// `r` without IK chain number `i`, its control bones still there.
pub open spec fn without_ik(r: RigView, i: int) -> RigView {
    RigView { ik_chains: r.ik_chains.remove(i), ..r }
}

/// From `r0` and `s0`, removing IK chain number `i` and then its target and its
/// pole leads to `r1` and `s1`.
pub open spec fn ik_removed(r0: RigView, s0: SceneView, i: int, r1: RigView, s1: SceneView) -> bool {
    exists|rm: RigView, sm: SceneView|
        single_deleted(without_ik(r0, i), s0, r0.ik_chains[i].target, rm, sm)
            && #[trigger] single_deleted(rm, sm, r0.ik_chains[i].pole, r1, s1)
}

/// The anchor and joints of a soft chain through `selected`, or why there is none.
pub open spec fn soft_plan(r: RigView, selected: BoneId) -> Result<(BoneId, Seq<BoneId>), Seq<char>> {
    if control_kind(r.ik_chains, selected) is Some {
        Err("Cannot create Soft on an IK control bone"@)
    } else if in_soft(r.soft_chains, selected) {
        Err("Bone already in a Soft chain"@)
    } else {
        match soft_run(r.bones, selected) {
            Err(e) => Err(e),
            Ok(run) => if run.1.len() < 2 {
                Err("Need at least 2 bones (root + tip). Extrude a child first"@)
            } else if exists|i: int|
                0 <= i < run.1.len() && in_soft(r.soft_chains, #[trigger] run.1[i]) {
                Err("Overlaps an existing Soft chain"@)
            } else {
                Ok(run)
            },
        }
    }
}

/// What the host computes from the pose for a new soft chain.
pub struct SoftGeometry {
    /// Measured rest lengths; the first is unused.
    pub lengths: Vec<Scalar>,
    pub tip_length: Scalar,
    pub support_normal_local: Vec3,
}

/// A new soft chain.
pub open spec fn fresh_soft(
    id: u32,
    name: Seq<char>,
    anchor: BoneId,
    bones: Seq<BoneId>,
    geo: SoftGeometry,
) -> SoftView {
    SoftView {
        id,
        name,
        anchor,
        bones,
        lengths: soft_lengths(geo.lengths@),
        tip_length: geo.tip_length,
        support_normal_local: geo.support_normal_local,
        enabled: true,
        gravity: scalar_of(BITS_9_8),
        stiffness: scalar_of(BITS_STIFFNESS),
        damping: scalar_of(BITS_2_5),
        inertia: scalar_of(BITS_ZERO),
        max_angle: scalar_of(BITS_95_DEGREES),
        prev_pos: Seq::empty(),
        curr_pos: Seq::empty(),
        prev_root_world: mat_identity(),
        prev_root_vel: vec3_splat(scalar_of(BITS_ZERO)),
        initialized: false,
        grab_relax: scalar_of(BITS_ZERO),
    }
}

/// What the host computes from the pose for a new capsule.
pub struct CapsuleGeometry {
    pub a_local: Vec3,
    pub b_local: Vec3,
    pub radius: Scalar,
}

/// Forgetting the first of distinct bones in a control search.
proof fn lemma_control_kind(chains: Seq<IkView>, id: BoneId, i: int)
    requires
        0 <= i <= chains.len(),
        forall|j: int|
            0 <= j < i ==> (#[trigger] chains[j]).target != id && chains[j].pole != id,
    ensures
        control_kind(chains, id) == control_kind(chains.skip(i), id),
    decreases i,
{
    if i == 0 {
        assert(chains.skip(0) =~= chains);
    } else {
        assert(chains[0].target != id);
        let t = chains.skip(1);
        assert forall|j: int| 0 <= j < i - 1 implies (#[trigger] t[j]).target != id && t[j].pole
            != id by {
            assert(t[j] == chains[j + 1]);
        }
        lemma_control_kind(t, id, i - 1);
        assert(t.skip(i - 1) =~= chains.skip(i));
    }
}

/// `id` is a control bone exactly when some chain has it as target or pole.
pub proof fn law_control_kind(chains: Seq<IkView>, id: BoneId)
    ensures
        control_kind(chains, id) is Some <==> exists|i: int|
            0 <= i < chains.len() && ((#[trigger] chains[i]).target == id || chains[i].pole == id),
    decreases chains.len(),
{
    if chains.len() > 0 {
        let t = chains.skip(1);
        law_control_kind(t, id);
        if control_kind(chains, id) is Some {
            if chains[0].target == id || chains[0].pole == id {
                assert(chains[0].target == id || chains[0].pole == id);
            } else {
                let i = choose|i: int|
                    0 <= i < t.len() && ((#[trigger] t[i]).target == id || t[i].pole == id);
                assert(chains[i + 1] == t[i]);
            }
        }
        if exists|i: int|
            0 <= i < chains.len() && ((#[trigger] chains[i]).target == id || chains[i].pole == id) {
            let i = choose|i: int|
                0 <= i < chains.len() && ((#[trigger] chains[i]).target == id || chains[i].pole == id);
            if i > 0 {
                assert(t[i - 1] == chains[i]);
            }
        }
    }
}

impl RigDocument {
    /// Role of a bone if it is an IK control handle.
    pub fn ik_control_kind(&self, id: BoneId) -> (r: Option<IkControlKind>)
        ensures
            r == control_kind(self@.ik_chains, id),
    {
        let mut i: usize = 0;
        while i < self.ik_chains.len()
            invariant
                i <= self.ik_chains@.len(),
                forall|j: int|
                    0 <= j < i ==> (#[trigger] self@.ik_chains[j]).target != id
                        && self@.ik_chains[j].pole != id,
            decreases self.ik_chains.len() - i,
        {
            let ghost cs = self@.ik_chains;
            proof {
                lemma_control_kind(cs, id, i as int);
                assert(cs.skip(i as int)[0] == self.ik_chains@[i as int]@);
            }
            if self.ik_chains[i].target == id {
                return Some(IkControlKind::Target);
            }
            if self.ik_chains[i].pole == id {
                return Some(IkControlKind::Pole);
            }
            i = i + 1;
        }
        proof {
            lemma_control_kind(self@.ik_chains, id, i as int);
        }
        None
    }

    /// The IK chain that reaches with `tip`.
    pub fn ik_chain_for_tip(&self, tip: BoneId) -> (r: Option<&IkChain>)
        ensures
            match r {
                Some(c) => exists|i: int|
                    #[trigger] first_on_tip(self@.ik_chains, tip, i) && c@ == self@.ik_chains[i],
                None => !tip_taken(self@.ik_chains, tip),
            },
    {
        let mut i: usize = 0;
        while i < self.ik_chains.len()
            invariant
                i <= self.ik_chains@.len(),
                forall|j: int| 0 <= j < i ==> (#[trigger] self@.ik_chains[j]).tip != tip,
            decreases self.ik_chains.len() - i,
        {
            assert(self@.ik_chains[i as int] == self.ik_chains@[i as int]@);
            if self.ik_chains[i].tip == tip {
                assert(first_on_tip(self@.ik_chains, tip, i as int));
                return Some(&self.ik_chains[i]);
            }
            i = i + 1;
        }
        None
    }

    /// The soft chain with joint `id`.
    pub fn soft_chain_containing(&self, id: BoneId) -> (r: Option<&SoftChain>)
        ensures
            match r {
                Some(c) => exists|i: int|
                    #[trigger] first_soft(self@.soft_chains, id, i) && c@ == self@.soft_chains[i],
                None => !in_soft(self@.soft_chains, id),
            },
    {
        let mut i: usize = 0;
        while i < self.soft_chains.len()
            invariant
                i <= self.soft_chains@.len(),
                forall|j: int| 0 <= j < i ==> !(#[trigger] self@.soft_chains[j]).bones.contains(id),
            decreases self.soft_chains.len() - i,
        {
            assert(self@.soft_chains[i as int] == self.soft_chains@[i as int]@);
            if lists_bone(&self.soft_chains[i].bones, id) {
                assert(first_soft(self@.soft_chains, id, i as int));
                return Some(&self.soft_chains[i]);
            }
            i = i + 1;
        }
        None
    }

    /// The collider on bone `id`.
    pub fn collider_on_bone(&self, id: BoneId) -> (r: Option<&BoneCollider>)
        ensures
            match r {
                Some(c) => exists|i: int|
                    #[trigger] collider_at(self@.colliders, id, i) && *c == self@.colliders[i],
                None => !has_collider(self@.colliders, id),
            },
    {
        let mut i: usize = 0;
        while i < self.colliders.len()
            invariant
                i <= self.colliders@.len(),
                forall|j: int| 0 <= j < i ==> (#[trigger] self@.colliders[j]).bone != id,
            decreases self.colliders.len() - i,
        {
            if self.colliders[i].bone == id {
                assert(collider_at(self@.colliders, id, i as int));
                return Some(&self.colliders[i]);
            }
            i = i + 1;
        }
        assert(!has_collider(self@.colliders, id)) by {
            if has_collider(self@.colliders, id) {
                let k = choose|k: int| collider_at(self@.colliders, id, k);
                assert(self@.colliders[k].bone != id);
            }
        }
        None
    }

    /// The bones above `id`, nearest first, `max` of them or as many as there are.
    pub fn bones_above(&self, id: BoneId, max: usize) -> (r: Vec<BoneId>)
        requires
            self.wf(),
        ensures
            r@.len() <= max,
            forall|i: int|
                0 <= i < r@.len() ==> Some(#[trigger] r@[i]) == ancestor(
                    self@.bones,
                    id,
                    (i + 1) as nat,
                ),
            r@.len() < max ==> ancestor(self@.bones, id, r@.len() + 1) is None,
    {
        let mut r: Vec<BoneId> = Vec::new();
        let mut cur = id;
        assert(ancestor(self@.bones, id, 0) == Some(id));
        while r.len() < max
            invariant
                self.wf(),
                r@.len() <= max,
                ancestor(self@.bones, id, r@.len()) == Some(cur),
                forall|i: int|
                    0 <= i < r@.len() ==> Some(#[trigger] r@[i]) == ancestor(
                        self@.bones,
                        id,
                        (i + 1) as nat,
                    ),
            decreases max - r@.len(),
        {
            let parent = match self.bone(cur) {
                Some(b) => b.parent,
                None => None,
            };
            assert(ancestor(self@.bones, id, r@.len() + 1) == parent);
            match parent {
                Some(p) => {
                    r.push(p);
                    cur = p;
                },
                None => {
                    return r;
                },
            }
        }
        r
    }

    /// The bones, root first, that an IK chain on `tip` with `rotate_count`
    /// rotating ancestors (1..=32) would have.
    pub fn plan_ik(&self, tip: BoneId, rotate_count: usize) -> (r: Result<Vec<BoneId>, &'static str>)
        requires
            self.wf(),
        ensures
            match (r, ik_plan(self@, tip, rotate_count)) {
                (Ok(a), Ok(b)) => a@ == b,
                (Err(e), Err(f)) => e@ == f,
                _ => false,
            },
    {
        if self.ik_chain_for_tip(tip).is_some() {
            assert(tip_taken(self@.ik_chains, tip));
            return Err("IK already exists on this tip");
        }
        if self.ik_control_kind(tip).is_some() {
            return Err("Cannot create IK on a control bone");
        }
        let count: usize = if rotate_count < 1 {
            1
        } else if rotate_count > MAX_IK_BONES {
            MAX_IK_BONES
        } else {
            rotate_count
        };
        let up = self.bones_above(tip, count);
        if up.len() == 0 {
            return Err("Tip needs at least one parent bone");
        }
        assert(Some(up@[0]) == ancestor(self@.bones, tip, 1));
        if up.len() < count {
            proof {
                lemma_above_none(self@.bones, tip, up@.len() + 1, count as nat);
            }
            return Err("Not enough ancestors for this chain length");
        }
        assert(Some(up@[count - 1]) == ancestor(self@.bones, tip, count as nat));
        let bones = reversed(&up);
        proof {
            let want = ik_plan(self@, tip, rotate_count)->Ok_0;
            assert forall|i: int| 0 <= i < bones@.len() implies bones@[i] == want[i] by {
                assert(bones@[i] == up@[count - 1 - i]);
            }
            assert(bones@ =~= want);
        }
        Ok(bones)
    }

    pub(crate) fn name_of(&self, id: BoneId, other: &str) -> (r: String)
        requires
            self.wf(),
        ensures
            r@ == name_or(self@.bones, id, other@),
    {
        match self.bone(id) {
            Some(b) => b.name.clone(),
            None => other.to_owned(),
        }
    }

    /// Remembers the present local transform of `id` as its bind transform.
    pub fn write_bind_for(&mut self, scene: &Scene, id: BoneId)
        requires
            old(self).wf(),
            scene.wf(),
        ensures
            final(self).wf(),
            final(self)@ == (RigView {
                bind_locals: match node_get(scene@.nodes, id.node) {
                    Some(n) => old(self)@.bind_locals.insert(id.node.key_of(), n.local),
                    None => old(self)@.bind_locals,
                },
                ..old(self)@
            }),
    {
        broadcast use vstd::std_specs::hash::group_hash_axioms;

        match scene.find_node(id.node) {
            Some(i) => {
                self.bind_locals.insert(id.node.key(), scene.nodes[i].local);
            },
            None => {},
        }
    }

    /// Adds a control bone: a root that deforms nothing.
    pub fn insert_control_bone(
        &mut self,
        scene: &mut Scene,
        node: NodeHandle,
        name: &str,
        world_pos: Vec3,
        world_rot: Quat,
    ) -> (r: BoneId)
        requires
            old(self).wf(),
            old(scene).wf(),
            fresh(old(self)@, old(scene)@, node),
        ensures
            r == (BoneId { node }),
            final(self).wf(),
            final(scene).wf(),
            final(self)@ == (RigView {
                bones: with_bone(old(self)@.bones, leaf(r, name@, None, false)),
                ..old(self)@
            }),
            final(scene)@ == (SceneView {
                nodes: old(scene)@.nodes.push(
                    bone_node(node, name@, None, control_local(world_pos, world_rot)),
                ),
                ..old(scene)@
            }),
    {
        let local = Transform {
            translation: world_pos,
            rotation: world_rot,
            scale: splat3(scalar(BITS_ONE)),
        };
        self.insert_bone(scene, node, name, None, local, false)
    }

    /// Create IK from tip. `rotate_count` = how many ancestors of tip rotate (1..=32).
    /// Tip itself is the effector (not counted in rotate_count). `target` and
    /// `pole` are the new nodes of the control bones; `geo` is measured on the
    /// bones that `plan_ik` gives.
    pub fn create_ik_from_tip(
        &mut self,
        scene: &mut Scene,
        tip: BoneId,
        rotate_count: usize,
        target: NodeHandle,
        pole: NodeHandle,
        geo: IkGeometry,
    ) -> (r: Result<u32, &'static str>)
        requires
            old(self).wf(),
            old(scene).wf(),
            fresh(old(self)@, old(scene)@, target),
            fresh(old(self)@, old(scene)@, pole),
            target.index != pole.index,
            old(self).next_ik_serial < u32::MAX,
            ik_plan(old(self)@, tip, rotate_count) is Ok ==> geo.lengths@.len() == ik_count(
                rotate_count,
            ),
        ensures
            final(self).wf(),
            final(scene).wf(),
            match (r, ik_plan(old(self)@, tip, rotate_count)) {
                (Ok(id), Ok(bones)) => {
                    let t = BoneId { node: target };
                    let p = BoneId { node: pole };
                    &&& id == old(self)@.next_ik_serial
                    &&& final(self)@ == ik_created(old(self)@, tip, bones, t, p, geo)
                    &&& final(scene)@ == ik_scene(old(self)@, old(scene)@, tip, t, p, geo)
                },
                (Err(e), Err(f)) => e@ == f && final(self)@ == old(self)@ && final(scene)@ == old(
                    scene,
                )@,
                _ => false,
            },
    {
        let bones = match self.plan_ik(tip, rotate_count) {
            Ok(b) => b,
            Err(e) => {
                return Err(e);
            },
        };
        let ghost r0 = self@;
        let ghost s0 = scene@;
        let ghost t = BoneId { node: target };
        let ghost p = BoneId { node: pole };
        let tip_name = self.name_of(tip, "IK");
        let n = bones.len();
        let chain_name = join(&join(&join("IK_", &tip_name), "×"), &decimal(n as u64));
        let target_name = join(&tip_name, ".IK");
        let pole_name = join(&tip_name, ".Pole");
        proof {
            lemma_with_bone(r0.bones, leaf(t, target_name@, None, false));
        }
        let target_id = self.insert_control_bone(
            scene,
            target,
            &target_name,
            geo.target_pos,
            geo.target_rot,
        );
        proof {
            let bs = r0.bones;
            let ns = self@.bones;
            assert(!has_bone(ns, p));
            assert forall|i: int| 0 <= i < ns.len() implies (#[trigger] ns[i]).parent != Some(p) by {
                if i < bs.len() {
                    assert(ns[i].parent == bs[i].parent);
                }
            }
            assert forall|i: int| 0 <= i < scene@.nodes.len() implies (
            #[trigger] scene@.nodes[i]).handle.index != pole.index by {
                if i < s0.nodes.len() {
                    assert(scene@.nodes[i] == s0.nodes[i]);
                }
            }
        }
        let pole_id = self.insert_control_bone(
            scene,
            pole,
            &pole_name,
            geo.pole_pos,
            identity_quat(),
        );
        proof {
            let m = s0.nodes.len() as int;
            assert(node_at(scene@.nodes, target, m));
            assert(node_at(scene@.nodes, pole, m + 1));
            crate::scene::lemma_node_pos(scene@, target, m);
            crate::scene::lemma_node_pos(scene@, pole, m + 1);
        }
        let id = self.next_ik_serial;
        let chain = IkChain {
            id,
            name: chain_name,
            tip,
            bones,
            target: target_id,
            pole: pole_id,
            enabled: true,
            lengths: keep_segments(&geo.lengths),
            tip_rot_offset: identity_quat(),
        };
        self.add_ik(chain);
        self.set_selection(target_id);
        self.write_bind_for(scene, target_id);
        self.write_bind_for(scene, pole_id);
        assert(self@ =~= ik_created(
            r0,
            tip,
            ik_plan(r0, tip, rotate_count)->Ok_0,
            t,
            p,
            geo,
        ));
        Ok(id)
    }

    /// Appends a chain under the next serial number.
    fn add_ik(&mut self, chain: IkChain)
        requires
            old(self).wf(),
            old(self).next_ik_serial < u32::MAX,
            chain.id == old(self).next_ik_serial,
            chain.bones@.len() >= 1,
            chain.lengths@.len() == chain.bones@.len(),
        ensures
            final(self).wf(),
            final(self)@ == (RigView {
                ik_chains: old(self)@.ik_chains.push(chain@),
                next_ik_serial: (old(self)@.next_ik_serial + 1) as u32,
                ..old(self)@
            }),
    {
        let ghost cs = self@.ik_chains;
        self.next_ik_serial = self.next_ik_serial + 1;
        self.ik_chains.push(chain);
        assert(self@.ik_chains =~= cs.push(chain@));
    }

    /// Removes the chain and its control bones.
    pub fn remove_ik_chain(&mut self, scene: &mut Scene, chain_id: u32)
        requires
            old(self).wf(),
            old(scene).wf(),
        ensures
            final(self).wf(),
            final(scene).wf(),
            (forall|i: int|
                0 <= i < old(self)@.ik_chains.len() ==> (#[trigger] old(self)@.ik_chains[i]).id
                    != chain_id) ==> final(self)@ == old(self)@ && final(scene)@ == old(scene)@,
            forall|i: int|
                0 <= i < old(self)@.ik_chains.len() && (#[trigger] old(self)@.ik_chains[i]).id
                    == chain_id ==> ik_removed(
                    old(self)@,
                    old(scene)@,
                    i,
                    final(self)@,
                    final(scene)@,
                ),
    {
        let mut i: usize = 0;
        while i < self.ik_chains.len()
            invariant
                i <= self.ik_chains@.len(),
                *self == *old(self),
                *scene == *old(scene),
                self.wf(),
                scene.wf(),
                forall|j: int| 0 <= j < i ==> (#[trigger] self@.ik_chains[j]).id != chain_id,
            decreases self.ik_chains.len() - i,
        {
            assert(self@.ik_chains[i as int] == self.ik_chains@[i as int]@);
            if self.ik_chains[i].id == chain_id {
                let ghost cs = self@.ik_chains;
                let chain = self.ik_chains.remove(i);
                assert(self@.ik_chains =~= cs.remove(i as int));
                proof {
                    lemma_ik_remove_ok(cs, i as int, self@.next_ik_serial);
                }
                self.delete_single_bone(scene, chain.target);
                let ghost rm = self@;
                let ghost sm = scene@;
                self.delete_single_bone(scene, chain.pole);
                proof {
                    assert(chain@ == cs[i as int]);
                    assert(single_deleted(
                        without_ik(old(self)@, i as int),
                        old(scene)@,
                        chain.target,
                        rm,
                        sm,
                    ));
                    assert(old(self)@.ik_chains == cs);
                    assert(cs[i as int].target == chain.target && cs[i as int].pole == chain.pole);
                    assert(single_deleted(rm, sm, cs[i as int].pole, self@, scene@));
                    assert(ik_removed(old(self)@, old(scene)@, i as int, self@, scene@));
                    assert forall|k: int|
                        0 <= k < cs.len() && (#[trigger] cs[k]).id == chain_id implies k == i by {
                        if k < i {
                            assert(cs[k].id != cs[i as int].id);
                        } else if i < k {
                            assert(cs[i as int].id != cs[k].id);
                        }
                    }
                }
                return;
            }
            i = i + 1;
        }
    }

    pub fn set_ik_enabled(&mut self, chain_id: u32, enabled: bool)
        requires
            old(self).wf(),
        ensures
            final(self).wf(),
            final(self)@ == (RigView {
                ik_chains: old(self)@.ik_chains.map_values(
                    |c: IkView| ik_switched(c, chain_id, enabled),
                ),
                ..old(self)@
            }),
    {
        let ghost cs = self@.ik_chains;
        let ghost f = |c: IkView| ik_switched(c, chain_id, enabled);
        let mut i: usize = 0;
        while i < self.ik_chains.len()
            invariant
                i <= self.ik_chains@.len(),
                *self == *old(self),
                cs == self@.ik_chains,
                f == (|c: IkView| ik_switched(c, chain_id, enabled)),
                self.wf(),
                forall|j: int| 0 <= j < i ==> (#[trigger] cs[j]).id != chain_id,
            decreases self.ik_chains.len() - i,
        {
            assert(cs[i as int] == self.ik_chains@[i as int]@);
            if self.ik_chains[i].id == chain_id {
                self.ik_chains[i].enabled = enabled;
                assert(self@.ik_chains =~= cs.map_values(f)) by {
                    assert forall|j: int| 0 <= j < cs.len() implies self@.ik_chains[j] == f(
                        cs[j],
                    ) by {
                        if j != i {
                            assert(self@.ik_chains[j] == cs[j]);
                            assert(cs[j].id != cs[i as int].id) by {
                                if j < i {
                                } else {
                                    assert(cs[i as int].id != cs[j].id);
                                }
                            }
                        } else {
                            assert(self@.ik_chains[j] =~= f(cs[j]));
                        }
                    }
                }
                return;
            }
            i = i + 1;
        }
        assert(cs.map_values(f) =~= cs);
    }

    /// The anchor and the joints of a soft chain from a selected bone.
    pub fn plan_soft(&self, selected: BoneId) -> (r: Result<(BoneId, Vec<BoneId>), &'static str>)
        requires
            self.wf(),
        ensures
            match (r, soft_plan(self@, selected)) {
                (Ok(a), Ok(b)) => a.0 == b.0 && a.1@ == b.1,
                (Err(e), Err(f)) => e@ == f,
                _ => false,
            },
    {
        if self.ik_control_kind(selected).is_some() {
            return Err("Cannot create Soft on an IK control bone");
        }
        if self.soft_chain_containing(selected).is_some() {
            assert(in_soft(self@.soft_chains, selected));
            return Err("Bone already in a Soft chain");
        }
        let (anchor, bones) = match self.collect_linear_soft_chain(selected) {
            Ok(run) => run,
            Err(e) => {
                return Err(e);
            },
        };
        if bones.len() < 2 {
            return Err("Need at least 2 bones (root + tip). Extrude a child first");
        }
        let mut i: usize = 0;
        let ghost run = soft_run(self@.bones, selected)->Ok_0;
        while i < bones.len()
            invariant
                i <= bones@.len(),
                control_kind(self@.ik_chains, selected) is None,
                !in_soft(self@.soft_chains, selected),
                soft_run(self@.bones, selected) == Ok::<(BoneId, Seq<BoneId>), Seq<char>>(run),
                run.0 == anchor,
                run.1 == bones@,
                bones@.len() >= 2,
                forall|j: int| 0 <= j < i ==> !in_soft(self@.soft_chains, #[trigger] run.1[j]),
            decreases bones.len() - i,
        {
            if self.soft_chain_containing(bones[i]).is_some() {
                assert(in_soft(self@.soft_chains, run.1[i as int]));
                return Err("Overlaps an existing Soft chain");
            }
            i = i + 1;
        }
        Ok((anchor, bones))
    }

    /// Soft chain from a selected bone: expands along the linear parent/child path.
    /// Anchor = first parent that branches or is a root; needs ≥2 soft bones.
    /// `geo` is measured on the bones that `plan_soft` gives.
    pub fn create_soft_from_bone(&mut self, selected: BoneId, geo: SoftGeometry) -> (r: Result<
        u32,
        &'static str,
    >)
        requires
            old(self).wf(),
            old(self).next_soft_serial < u32::MAX,
            soft_plan(old(self)@, selected) matches Ok(run) ==> geo.lengths@.len() == run.1.len(),
        ensures
            final(self).wf(),
            match (r, soft_plan(old(self)@, selected)) {
                (Ok(id), Ok(run)) => {
                    &&& id == old(self)@.next_soft_serial
                    &&& final(self)@ == (RigView {
                        soft_chains: old(self)@.soft_chains.push(
                            fresh_soft(
                                id,
                                "Soft_"@ + name_or(old(self)@.bones, run.1[0], "Soft"@) + "×"@
                                    + decimal_of(run.1.len()),
                                run.0,
                                run.1,
                                geo,
                            ),
                        ),
                        next_soft_serial: (id + 1) as u32,
                        ..old(self)@
                    })
                },
                (Err(e), Err(f)) => e@ == f && final(self)@ == old(self)@,
                _ => false,
            },
    {
        let (anchor, bones) = match self.plan_soft(selected) {
            Ok(run) => run,
            Err(e) => {
                return Err(e);
            },
        };
        let root_name = self.name_of(bones[0], "Soft");
        let n = bones.len();
        let name = join(&join(&join("Soft_", &root_name), "×"), &decimal(n as u64));
        let id = self.next_soft_serial;
        let ghost cs = self@.soft_chains;
        self.next_soft_serial = id + 1;
        let chain = SoftChain {
            id,
            name,
            anchor,
            bones,
            lengths: keep_soft(&geo.lengths),
            tip_length: geo.tip_length,
            support_normal_local: geo.support_normal_local,
            enabled: true,
            gravity: scalar(BITS_9_8),
            stiffness: scalar(BITS_STIFFNESS),
            damping: scalar(BITS_2_5),
            inertia: scalar(BITS_ZERO),
            max_angle: scalar(BITS_95_DEGREES),
            prev_pos: Vec::new(),
            curr_pos: Vec::new(),
            prev_root_world: identity_mat(),
            prev_root_vel: splat3(scalar(BITS_ZERO)),
            initialized: false,
            grab_relax: scalar(BITS_ZERO),
        };
        assert(chain@ =~= fresh_soft(id, name@, anchor, bones@, geo));
        self.soft_chains.push(chain);
        assert(self@.soft_chains =~= cs.push(chain@));
        Ok(id)
    }

    pub fn remove_soft_chain(&mut self, chain_id: u32)
        requires
            old(self).wf(),
        ensures
            final(self).wf(),
            final(self)@ == (RigView {
                soft_chains: old(self)@.soft_chains.filter(|c: SoftView| c.id != chain_id),
                ..old(self)@
            }),
    {
        let ghost all = self@.soft_chains;
        let ghost p = |c: SoftView| c.id != chain_id;
        let mut rest: Vec<SoftChain> = Vec::new();
        rest.append(&mut self.soft_chains);
        let ghost exec_all = rest@;
        let mut out: Vec<SoftChain> = Vec::new();
        proof {
            lemma_filter_ends(all, p);
        }
        assert(soft_view(out@) =~= Seq::empty());
        for c in it: rest
            invariant
                it.seq() == exec_all,
                all == soft_view(exec_all),
                p == (|c: SoftView| c.id != chain_id),
                soft_view(out@) == all.take(it.index() as int).filter(p),
        {
            assert(c@ == all[it.index() as int]);
            proof {
                lemma_filter_step(all, p, it.index() as int);
            }
            if c.id != chain_id {
                let ghost o = out@;
                out.push(c);
                assert(soft_view(out@) =~= soft_view(o).push(c@));
            }
        }
        self.soft_chains = out;
        proof {
            lemma_soft_filter_ok(all, p, self@.next_soft_serial);
        }
    }

    /// Switches a soft chain; one switched on starts from the pose.
    pub fn set_soft_enabled(&mut self, chain_id: u32, enabled: bool)
        requires
            old(self).wf(),
        ensures
            final(self).wf(),
            final(self)@ == (RigView {
                soft_chains: old(self)@.soft_chains.map_values(
                    |c: SoftView| soft_switched(c, chain_id, enabled),
                ),
                ..old(self)@
            }),
    {
        let ghost cs = self@.soft_chains;
        let ghost f = |c: SoftView| soft_switched(c, chain_id, enabled);
        let mut i: usize = 0;
        while i < self.soft_chains.len()
            invariant
                i <= self.soft_chains@.len(),
                *self == *old(self),
                cs == self@.soft_chains,
                f == (|c: SoftView| soft_switched(c, chain_id, enabled)),
                self.wf(),
                forall|j: int| 0 <= j < i ==> (#[trigger] cs[j]).id != chain_id,
            decreases self.soft_chains.len() - i,
        {
            assert(cs[i as int] == self.soft_chains@[i as int]@);
            if self.soft_chains[i].id == chain_id {
                self.soft_chains[i].enabled = enabled;
                if enabled {
                    self.soft_chains[i].initialized = false;
                }
                assert(self@.soft_chains =~= cs.map_values(f)) by {
                    assert forall|j: int| 0 <= j < cs.len() implies self@.soft_chains[j] == f(
                        cs[j],
                    ) by {
                        if j != i {
                            assert(self@.soft_chains[j] == cs[j]);
                            assert(cs[j].id != cs[i as int].id) by {
                                if j < i {
                                } else {
                                    assert(cs[i as int].id != cs[j].id);
                                }
                            }
                        } else {
                            assert(self@.soft_chains[j] =~= f(cs[j]));
                        }
                    }
                }
                return;
            }
            i = i + 1;
        }
        assert(cs.map_values(f) =~= cs);
    }

    /// Makes every soft chain start from the pose again.
    pub fn reset_soft_sim(&mut self)
        requires
            old(self).wf(),
        ensures
            final(self).wf(),
            final(self)@ == (RigView { soft_chains: sim_reset(old(self)@.soft_chains), ..old(self)@ }),
    {
        let ghost cs = self@.soft_chains;
        let mut i: usize = 0;
        let n = self.soft_chains.len();
        while i < n
            invariant
                i <= n,
                n == self.soft_chains@.len(),
                n == cs.len(),
                self@ == (RigView { soft_chains: self@.soft_chains, ..old(self)@ }),
                self.bone_index == old(self).bone_index,
                self.selected == old(self).selected,
                forall|j: int| 0 <= j < i ==> self@.soft_chains[j] == sim_reset(cs)[j],
                forall|j: int| i <= j < n ==> self@.soft_chains[j] == cs[j],
            decreases n - i,
        {
            let ghost was = self@.soft_chains;
            self.soft_chains[i].initialized = false;
            assert(forall|j: int| 0 <= j < n && j != i ==> self@.soft_chains[j] == was[j]);
            assert(self@.soft_chains[i as int] =~= sim_reset(cs)[i as int]);
            i = i + 1;
        }
        assert(self@.soft_chains =~= sim_reset(cs));
    }

    /// The bone at the far end of a capsule on `bone`: its first child.
    pub fn first_child(&self, bone: BoneId) -> (r: Option<BoneId>)
        requires
            self.wf(),
        ensures
            r == (if kids_of(self@.bones, bone).len() > 0 {
                Some(kids_of(self@.bones, bone)[0])
            } else {
                None
            }),
    {
        match self.bone(bone) {
            Some(b) => if b.children.len() > 0 {
                Some(b.children[0])
            } else {
                None
            },
            None => None,
        }
    }

    /// Capsule along bone→child (or +Y), soft by default; `geo` is measured from
    /// `bone` to its first child.
    pub fn create_capsule_collider(&mut self, bone: BoneId, geo: CapsuleGeometry) -> (r: Result<
        u32,
        &'static str,
    >)
        requires
            old(self).wf(),
            old(self).next_collider_serial < u32::MAX,
        ensures
            final(self).wf(),
            match r {
                Ok(id) => {
                    &&& has_bone(old(self)@.bones, bone)
                    &&& !has_collider(old(self)@.colliders, bone)
                    &&& id == old(self)@.next_collider_serial
                    &&& final(self)@ == (RigView {
                        colliders: old(self)@.colliders.push(
                            BoneCollider {
                                id,
                                bone,
                                enabled: true,
                                a_local: geo.a_local,
                                b_local: geo.b_local,
                                radius: larger(geo.radius, scalar_of(BITS_0_01)),
                                softness: scalar_of(BITS_SOFTNESS),
                            },
                        ),
                        next_collider_serial: (id + 1) as u32,
                        ..old(self)@
                    })
                },
                Err(e) => {
                    &&& final(self)@ == old(self)@
                    &&& if !has_bone(old(self)@.bones, bone) {
                        e@ == "Unknown bone"@
                    } else {
                        has_collider(old(self)@.colliders, bone) && e@
                            == "Bone already has a collider"@
                    }
                },
            },
    {
        if self.bone(bone).is_none() {
            return Err("Unknown bone");
        }
        if self.collider_on_bone(bone).is_some() {
            return Err("Bone already has a collider");
        }
        let id = self.next_collider_serial;
        let ghost cs = self@.colliders;
        self.next_collider_serial = id + 1;
        self.colliders.push(
            BoneCollider {
                id,
                bone,
                enabled: true,
                a_local: geo.a_local,
                b_local: geo.b_local,
                radius: geo.radius.or_larger(&scalar(BITS_0_01)),
                softness: scalar(BITS_SOFTNESS),
            },
        );
        proof {
            let ns = self@.colliders;
            assert forall|i: int, j: int| 0 <= i < j < ns.len() implies (#[trigger] ns[i]).id != (
            #[trigger] ns[j]).id && ns[i].bone != ns[j].bone by {
                assert(ns[i] == cs[i]);
                if j == cs.len() {
                    if cs[i].bone == bone {
                        assert(collider_at(cs, bone, i));
                    }
                } else {
                    assert(ns[j] == cs[j]);
                }
            }
        }
        Ok(id)
    }

    pub fn remove_collider(&mut self, collider_id: u32)
        requires
            old(self).wf(),
        ensures
            final(self).wf(),
            final(self)@ == (RigView {
                colliders: old(self)@.colliders.filter(|c: BoneCollider| c.id != collider_id),
                ..old(self)@
            }),
    {
        let ghost p = |c: BoneCollider| c.id != collider_id;
        let ghost cs = self@.colliders;
        let mut out: Vec<BoneCollider> = Vec::new();
        let mut i: usize = 0;
        proof {
            lemma_filter_ends(cs, p);
        }
        while i < self.colliders.len()
            invariant
                i <= self.colliders@.len(),
                *self == *old(self),
                cs == self@.colliders,
                p == (|c: BoneCollider| c.id != collider_id),
                out@ == cs.take(i as int).filter(p),
            decreases self.colliders.len() - i,
        {
            proof {
                lemma_filter_step(cs, p, i as int);
            }
            if self.colliders[i].id != collider_id {
                out.push(self.colliders[i]);
            }
            i = i + 1;
        }
        self.colliders = out;
        proof {
            lemma_collider_filter_ok(cs, p, self@.next_collider_serial);
        }
    }
}

/// The chain, switched where it is chain `id`.
pub open spec fn ik_switched(c: IkView, id: u32, enabled: bool) -> IkView {
    if c.id == id {
        IkView { enabled, ..c }
    } else {
        c
    }
}

/// The chain, switched where it is chain `id`; on means starting from the pose.
pub open spec fn soft_switched(c: SoftView, id: u32, enabled: bool) -> SoftView {
    if c.id == id {
        SoftView { enabled, initialized: c.initialized && !enabled, ..c }
    } else {
        c
    }
}

/// The soft chains, all to start from the pose again.
pub open spec fn sim_reset(chains: Seq<SoftView>) -> Seq<SoftView> {
    chains.map_values(|c: SoftView| SoftView { initialized: false, ..c })
}

/// Above nobody there is nobody.
proof fn lemma_above_none(bs: Seq<BoneView>, id: BoneId, a: nat, b: nat)
    requires
        a <= b,
        ancestor(bs, id, a) is None,
    ensures
        ancestor(bs, id, b) is None,
    decreases b,
{
    if a < b {
        lemma_above_none(bs, id, a, (b - 1) as nat);
    }
}

/// Without one chain the rest is still proper.
proof fn lemma_ik_remove_ok(cs: Seq<IkView>, k: int, next: u32)
    requires
        ik_ok(cs, next),
        0 <= k < cs.len(),
    ensures
        ik_ok(cs.remove(k), next),
{
    let t = cs.remove(k);
    assert forall|i: int| 0 <= i < t.len() implies (#[trigger] t[i]).id < next && t[i].bones.len()
        >= 1 && t[i].lengths.len() == t[i].bones.len() by {
        if i < k {
            assert(t[i] == cs[i]);
        } else {
            assert(t[i] == cs[i + 1]);
        }
    }
    assert forall|i: int, j: int| 0 <= i < j < t.len() implies (#[trigger] t[i]).id != (
    #[trigger] t[j]).id by {
        let a = if i < k {
            i
        } else {
            i + 1
        };
        let b = if j < k {
            j
        } else {
            j + 1
        };
        assert(t[i] == cs[a] && t[j] == cs[b]);
    }
}

} // verus!
