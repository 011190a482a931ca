//! The inspector: what it shows of the active bone, and what its buttons and
//! fields do.

use vstd::prelude::*;
use crate::bones::{bone_pos, has_bone, BoneId};
use crate::bones_panel::{chain_deleted, cut_off, target_of};
use crate::drivers_panel::into_pose;
use crate::geom::{Scalar, Vec3, BITS_0_001, BITS_0_01, BITS_ONE};
use crate::order::{held_between, hold_between, larger};
use crate::rig::{AppMode, BoneCollider, IkControlKind, IkView, RigView, SoftChain, SoftView, Tool};
use crate::rig_chains::{
    collider_at, control_kind, first_on_tip, first_soft, has_collider, ik_count, ik_created, ik_plan, ik_scene, in_soft, name_or,
    soft_plan, tip_taken, CapsuleGeometry, IkGeometry, SoftGeometry,
    BITS_SOFTNESS,
};
use crate::rig_edit::fresh;
use crate::rig_pose::reposed;
use crate::rig_select::reselected;
use crate::scene::{node_get, NodeHandle, SceneView};
use crate::session::{AppState, AppView};
use crate::text::{decimal, decimal_of, join};

verus! {

/// The longest IK chain that the stepper offers.
pub const MAX_IK_LENGTH: usize = 32;

/// Bit pattern of `-0.5`.
pub const BITS_MINUS_0_5: u32 = 0xBF00_0000;

/// Length and offset to give a capsule whose length was dragged to `length`
/// while its offset is `offset`.
pub fn length_dragged(length: Scalar, offset: Scalar) -> (r: (Scalar, Scalar))
    ensures
        r.0 == held_between(length, Scalar { bits: BITS_0_001 }, Scalar { bits: BITS_ONE }),
        r.1 == held_between(
            offset,
            Scalar { bits: BITS_MINUS_0_5 },
            Scalar { bits: crate::node_body::BITS_0_5 },
        ),
{
    (
        hold_between(length, Scalar { bits: BITS_0_001 }, Scalar { bits: BITS_ONE }),
        hold_between(
            offset,
            Scalar { bits: BITS_MINUS_0_5 },
            Scalar { bits: crate::node_body::BITS_0_5 },
        ),
    )
}

/// Length to give a capsule whose length is `length` while its offset is dragged.
pub fn offset_dragged(length: Scalar) -> (r: Scalar)
    ensures
        r == larger(length, Scalar { bits: BITS_0_001 }),
{
    length.or_larger(&Scalar { bits: BITS_0_001 })
}

/// What the inspector offers about one kind of set-up on the bone.
#[derive(Clone, Copy, Debug, PartialEq, Eq, Structural)]
pub enum Section {
    /// Nothing: the bone is an IK control.
    Hidden,
    /// It has one, with this id.
    Existing(u32),
    /// It has none: offer to make one.
    Create,
}

/// What the inspector shows of the active bone.
pub struct Inspected {
    /// How many bones are selected, where it is more than one.
    pub many: Option<usize>,
    pub name: String,
    pub deform: bool,
    pub role: Option<IkControlKind>,
    pub parent: Option<String>,
    pub ik: Section,
    pub soft: Section,
    pub collider: Section,
    /// The translation can be edited.
    pub movable: bool,
    /// The translation as it is, in Pose.
    pub translation: Option<Vec3>,
}

/// What an inspection holds.
#[verifier::ext_equal]
pub struct InspectedView {
    pub many: Option<usize>,
    pub name: Seq<char>,
    pub deform: bool,
    pub role: Option<IkControlKind>,
    pub parent: Option<Seq<char>>,
    pub ik: Section,
    pub soft: Section,
    pub collider: Section,
    pub movable: bool,
    pub translation: Option<Vec3>,
}

impl View for Inspected {
    type V = InspectedView;

    open spec fn view(&self) -> InspectedView {
        InspectedView {
            many: self.many,
            name: self.name@,
            deform: self.deform,
            role: self.role,
            parent: crate::rig::text_opt(self.parent),
            ik: self.ik,
            soft: self.soft,
            collider: self.collider,
            movable: self.movable,
            translation: self.translation,
        }
    }
}

/// What the inspector has to show.
pub enum Inspection {
    /// Nothing selected.
    Nothing,
    /// The active bone is none any more.
    Invalid { many: Option<usize> },
    Bone(Inspected),
}

/// Id of the IK chain on tip `tip`.
pub open spec fn ik_on(cs: Seq<IkView>, tip: BoneId) -> Option<u32>
    decreases cs.len(),
{
    if cs.len() == 0 {
        None
    } else if cs[0].tip == tip {
        Some(cs[0].id)
    } else {
        ik_on(cs.skip(1), tip)
    }
}

/// Id of the soft chain with joint `id`.
pub open spec fn soft_on(cs: Seq<SoftView>, id: BoneId) -> Option<u32>
    decreases cs.len(),
{
    if cs.len() == 0 {
        None
    } else if cs[0].bones.contains(id) {
        Some(cs[0].id)
    } else {
        soft_on(cs.skip(1), id)
    }
}

/// Id of the collider on bone `id`.
pub open spec fn collider_on(cs: Seq<BoneCollider>, id: BoneId) -> Option<u32>
    decreases cs.len(),
{
    if cs.len() == 0 {
        None
    } else if cs[0].bone == id {
        Some(cs[0].id)
    } else {
        collider_on(cs.skip(1), id)
    }
}

proof fn lemma_ik_on(cs: Seq<IkView>, tip: BoneId)
    ensures
        forall|i: int| #[trigger] first_on_tip(cs, tip, i) ==> ik_on(cs, tip) == Some(cs[i].id),
        !tip_taken(cs, tip) ==> ik_on(cs, tip) is None,
    decreases cs.len(),
{
    if cs.len() > 0 {
        let t = cs.skip(1);
        lemma_ik_on(t, tip);
        assert forall|i: int| #[trigger] first_on_tip(cs, tip, i) implies ik_on(cs, tip) == Some(
            cs[i].id,
        ) by {
            if cs[0].tip != tip {
                assert forall|j: int| 0 <= j < i - 1 implies (#[trigger] t[j]).tip != tip by {
                    assert(cs[j + 1].tip != tip);
                }
                assert(first_on_tip(t, tip, i - 1));
            } else if i > 0 {
                assert(cs[0].tip != tip);
            }
        }
        if !tip_taken(cs, tip) {
            assert(cs[0].tip != tip);
            if tip_taken(t, tip) {
                let i = choose|i: int| 0 <= i < t.len() && (#[trigger] t[i]).tip == tip;
                assert(cs[i + 1].tip == tip);
            }
        }
    }
}

proof fn lemma_soft_on(cs: Seq<SoftView>, id: BoneId)
    ensures
        forall|i: int| #[trigger] first_soft(cs, id, i) ==> soft_on(cs, id) == Some(cs[i].id),
        !in_soft(cs, id) ==> soft_on(cs, id) is None,
    decreases cs.len(),
{
    if cs.len() > 0 {
        let t = cs.skip(1);
        lemma_soft_on(t, id);
        assert forall|i: int| #[trigger] first_soft(cs, id, i) implies soft_on(cs, id) == Some(
            cs[i].id,
        ) by {
            if !cs[0].bones.contains(id) {
                assert forall|j: int| 0 <= j < i - 1 implies !(#[trigger] t[j]).bones.contains(id) by {
                    assert(!cs[j + 1].bones.contains(id));
                }
                assert(first_soft(t, id, i - 1));
            } else if i > 0 {
                assert(!cs[0].bones.contains(id));
            }
        }
        if !in_soft(cs, id) {
            assert(!cs[0].bones.contains(id));
            if in_soft(t, id) {
                let i = choose|i: int| 0 <= i < t.len() && (#[trigger] t[i]).bones.contains(id);
                assert(cs[i + 1].bones.contains(id));
            }
        }
    }
}

proof fn lemma_collider_on(cs: Seq<BoneCollider>, id: BoneId)
    requires
        forall|i: int, j: int|
            0 <= i < j < cs.len() ==> (#[trigger] cs[i]).bone != (#[trigger] cs[j]).bone,
    ensures
        forall|i: int| #[trigger] collider_at(cs, id, i) ==> collider_on(cs, id) == Some(cs[i].id),
        !has_collider(cs, id) ==> collider_on(cs, id) is None,
    decreases cs.len(),
{
    if cs.len() > 0 {
        let t = cs.skip(1);
        assert forall|i: int, j: int| 0 <= i < j < t.len() implies (#[trigger] t[i]).bone != (
        #[trigger] t[j]).bone by {
            assert(cs[i + 1].bone != cs[j + 1].bone);
        }
        lemma_collider_on(t, id);
        assert forall|i: int| #[trigger] collider_at(cs, id, i) implies collider_on(cs, id) == Some(
            cs[i].id,
        ) by {
            if i > 0 {
                assert(cs[0].bone != cs[i].bone);
                assert(collider_at(t, id, i - 1));
            }
        }
        if !has_collider(cs, id) {
            assert(!collider_at(cs, id, 0));
            if has_collider(t, id) {
                let i = choose|i: int| collider_at(t, id, i);
                assert(collider_at(cs, id, i + 1));
            }
        }
    }
}

/// The section for what the bone has, or may have: an existing set-up shows on
/// control bones too if `even_control`.
pub open spec fn section(existing: Option<u32>, control: bool, even_control: bool) -> Section {
    if control && !(even_control && existing is Some) {
        Section::Hidden
    } else {
        match existing {
            Some(id) => Section::Existing(id),
            None => Section::Create,
        }
    }
}

/// How many bones are selected, where it is more than one.
pub open spec fn many_of(r: RigView) -> Option<usize> {
    if r.selected.len() > 1 {
        Some(r.selected.len() as usize)
    } else {
        None
    }
}

/// What the inspector shows of bone `sel`.
pub open spec fn inspected(a: AppView, sel: BoneId) -> InspectedView {
    let r = a.rig;
    let b = r.bones[bone_pos(r.bones, sel)];
    let role = control_kind(r.ik_chains, sel);
    InspectedView {
        many: many_of(r),
        name: b.name,
        deform: b.deform,
        role,
        parent: match b.parent {
            Some(p) => if has_bone(r.bones, p) {
                Some(r.bones[bone_pos(r.bones, p)].name)
            } else {
                None
            },
            None => None,
        },
        ik: section(ik_on(r.ik_chains, sel), role is Some, true),
        soft: section(soft_on(r.soft_chains, sel), role is Some, true),
        collider: section(collider_on(r.colliders, sel), role is Some, false),
        movable: r.mode == AppMode::Edit || role is Some,
        translation: if r.mode == AppMode::Pose {
            match node_get(a.scene.nodes, sel.node) {
                Some(n) => Some(n.local.translation),
                None => None,
            }
        } else {
            None
        },
    }
}

fn section_of(existing: Option<u32>, control: bool, even_control: bool) -> (r: Section)
    ensures
        r == section(existing, control, even_control),
{
    if control && !(even_control && existing.is_some()) {
        return Section::Hidden;
    }
    match existing {
        Some(id) => Section::Existing(id),
        None => Section::Create,
    }
}

/// A number of a soft chain that the inspector edits.
#[derive(Clone, Copy, Debug, PartialEq, Eq, Structural)]
pub enum SoftField {
    Gravity,
    Stiffness,
    Damping,
    Inertia,
    MaxAngle,
}

/// `c` with field `f` set; new gravity starts the motion afresh.
pub open spec fn soft_field_set(c: SoftView, f: SoftField, x: Scalar) -> SoftView {
    match f {
        SoftField::Gravity => SoftView { gravity: x, initialized: false, ..c },
        SoftField::Stiffness => SoftView { stiffness: x, ..c },
        SoftField::Damping => SoftView { damping: x, ..c },
        SoftField::Inertia => SoftView { inertia: x, ..c },
        SoftField::MaxAngle => SoftView { max_angle: x, ..c },
    }
}

/// Sets field `f` of chain `c`.
fn set_soft_field(c: &mut SoftChain, f: SoftField, x: Scalar)
    ensures
        final(c)@ == soft_field_set(old(c)@, f, x),
{
    match f {
        SoftField::Gravity => {
            c.gravity = x;
            c.initialized = false;
        },
        SoftField::Stiffness => {
            c.stiffness = x;
        },
        SoftField::Damping => {
            c.damping = x;
        },
        SoftField::Inertia => {
            c.inertia = x;
        },
        SoftField::MaxAngle => {
            c.max_angle = x;
        },
    }
}

/// What of a collider the inspector edits.
#[derive(Clone, Copy, Debug, PartialEq, Eq, Structural)]
pub enum ColliderEdit {
    Enabled(bool),
    Radius(Scalar),
    Axis { a_local: Vec3, b_local: Vec3 },
    Softness(Scalar),
}

/// `c` after the edit; the radius stays within its limits.
pub open spec fn collider_edited(c: BoneCollider, e: ColliderEdit) -> BoneCollider {
    match e {
        ColliderEdit::Enabled(enabled) => BoneCollider { enabled, ..c },
        ColliderEdit::Radius(x) => BoneCollider {
            radius: held_between(
                x,
                Scalar { bits: BITS_0_001 },
                Scalar { bits: crate::node_body::BITS_0_5 },
            ),
            ..c
        },
        ColliderEdit::Axis { a_local, b_local } => BoneCollider { a_local, b_local, ..c },
        ColliderEdit::Softness(softness) => BoneCollider { softness, ..c },
    }
}

impl AppState {
    /// What the inspector shows.
    pub fn inspector_panel_body(&self) -> (r: Inspection)
        requires
            self.wf(),
        ensures
            match self@.rig.selection {
                None => r is Nothing,
                Some(sel) => if has_bone(self@.rig.bones, sel) {
                    r matches Inspection::Bone(i) && i@ == inspected(self@, sel)
                } else {
                    r matches Inspection::Invalid { many } && many == many_of(self@.rig)
                },
            },
    {
        let sel = match self.rig.selection {
            Some(sel) => sel,
            None => {
                return Inspection::Nothing;
            },
        };
        let n = self.rig.selected.len();
        proof {
            self.rig.selected@.unique_seq_to_set();
        }
        let many = if n > 1 {
            Some(n)
        } else {
            None
        };
        let b = match self.rig.bone(sel) {
            Some(b) => b,
            None => {
                return Inspection::Invalid { many };
            },
        };
        let parent = match b.parent {
            Some(p) => match self.rig.bone(p) {
                Some(pb) => Some(pb.name.clone()),
                None => None,
            },
            None => None,
        };
        let role = self.rig.ik_control_kind(sel);
        let control = role.is_some();
        proof {
            lemma_ik_on(self@.rig.ik_chains, sel);
            lemma_soft_on(self@.rig.soft_chains, sel);
            lemma_collider_on(self@.rig.colliders, sel);
        }
        let ik = match self.rig.ik_chain_for_tip(sel) {
            Some(c) => Some(c.id),
            None => None,
        };
        let soft = match self.rig.soft_chain_containing(sel) {
            Some(c) => Some(c.id),
            None => None,
        };
        let collider = match self.rig.collider_on_bone(sel) {
            Some(c) => Some(c.id),
            None => None,
        };
        let translation = if self.rig.mode == AppMode::Pose {
            match self.scene.find_node(sel.node) {
                Some(i) => {
                    assert(self.scene@.nodes[i as int].local == self.scene.nodes@[i as int].local);
                    Some(self.scene.nodes[i].local.translation)
                },
                None => None,
            }
        } else {
            None
        };
        let out = Inspected {
            many,
            name: b.name.clone(),
            deform: b.deform,
            role,
            parent,
            ik: section_of(ik, control, true),
            soft: section_of(soft, control, true),
            collider: section_of(collider, control, false),
            movable: self.rig.mode == AppMode::Edit || control,
            translation,
        };
        assert(out@ =~= inspected(self@, sel));
        Inspection::Bone(out)
    }

    /// The "Select IK target" button.
    pub fn target_clicked(&mut self, chain: u32)
        requires
            old(self).wf(),
        ensures
            final(self).wf(),
            final(self)@ == (match target_of(old(self)@.rig.ik_chains, chain) {
                Some(t) => AppView {
                    rig: RigView {
                        tool: Tool::Translate,
                        ..reselected(old(self)@.rig, Set::empty().insert(t), Some(t))
                    },
                    edit_bone: None,
                    ..old(self)@
                },
                None => old(self)@,
            }),
    {
        if let Some(i) = self.find_ik(chain) {
            assert(self@.rig.ik_chains[i as int] == self.rig.ik_chains@[i as int]@);
            let t = self.rig.ik_chains[i].target;
            self.rig.set_selection(t);
            self.edit_bone = None;
            self.rig.tool = Tool::Translate;
        }
    }

    /// The "Remove IK" button.
    pub fn remove_ik_clicked(&mut self, chain: u32)
        requires
            old(self).wf(),
        ensures
            final(self).wf(),
            chain_deleted(
                old(self)@.rig,
                old(self)@.scene,
                chain,
                final(self)@.rig,
                final(self)@.scene,
            ),
            final(self)@ == cut_off(
                old(self)@,
                final(self)@.rig,
                final(self)@.scene,
                "IK removed"@,
            ),
    {
        self.drop_ik(chain, "IK removed".to_owned());
    }

    /// The "−" and "+" buttons of the IK length, which stays within 1 and 32.
    pub fn ik_length_stepped(&mut self, up: bool)
        requires
            old(self).wf(),
        ensures
            final(self).wf(),
            final(self)@ == (AppView {
                ik_create_length: if up {
                    if old(self)@.ik_create_length < MAX_IK_LENGTH {
                        (old(self)@.ik_create_length + 1) as usize
                    } else {
                        MAX_IK_LENGTH
                    }
                } else {
                    if old(self)@.ik_create_length > 1 {
                        (old(self)@.ik_create_length - 1) as usize
                    } else {
                        1
                    }
                },
                ..old(self)@
            }),
    {
        self.ik_create_length = if up {
            if self.ik_create_length < MAX_IK_LENGTH {
                self.ik_create_length + 1
            } else {
                MAX_IK_LENGTH
            }
        } else {
            if self.ik_create_length > 1 {
                self.ik_create_length - 1
            } else {
                1
            }
        };
    }

    /// The "Create IK" button: a chain on tip `sel`, controlled from the new
    /// nodes `target` and `pole`.
    pub fn create_ik_clicked(
        &mut self,
        sel: BoneId,
        target: NodeHandle,
        pole: NodeHandle,
        geo: IkGeometry,
    ) -> (r: bool)
        requires
            old(self).wf(),
            fresh(old(self)@.rig, old(self)@.scene, target),
            fresh(old(self)@.rig, old(self)@.scene, pole),
            target.index != pole.index,
            old(self).rig.next_ik_serial < u32::MAX,
            ik_plan(old(self)@.rig, sel, old(self)@.ik_create_length) is Ok
                ==> geo.lengths@.len() == ik_count(old(self)@.ik_create_length),
        ensures
            final(self).wf(),
            match ik_plan(old(self)@.rig, sel, old(self)@.ik_create_length) {
                Ok(bones) => {
                    let a = old(self)@;
                    let t = BoneId { node: target };
                    let p = BoneId { node: pole };
                    &&& r
                    &&& final(self)@ == (AppView {
                        status: "IK ×"@ + decimal_of(a.ik_create_length as nat)
                            + " · Move target, Rotate target = hand, Pole = elbow"@,
                        ..into_pose(
                            AppView {
                                rig: RigView {
                                    tool: Tool::Translate,
                                    ..ik_created(a.rig, sel, bones, t, p, geo)
                                },
                                scene: ik_scene(a.rig, a.scene, sel, t, p, geo),
                                edit_bone: None,
                                ..a
                            },
                        )
                    })
                },
                Err(e) => !r && final(self)@ == (AppView { status: e, ..old(self)@ }),
            },
    {
        let len = self.ik_create_length;
        match self.rig.create_ik_from_tip(&mut self.scene, sel, len, target, pole, geo) {
            Ok(_) => {
                self.edit_bone = None;
                self.rig.tool = Tool::Translate;
                if self.rig.mode != AppMode::Pose {
                    self.set_mode(AppMode::Pose);
                }
                let a = join("IK ×", &decimal(len as u64));
                self.status = join(&a, " · Move target, Rotate target = hand, Pole = elbow");
                true
            },
            Err(e) => {
                self.status = e.to_owned();
                false
            },
        }
    }

    /// A slider of soft chain `chain`.
    pub fn soft_field_edited(&mut self, chain: u32, f: SoftField, x: Scalar)
        requires
            old(self).wf(),
        ensures
            final(self).wf(),
            final(self)@ == (AppView {
                rig: RigView {
                    soft_chains: old(self)@.rig.soft_chains.map_values(
                        |c: SoftView|
                            if c.id == chain {
                                soft_field_set(c, f, x)
                            } else {
                                c
                            },
                    ),
                    ..old(self)@.rig
                },
                ..old(self)@
            }),
    {
        let ghost cs = self@.rig.soft_chains;
        let ghost want = cs.map_values(
            |c: SoftView|
                if c.id == chain {
                    soft_field_set(c, f, x)
                } else {
                    c
                },
        );
        let n = self.rig.soft_chains.len();
        let mut i: usize = 0;
        while i < n
            invariant
                i <= n,
                n == self.rig.soft_chains@.len(),
                n == cs.len(),
                want == cs.map_values(
                    |c: SoftView|
                        if c.id == chain {
                            soft_field_set(c, f, x)
                        } else {
                            c
                        },
                ),
                self@ == (AppView {
                    rig: RigView { soft_chains: self@.rig.soft_chains, ..old(self)@.rig },
                    ..old(self)@
                }),
                self.scene == old(self).scene,
                self.rig.bone_index == old(self).rig.bone_index,
                self.rig.selected == old(self).rig.selected,
                forall|j: int| 0 <= j < i ==> self@.rig.soft_chains[j] == want[j],
                forall|j: int| i <= j < n ==> self@.rig.soft_chains[j] == cs[j],
            decreases n - i,
        {
            let ghost was = self@.rig.soft_chains;
            assert(was[i as int] == cs[i as int]);
            if self.rig.soft_chains[i].id == chain {
                set_soft_field(&mut self.rig.soft_chains[i], f, x);
            }
            assert(forall|j: int| 0 <= j < n && j != i ==> self@.rig.soft_chains[j] == was[j]);
            assert(self@.rig.soft_chains[i as int] =~= want[i as int]);
            i = i + 1;
        }
        assert(self@.rig.soft_chains =~= want);
        proof {
            assert forall|i: int| 0 <= i < want.len() implies (#[trigger] want[i]).id == cs[i].id
                && want[i].bones == cs[i].bones && want[i].lengths == cs[i].lengths by {}
            assert forall|i: int, j: int| 0 <= i < j < want.len() implies (#[trigger] want[i]).id != (
            #[trigger] want[j]).id by {
                assert(cs[i].id != cs[j].id);
            }
        }
    }

    /// The "Remove Soft" button.
    pub fn remove_soft_clicked(&mut self, chain: u32)
        requires
            old(self).wf(),
        ensures
            final(self).wf(),
            final(self)@ == cut_off(
                old(self)@,
                RigView {
                    soft_chains: old(self)@.rig.soft_chains.filter(|c: SoftView| c.id != chain),
                    ..old(self)@.rig
                },
                old(self)@.scene,
                "Soft removed"@,
            ),
    {
        self.drop_soft(chain, "Soft removed".to_owned());
    }

    /// The "Create Soft" button.
    pub fn create_soft_clicked(&mut self, sel: BoneId, geo: SoftGeometry) -> (r: bool)
        requires
            old(self).wf(),
            old(self).rig.next_soft_serial < u32::MAX,
            soft_plan(old(self)@.rig, sel) matches Ok(run) ==> geo.lengths@.len() == run.1.len(),
        ensures
            final(self).wf(),
            match soft_plan(old(self)@.rig, sel) {
                Ok(run) => {
                    let a = old(self)@;
                    &&& r
                    &&& final(self)@ == (AppView {
                        status: "Soft created · Pose mode: gravity + support plane"@,
                        ..into_pose(
                            AppView {
                                rig: soft_added(a.rig, run.0, run.1, geo),
                                edit_bone: None,
                                ..a
                            },
                        )
                    })
                },
                Err(e) => !r && final(self)@ == (AppView { status: e, ..old(self)@ }),
            },
    {
        match self.rig.create_soft_from_bone(sel, geo) {
            Ok(_) => {
                self.edit_bone = None;
                if self.rig.mode != AppMode::Pose {
                    self.set_mode(AppMode::Pose);
                }
                self.status = "Soft created · Pose mode: gravity + support plane".to_owned();
                true
            },
            Err(e) => {
                self.status = e.to_owned();
                false
            },
        }
    }

    /// A field of collider `id`.
    pub fn collider_field_edited(&mut self, id: u32, e: ColliderEdit)
        requires
            old(self).wf(),
        ensures
            final(self).wf(),
            final(self)@ == (AppView {
                rig: RigView {
                    colliders: old(self)@.rig.colliders.map_values(
                        |c: BoneCollider|
                            if c.id == id {
                                collider_edited(c, e)
                            } else {
                                c
                            },
                    ),
                    ..old(self)@.rig
                },
                ..old(self)@
            }),
    {
        let ghost cs = self@.rig.colliders;
        let ghost want = cs.map_values(
            |c: BoneCollider|
                if c.id == id {
                    collider_edited(c, e)
                } else {
                    c
                },
        );
        let n = self.rig.colliders.len();
        let mut i: usize = 0;
        while i < n
            invariant
                i <= n,
                n == self.rig.colliders@.len(),
                n == cs.len(),
                want == cs.map_values(
                    |c: BoneCollider|
                        if c.id == id {
                            collider_edited(c, e)
                        } else {
                            c
                        },
                ),
                self@ == (AppView {
                    rig: RigView { colliders: self@.rig.colliders, ..old(self)@.rig },
                    ..old(self)@
                }),
                self.scene == old(self).scene,
                self.rig.bone_index == old(self).rig.bone_index,
                self.rig.selected == old(self).rig.selected,
                forall|j: int| 0 <= j < i ==> self@.rig.colliders[j] == want[j],
                forall|j: int| i <= j < n ==> self@.rig.colliders[j] == cs[j],
            decreases n - i,
        {
            let mut c = self.rig.colliders[i];
            if c.id == id {
                match e {
                    ColliderEdit::Enabled(enabled) => {
                        c.enabled = enabled;
                    },
                    ColliderEdit::Radius(x) => {
                        c.radius = hold_between(
                            x,
                            Scalar { bits: BITS_0_001 },
                            Scalar { bits: crate::node_body::BITS_0_5 },
                        );
                    },
                    ColliderEdit::Axis { a_local, b_local } => {
                        c.a_local = a_local;
                        c.b_local = b_local;
                    },
                    ColliderEdit::Softness(softness) => {
                        c.softness = softness;
                    },
                }
                self.rig.colliders.set(i, c);
            }
            i = i + 1;
        }
        assert(self@.rig.colliders =~= want);
        proof {
            assert forall|i: int| 0 <= i < want.len() implies (#[trigger] want[i]).id == cs[i].id
                && want[i].bone == cs[i].bone by {}
            assert forall|i: int, j: int| 0 <= i < j < want.len() implies (#[trigger] want[i]).id != (
            #[trigger] want[j]).id && want[i].bone != want[j].bone by {
                assert(cs[i].id != cs[j].id && cs[i].bone != cs[j].bone);
            }
        }
    }

    /// The "Remove Collider" button.
    pub fn remove_collider_clicked(&mut self, id: u32)
        requires
            old(self).wf(),
        ensures
            final(self).wf(),
            final(self)@ == (AppView {
                rig: RigView {
                    colliders: old(self)@.rig.colliders.filter(|c: BoneCollider| c.id != id),
                    ..old(self)@.rig
                },
                status: "Collider removed"@,
                ..old(self)@
            }),
    {
        self.rig.remove_collider(id);
        self.status = "Collider removed".to_owned();
    }

    /// The "Add Capsule Collider" button.
    pub fn add_collider_clicked(&mut self, sel: BoneId, geo: CapsuleGeometry) -> (r: bool)
        requires
            old(self).wf(),
            old(self).rig.next_collider_serial < u32::MAX,
        ensures
            final(self).wf(),
            r == (has_bone(old(self)@.rig.bones, sel) && !has_collider(
                old(self)@.rig.colliders,
                sel,
            )),
            final(self)@ == (if r {
                AppView {
                    rig: collider_added(old(self)@.rig, sel, geo),
                    status: "Capsule collider added"@,
                    ..old(self)@
                }
            } else {
                AppView {
                    status: if has_bone(old(self)@.rig.bones, sel) {
                        "Bone already has a collider"@
                    } else {
                        "Unknown bone"@
                    },
                    ..old(self)@
                }
            }),
    {
        match self.rig.create_capsule_collider(sel, geo) {
            Ok(_) => {
                self.status = "Capsule collider added".to_owned();
                true
            },
            Err(e) => {
                self.status = e.to_owned();
                false
            },
        }
    }

    /// The "Reset bone to bind" button.
    pub fn reset_bone_clicked(&mut self)
        requires
            old(self).wf(),
        ensures
            final(self).wf(),
            final(self)@ == (AppView {
                rig: RigView { overlay_dirty: true, ..old(self)@.rig },
                scene: SceneView {
                    nodes: reposed(
                        old(self)@.scene.nodes,
                        old(self)@.rig.selected,
                        old(self)@.rig.bind_locals,
                    ),
                    ..old(self)@.scene
                },
                edit_bone: None,
                ..old(self)@
            }),
    {
        self.rig.reset_selected(&mut self.scene);
        self.edit_bone = None;
    }
}

/// `r` with one more soft chain.
pub open spec fn soft_added(r: RigView, anchor: BoneId, bones: Seq<BoneId>, geo: SoftGeometry) -> RigView {
    RigView {
        soft_chains: r.soft_chains.push(
            crate::rig_chains::fresh_soft(
                r.next_soft_serial,
                "Soft_"@ + name_or(r.bones, bones[0], "Soft"@) + "×"@ + decimal_of(bones.len()),
                anchor,
                bones,
                geo,
            ),
        ),
        next_soft_serial: (r.next_soft_serial + 1) as u32,
        ..r
    }
}

/// `r` with one more collider.
pub open spec fn collider_added(r: RigView, bone: BoneId, geo: CapsuleGeometry) -> RigView {
    RigView {
        colliders: r.colliders.push(
            BoneCollider {
                id: r.next_collider_serial,
                bone,
                enabled: true,
                a_local: geo.a_local,
                b_local: geo.b_local,
                radius: larger(geo.radius, Scalar { bits: BITS_0_01 }),
                softness: Scalar { bits: BITS_SOFTNESS },
            },
        ),
        next_collider_serial: (r.next_collider_serial + 1) as u32,
        ..r
    }
}

} // verus!
