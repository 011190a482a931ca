//! The drawn skeleton: its sticks, its joints and how they look.

use vstd::prelude::*;
use crate::bones::{BoneId, BoneView};
use crate::rig::{IkControlKind, IkView, RigDocument, RigView};
use crate::rig_chains::control_kind;

verus! {

/// A stick of the skeleton. The host leaves out those without length.
#[derive(Clone, Copy, Debug, PartialEq, Eq, Structural)]
pub struct Stick {
    pub bone: BoneId,
    /// Where it leads; a stub along the bone's own axis where that is nowhere.
    pub tip: Option<BoneId>,
    pub selected: bool,
}

/// How a joint looks.
#[derive(Clone, Copy, Debug, PartialEq, Eq, Structural)]
pub enum JointLook {
    Plain,
    Selected,
    Target,
    Pole,
    /// A selected target or pole.
    SelectedControl,
}

/// The joint of a bone.
#[derive(Clone, Copy, Debug, PartialEq, Eq, Structural)]
pub struct Joint {
    pub bone: BoneId,
    pub look: JointLook,
}

pub struct Skeleton {
    pub sticks: Vec<Stick>,
    pub joints: Vec<Joint>,
}

/// The sticks from `bone` to the first `k` of `children`; IK controls get none.
pub open spec fn child_sticks(
    ik: Seq<IkView>,
    bone: BoneId,
    children: Seq<BoneId>,
    selected: bool,
    k: int,
) -> Seq<Stick>
    decreases k,
{
    if k <= 0 {
        Seq::empty()
    } else {
        let front = child_sticks(ik, bone, children, selected, k - 1);
        if control_kind(ik, children[k - 1]) is Some {
            front
        } else {
            front.push(Stick { bone, tip: Some(children[k - 1]), selected })
        }
    }
}

/// The sticks of one bone.
pub open spec fn sticks_of(r: RigView, b: BoneView) -> Seq<Stick> {
    let selected = r.selected.contains(b.id);
    if control_kind(r.ik_chains, b.id) is Some {
        Seq::empty()
    } else if b.children.len() == 0 {
        seq![Stick { bone: b.id, tip: None, selected }]
    } else {
        child_sticks(r.ik_chains, b.id, b.children, selected, b.children.len() as int)
    }
}

/// The sticks of the first `k` bones.
pub open spec fn all_sticks(r: RigView, k: int) -> Seq<Stick>
    decreases k,
{
    if k <= 0 {
        Seq::empty()
    } else {
        all_sticks(r, k - 1) + sticks_of(r, r.bones[k - 1])
    }
}

/// How the joint of bone `id` looks.
pub open spec fn look_of(r: RigView, id: BoneId) -> JointLook {
    match (control_kind(r.ik_chains, id), r.selected.contains(id)) {
        (None, false) => JointLook::Plain,
        (None, true) => JointLook::Selected,
        (Some(_), true) => JointLook::SelectedControl,
        (Some(IkControlKind::Target), false) => JointLook::Target,
        (Some(IkControlKind::Pole), false) => JointLook::Pole,
    }
}

/// The joints of all bones.
pub open spec fn all_joints(r: RigView) -> Seq<Joint> {
    Seq::new(
        r.bones.len(),
        |i: int| Joint { bone: r.bones[i].id, look: look_of(r, r.bones[i].id) },
    )
}

/// No stick starts or ends at an IK control.
pub proof fn law_controls_have_no_stick(r: RigView, k: int, i: int)
    requires
        0 <= k <= r.bones.len(),
        0 <= i < all_sticks(r, k).len(),
    ensures
        ({
            let s = all_sticks(r, k)[i];
            &&& control_kind(r.ik_chains, s.bone) is None
            &&& s.tip is Some ==> control_kind(r.ik_chains, s.tip->0) is None
            &&& s.selected == r.selected.contains(s.bone)
        }),
    decreases k,
{
    if k > 0 {
        let front = all_sticks(r, k - 1);
        let b = r.bones[k - 1];
        if i < front.len() {
            law_controls_have_no_stick(r, k - 1, i);
        } else if b.children.len() != 0 && control_kind(r.ik_chains, b.id) is None {
            lemma_child_sticks(
                r.ik_chains,
                b.id,
                b.children,
                r.selected.contains(b.id),
                b.children.len() as int,
                i - front.len(),
            );
        }
    }
}

proof fn lemma_child_sticks(
    ik: Seq<IkView>,
    bone: BoneId,
    children: Seq<BoneId>,
    selected: bool,
    k: int,
    i: int,
)
    requires
        0 <= k <= children.len(),
        0 <= i < child_sticks(ik, bone, children, selected, k).len(),
    ensures
        ({
            let s = child_sticks(ik, bone, children, selected, k)[i];
            &&& s.bone == bone && s.selected == selected
            &&& s.tip is Some && control_kind(ik, s.tip->0) is None
        }),
    decreases k,
{
    if k > 0 {
        if i < child_sticks(ik, bone, children, selected, k - 1).len() {
            lemma_child_sticks(ik, bone, children, selected, k - 1, i);
        }
    }
}

impl RigDocument {
    /// The sticks of the skeleton, bone by bone.
    pub fn bone_segments(&self) -> (r: Vec<Stick>)
        ensures
            r@ == all_sticks(self@, self@.bones.len() as int),
    {
        let mut out: Vec<Stick> = Vec::new();
        let mut i: usize = 0;
        while i < self.bones.len()
            invariant
                i <= self.bones@.len(),
                self@.bones.len() == self.bones@.len(),
                out@ == all_sticks(self@, i as int),
            decreases self.bones.len() - i,
        {
            let ghost b = self@.bones[i as int];
            assert(b == self.bones@[i as int]@);
            let ghost before = out@;
            let id = self.bones[i].id;
            if self.ik_control_kind(id).is_none() {
                let selected = self.is_selected(id);
                if self.bones[i].children.len() == 0 {
                    out.push(Stick { bone: id, tip: None, selected });
                    assert(out@ =~= before + sticks_of(self@, b));
                } else {
                    let mut k: usize = 0;
                    assert(out@ =~= before + child_sticks(self@.ik_chains, id, b.children, selected, 0));
                    while k < self.bones[i as usize].children.len()
                        invariant
                            i < self.bones@.len(),
                            k <= b.children.len(),
                            b == self.bones@[i as int]@,
                            out@ == before + child_sticks(
                                self@.ik_chains,
                                id,
                                b.children,
                                selected,
                                k as int,
                            ),
                        decreases b.children.len() - k,
                    {
                        let child = self.bones[i].children[k];
                        let ghost was = out@;
                        if self.ik_control_kind(child).is_none() {
                            out.push(Stick { bone: id, tip: Some(child), selected });
                            assert(out@ =~= before + child_sticks(
                                self@.ik_chains,
                                id,
                                b.children,
                                selected,
                                k as int + 1,
                            ));
                        }
                        k = k + 1;
                    }
                }
            } else {
                assert(out@ =~= before + sticks_of(self@, b));
            }
            i = i + 1;
        }
        out
    }

    /// How the joint of bone `id` looks.
    pub fn joint_look(&self, id: BoneId) -> (r: JointLook)
        ensures
            r == look_of(self@, id),
    {
        let selected = self.is_selected(id);
        match self.ik_control_kind(id) {
            None => if selected {
                JointLook::Selected
            } else {
                JointLook::Plain
            },
            Some(kind) => if selected {
                JointLook::SelectedControl
            } else {
                match kind {
                    IkControlKind::Target => JointLook::Target,
                    IkControlKind::Pole => JointLook::Pole,
                }
            },
        }
    }

    /// What is drawn of the skeleton; nothing where it is hidden.
    pub fn draw_rig_debug(&self) -> (r: Option<Skeleton>)
        ensures
            match r {
                Some(s) => {
                    &&& self@.show_skeleton
                    &&& s.sticks@ == all_sticks(self@, self@.bones.len() as int)
                    &&& s.joints@ == all_joints(self@)
                },
                None => !self@.show_skeleton,
            },
    {
        if !self.show_skeleton {
            return None;
        }
        let sticks = self.bone_segments();
        let mut joints: Vec<Joint> = Vec::new();
        let mut i: usize = 0;
        while i < self.bones.len()
            invariant
                i <= self.bones@.len(),
                self@.bones.len() == self.bones@.len(),
                joints@.len() == i,
                forall|j: int| 0 <= j < i ==> #[trigger] joints@[j] == all_joints(self@)[j],
            decreases self.bones.len() - i,
        {
            let id = self.bones[i].id;
            assert(self@.bones[i as int] == self.bones@[i as int]@);
            let look = self.joint_look(id);
            joints.push(Joint { bone: id, look });
            i = i + 1;
        }
        assert(joints@ =~= all_joints(self@));
        Some(Skeleton { sticks, joints })
    }
}

} // verus!
