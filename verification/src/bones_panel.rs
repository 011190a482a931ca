//! The bone panel: its buttons, the selection of a line of the tree, and the
//! lists of IK and soft chains.

use vstd::prelude::*;
use crate::bones::{has_bone, under, BoneId};
use crate::bone_tree::tree_id;
use crate::rig::{IkView, RigView, SoftView, Tool};
use crate::rig_chains::{ik_removed, ik_switched, soft_switched};
use crate::rig_edit::{active_after, cleared_of, doomed, ik_kept, nodes_without};
use crate::rig_select::reselected;
use crate::scene::SceneView;
use crate::session::{selection_status, AppState, AppView};
use crate::text::join;
use crate::tools::{bone_clicked, nothing_clicked};

verus! {

/// From rig `r0` and scene `s0`, deleting bone `id` with all that hangs under
/// it leads to `r1` and `s1`.
pub open spec fn subtree_deleted(
    r0: RigView,
    s0: SceneView,
    id: BoneId,
    r1: RigView,
    s1: SceneView,
) -> bool {
    if has_bone(r0.bones, id) {
        let dead = doomed(r0, id);
        let branch = Set::new(|x: BoneId| under(r0.bones, id, x));
        &&& r1 == cleared_of(r0, dead, ik_kept(r0.ik_chains, branch), r1.selection)
        &&& active_after(r0.selection, r1.selection, dead, r0.selected.difference(dead))
        &&& s1 == (SceneView { nodes: nodes_without(s0.nodes, dead), ..s0 })
    } else {
        r1 == r0 && s1 == s0
    }
}

/// Removing IK chain `id` with its controls leads from `r0` and `s0` to `r1`
/// and `s1`; without such a chain nothing changes.
pub open spec fn chain_deleted(r0: RigView, s0: SceneView, id: u32, r1: RigView, s1: SceneView) -> bool {
    &&& (forall|i: int| 0 <= i < r0.ik_chains.len() ==> (#[trigger] r0.ik_chains[i]).id != id)
        ==> r1 == r0 && s1 == s0
    &&& forall|i: int|
        0 <= i < r0.ik_chains.len() && (#[trigger] r0.ik_chains[i]).id == id ==> ik_removed(
            r0,
            s0,
            i,
            r1,
            s1,
        )
}

/// Chain `i` is the IK chain with id `id`.
pub open spec fn ik_at(cs: Seq<IkView>, id: u32, i: int) -> bool {
    0 <= i < cs.len() && cs[i].id == id
}

/// The target of IK chain `id`.
pub open spec fn target_of(cs: Seq<IkView>, id: u32) -> Option<BoneId> {
    if has_ik(cs, id) {
        Some(cs[ik_place(cs, id)].target)
    } else {
        None
    }
}

pub open spec fn has_ik(cs: Seq<IkView>, id: u32) -> bool {
    exists|i: int| ik_at(cs, id, i)
}

pub open spec fn ik_place(cs: Seq<IkView>, id: u32) -> int {
    choose|i: int| ik_at(cs, id, i)
}

/// Chain `i` is the soft chain with id `id`.
pub open spec fn soft_at(cs: Seq<SoftView>, id: u32, i: int) -> bool {
    0 <= i < cs.len() && cs[i].id == id
}

pub open spec fn has_soft(cs: Seq<SoftView>, id: u32) -> bool {
    exists|i: int| soft_at(cs, id, i)
}

pub open spec fn soft_place(cs: Seq<SoftView>, id: u32) -> int {
    choose|i: int| soft_at(cs, id, i)
}

/// The root joint of soft chain `id`.
pub open spec fn soft_root(cs: Seq<SoftView>, id: u32) -> Option<BoneId> {
    if has_soft(cs, id) {
        Some(cs[soft_place(cs, id)].bones[0])
    } else {
        None
    }
}

/// What the button of a chain says.
pub open spec fn chain_text(name: Seq<char>, enabled: bool) -> Seq<char> {
    (if enabled {
        "● "@
    } else {
        "○ "@
    }) + name
}

/// What the button of a chain says.
pub fn chain_label(name: &str, enabled: bool) -> (r: String)
    ensures
        r@ == chain_text(name@, enabled),
{
    if enabled {
        join("● ", name)
    } else {
        join("○ ", name)
    }
}

/// What the status line says after a chain named `name` was switched.
pub open spec fn switched_text(name: Seq<char>, enabled: bool) -> Seq<char> {
    name + (if enabled {
        " enabled"@
    } else {
        " muted"@
    })
}

fn switched_status(name: &str, enabled: bool) -> (r: String)
    ensures
        r@ == switched_text(name@, enabled),
{
    if enabled {
        join(name, " enabled")
    } else {
        join(name, " muted")
    }
}

/// `a` with nothing dragged or inspected any more, saying `status`, after its
/// rig and scene changed.
pub open spec fn cut_off(a: AppView, rig: RigView, scene: SceneView, status: Seq<char>) -> AppView {
    AppView { rig, scene, drag: None, edit_bone: None, status, ..a }
}

impl AppState {
    /// The "Extrude" button: the bone to extrude.
    pub fn extrude_clicked(&mut self) -> (r: Option<BoneId>)
        requires
            old(self).wf(),
        ensures
            final(self).wf(),
            r == old(self)@.rig.selection,
            final(self)@ == (if r is None {
                AppView { status: "Select a bone to extrude"@, ..old(self)@ }
            } else {
                old(self)@
            }),
    {
        if self.rig.selection.is_none() {
            self.status = "Select a bone to extrude".to_owned();
        }
        self.rig.selection
    }

    /// The "Delete" button: deletes the active bone with its branch.
    pub fn delete_clicked(&mut self)
        requires
            old(self).wf(),
        ensures
            final(self).wf(),
            match old(self)@.rig.selection {
                None => final(self)@ == old(self)@,
                Some(sel) => {
                    &&& subtree_deleted(
                        old(self)@.rig,
                        old(self)@.scene,
                        sel,
                        final(self)@.rig,
                        final(self)@.scene,
                    )
                    &&& final(self)@ == cut_off(
                        old(self)@,
                        final(self)@.rig,
                        final(self)@.scene,
                        "Deleted bone subtree"@,
                    )
                },
            },
    {
        let sel = match self.rig.selection {
            Some(sel) => sel,
            None => {
                return;
            },
        };
        self.rig.delete_bone_subtree(&mut self.scene, sel);
        self.drag = None;
        self.edit_bone = None;
        self.status = "Deleted bone subtree".to_owned();
    }

    /// The tree has line `line` selected; it had the line of `before`.
    pub fn tree_selected(&mut self, before: Option<BoneId>, line: Option<&str>)
        requires
            old(self).wf(),
        ensures
            final(self).wf(),
            ({
                let a = old(self)@;
                let b = final(self)@;
                match line {
                    Some(s) => {
                        &&& forall|id: BoneId|
                            has_bone(a.rig.bones, id) && #[trigger] tree_id(id) == s@ ==> b == (
                            if before == Some(id) {
                                a
                            } else {
                                bone_clicked(a, id)
                            })
                        &&& (forall|id: BoneId|
                            has_bone(a.rig.bones, id) ==> #[trigger] tree_id(id) != s@) ==> b == (
                        if before is None {
                            a
                        } else {
                            nothing_clicked(a)
                        })
                    },
                    None => b == (if before is None {
                        a
                    } else {
                        nothing_clicked(a)
                    }),
                }
            }),
    {
        let now = match line {
            Some(s) => self.rig.bone_of_line(s),
            None => None,
        };
        proof {
            if line is Some {
                let s = line->0@;
                assert forall|id: BoneId| has_bone(self@.rig.bones, id) && #[trigger] tree_id(id) == s
                    implies now == Some(id) by {
                    match now {
                        Some(x) => {
                            crate::bone_tree::law_tree_id_injective(id, x);
                        },
                        None => {},
                    }
                }
            }
        }
        match now {
            Some(id) => {
                let same = match before {
                    Some(b) => b == id,
                    None => false,
                };
                if !same {
                    self.rig.set_selection(id);
                    self.edit_bone = None;
                    self.status_from_selection();
                }
            },
            None => {
                if before.is_some() {
                    self.rig.clear_selection();
                    self.edit_bone = None;
                    self.status_from_selection();
                }
            },
        }
    }

    /// The button that switches IK chain `id`, named `name`, on or off.
    pub fn ik_switch_clicked(&mut self, id: u32, name: &str, enabled: bool)
        requires
            old(self).wf(),
        ensures
            final(self).wf(),
            final(self)@ == (AppView {
                rig: RigView {
                    ik_chains: old(self)@.rig.ik_chains.map_values(
                        |c: IkView| ik_switched(c, id, !enabled),
                    ),
                    ..old(self)@.rig
                },
                status: switched_text(name@, !enabled),
                ..old(self)@
            }),
    {
        self.rig.set_ik_enabled(id, !enabled);
        self.status = switched_status(name, !enabled);
    }

    /// Place of IK chain `id`.
    pub(crate) fn find_ik(&self, id: u32) -> (r: Option<usize>)
        requires
            self.wf(),
        ensures
            match r {
                Some(i) => has_ik(self@.rig.ik_chains, id) && i == ik_place(self@.rig.ik_chains, id)
                    && i < self.rig.ik_chains@.len(),
                None => !has_ik(self@.rig.ik_chains, id),
            },
    {
        let ghost cs = self@.rig.ik_chains;
        let mut i: usize = 0;
        while i < self.rig.ik_chains.len()
            invariant
                i <= self.rig.ik_chains@.len(),
                self.wf(),
                cs == self@.rig.ik_chains,
                forall|j: int| 0 <= j < i ==> !ik_at(cs, id, j),
            decreases self.rig.ik_chains.len() - i,
        {
            assert(cs[i as int] == self.rig.ik_chains@[i as int]@);
            if self.rig.ik_chains[i].id == id {
                proof {
                    assert(ik_at(cs, id, i as int));
                    let k = ik_place(cs, id);
                    assert(ik_at(cs, id, k));
                    if i < k {
                        assert(cs[i as int].id != cs[k].id);
                    }
                }
                return Some(i);
            }
            i = i + 1;
        }
        None
    }

    /// The "Sel" button of IK chain `id`: its target, ready to be moved.
    pub fn ik_select_clicked(&mut self, id: u32)
        requires
            old(self).wf(),
        ensures
            final(self).wf(),
            final(self)@ == (match target_of(old(self)@.rig.ik_chains, id) {
                Some(t) => AppView {
                    rig: RigView {
                        tool: Tool::Translate,
                        ..reselected(old(self)@.rig, Set::empty().insert(t), Some(t))
                    },
                    edit_bone: None,
                    status: selection_status(
                        reselected(old(self)@.rig, Set::empty().insert(t), Some(t)),
                    ),
                    ..old(self)@
                },
                None => old(self)@,
            }),
    {
        if let Some(i) = self.find_ik(id) {
            assert(self@.rig.ik_chains[i as int] == self.rig.ik_chains@[i as int]@);
            let t = self.rig.ik_chains[i].target;
            self.rig.set_selection(t);
            self.edit_bone = None;
            self.rig.tool = Tool::Translate;
            self.status_from_selection();
        }
    }

    /// Removes IK chain `id` and says `status`.
    pub(crate) fn drop_ik(&mut self, id: u32, status: String)
        requires
            old(self).wf(),
        ensures
            final(self).wf(),
            chain_deleted(
                old(self)@.rig,
                old(self)@.scene,
                id,
                final(self)@.rig,
                final(self)@.scene,
            ),
            final(self)@ == cut_off(
                old(self)@,
                final(self)@.rig,
                final(self)@.scene,
                status@,
            ),
    {
        self.rig.remove_ik_chain(&mut self.scene, id);
        self.drag = None;
        self.edit_bone = None;
        self.status = status;
    }

    /// The "X" button of IK chain `id`, named `name`.
    pub fn ik_remove_clicked(&mut self, id: u32, name: &str)
        requires
            old(self).wf(),
        ensures
            final(self).wf(),
            chain_deleted(
                old(self)@.rig,
                old(self)@.scene,
                id,
                final(self)@.rig,
                final(self)@.scene,
            ),
            final(self)@ == cut_off(
                old(self)@,
                final(self)@.rig,
                final(self)@.scene,
                "Removed "@ + name@,
            ),
    {
        self.drop_ik(id, join("Removed ", name));
    }

    /// The button that switches soft chain `id`, named `name`, on or off.
    pub fn soft_switch_clicked(&mut self, id: u32, name: &str, enabled: bool)
        requires
            old(self).wf(),
        ensures
            final(self).wf(),
            final(self)@ == (AppView {
                rig: RigView {
                    soft_chains: old(self)@.rig.soft_chains.map_values(
                        |c: SoftView| soft_switched(c, id, !enabled),
                    ),
                    ..old(self)@.rig
                },
                status: switched_text(name@, !enabled),
                ..old(self)@
            }),
    {
        self.rig.set_soft_enabled(id, !enabled);
        self.status = switched_status(name, !enabled);
    }

    /// The "Sel" button of soft chain `id`: its root.
    pub fn soft_select_clicked(&mut self, id: u32)
        requires
            old(self).wf(),
        ensures
            final(self).wf(),
            final(self)@ == (match soft_root(old(self)@.rig.soft_chains, id) {
                Some(b) => bone_clicked(old(self)@, b),
                None => old(self)@,
            }),
    {
        let ghost cs = self@.rig.soft_chains;
        let mut i: usize = 0;
        while i < self.rig.soft_chains.len()
            invariant
                i <= self.rig.soft_chains@.len(),
                self.wf(),
                *self == *old(self),
                cs == self@.rig.soft_chains,
                forall|j: int| 0 <= j < i ==> !soft_at(cs, id, j),
            decreases self.rig.soft_chains.len() - i,
        {
            assert(cs[i as int] == self.rig.soft_chains@[i as int]@);
            if self.rig.soft_chains[i].id == id {
                proof {
                    assert(soft_at(cs, id, i as int));
                    let k = soft_place(cs, id);
                    assert(soft_at(cs, id, k));
                    if i < k {
                        assert(cs[i as int].id != cs[k].id);
                    }
                    assert(cs[i as int].bones.len() >= 2);
                }
                let b = self.rig.soft_chains[i].bones[0];
                self.rig.set_selection(b);
                self.edit_bone = None;
                self.status_from_selection();
                return;
            }
            i = i + 1;
        }
        assert(!has_soft(cs, id));
    }

    /// Removes soft chain `id` and says `status`.
    pub(crate) fn drop_soft(&mut self, id: u32, status: String)
        requires
            old(self).wf(),
        ensures
            final(self).wf(),
            final(self)@ == cut_off(
                old(self)@,
                RigView {
                    soft_chains: old(self)@.rig.soft_chains.filter(|c: SoftView| c.id != id),
                    ..old(self)@.rig
                },
                old(self)@.scene,
                status@,
            ),
    {
        self.rig.remove_soft_chain(id);
        self.drag = None;
        self.edit_bone = None;
        self.status = status;
    }

    /// The "X" button of soft chain `id`, named `name`.
    pub fn soft_remove_clicked(&mut self, id: u32, name: &str)
        requires
            old(self).wf(),
        ensures
            final(self).wf(),
            final(self)@ == cut_off(
                old(self)@,
                RigView {
                    soft_chains: old(self)@.rig.soft_chains.filter(|c: SoftView| c.id != id),
                    ..old(self)@.rig
                },
                old(self)@.scene,
                "Removed "@ + name@,
            ),
    {
        self.drop_soft(id, join("Removed ", name));
    }
}

} // verus!
