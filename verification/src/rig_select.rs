//! Selecting bones: the active bone, the set of selected ones, and the order in
//! which selections are listed.

use vstd::prelude::*;
use std::collections::HashMap;
use crate::bones::{
    acyclic, bone_at, bone_pos, bones_view, has_bone, parent_of, ranked, BoneId, BoneView,
};
use crate::driver::lists_bone;
use crate::geom::{scalar, scalar_of, Rect, Vec2, BITS_ZERO};
use crate::rig::{
    drivers_view, ik_view, index_ok, rig_ok, soft_view, AppMode, BrushKind, MoveMode, RigDocument,
    RigView, Tool, TransformSpace, WeightOverlayCache,
};

verus! {

/// Bit pattern of `0.08`.
pub const BITS_0_08: u32 = 0x3DA3_D70A;

/// Bit pattern of `0.65`.
pub const BITS_0_65: u32 = 0x3F26_6666;

/// The empty rig document.
pub open spec fn empty_rig() -> RigView {
    RigView {
        source_path: None,
        model_root: None,
        bones: Seq::empty(),
        selection: None,
        selected: Set::empty(),
        bind_locals: Map::empty(),
        show_skeleton: true,
        show_mesh: true,
        show_weights: false,
        show_colliders: true,
        overlay_dirty: true,
        overlay_tris: Seq::empty(),
        mode: AppMode::Pose,
        tool: Tool::Rotate,
        move_mode: MoveMode::Fk,
        transform_space: TransformSpace::Local,
        ik_chains: Seq::empty(),
        soft_chains: Seq::empty(),
        colliders: Seq::empty(),
        drivers: Seq::empty(),
        active_mesh: None,
        active_shape: None,
        brush_radius: scalar_of(BITS_0_08),
        brush_strength: scalar_of(BITS_0_65),
        brush_kind: BrushKind::Grab,
        viewport_rect: Rect {
            min: Vec2 { x: scalar_of(BITS_ZERO), y: scalar_of(BITS_ZERO) },
            max: Vec2 { x: scalar_of(BITS_ZERO), y: scalar_of(BITS_ZERO) },
        },
        next_bone_serial: 1,
        next_ik_serial: 1,
        next_soft_serial: 1,
        next_collider_serial: 1,
        next_shape_serial: 1,
    }
}

/// Without bones there is nothing to be wrong with.
pub proof fn lemma_no_bones(index: Map<u64, usize>)
    ensures
        crate::bones::forest(Seq::<BoneView>::empty()),
        index == Map::<u64, usize>::empty() ==> index_ok(Seq::<BoneView>::empty(), index),
{
    let bs = Seq::<BoneView>::empty();
    let rank = |id: BoneId| 0nat;
    assert(ranked(bs, rank, 1));
    assert(acyclic(bs));
}

impl Default for RigDocument {
    fn default() -> (r: Self)
        ensures
            r.wf(),
            r@ == empty_rig(),
    {
        let zero = Vec2 { x: scalar(BITS_ZERO), y: scalar(BITS_ZERO) };
        let r = RigDocument {
            source_path: None,
            model_root: None,
            bones: Vec::new(),
            bone_index: HashMap::new(),
            selection: None,
            selected: Vec::new(),
            bind_locals: HashMap::new(),
            show_skeleton: true,
            show_mesh: true,
            show_weights: false,
            show_colliders: true,
            weight_overlay: WeightOverlayCache { dirty: true, tris: Vec::new() },
            mode: AppMode::Pose,
            tool: Tool::Rotate,
            move_mode: MoveMode::Fk,
            transform_space: TransformSpace::Local,
            ik_chains: Vec::new(),
            soft_chains: Vec::new(),
            colliders: Vec::new(),
            drivers: Vec::new(),
            active_mesh: None,
            active_shape: None,
            brush_radius: scalar(BITS_0_08),
            brush_strength: scalar(BITS_0_65),
            brush_kind: BrushKind::Grab,
            viewport_rect: Rect { min: zero, max: zero },
            next_bone_serial: 1,
            next_ik_serial: 1,
            next_soft_serial: 1,
            next_collider_serial: 1,
            next_shape_serial: 1,
        };
        proof {
            assert(bones_view(r.bones@) =~= Seq::empty());
            assert(ik_view(r.ik_chains@) =~= Seq::empty());
            assert(soft_view(r.soft_chains@) =~= Seq::empty());
            assert(drivers_view(r.drivers@) =~= Seq::empty());
            lemma_no_bones(r.bone_index@);
        }
        assert(r@ =~= empty_rig());
        r
    }
}

/// One of `set`, or nothing where `set` is empty.
pub open spec fn picked(sel: Option<BoneId>, set: Set<BoneId>) -> bool {
    match sel {
        Some(a) => set.contains(a),
        None => set == Set::<BoneId>::empty(),
    }
}

/// `r` with the selection `selected`, the active bone `active`, and the weight
/// overlay to be rebuilt.
pub open spec fn reselected(r: RigView, selected: Set<BoneId>, active: Option<BoneId>) -> RigView {
    RigView { selected, selection: active, overlay_dirty: true, ..r }
}

/// In a selection listing, `a` comes before `b`: the active bone first, then by
/// node index and generation.
pub open spec fn listed_before(active: Option<BoneId>, a: BoneId, b: BoneId) -> bool {
    if active == Some(a) {
        active != Some(b)
    } else if active == Some(b) {
        false
    } else {
        a.node.index < b.node.index || (a.node.index == b.node.index && a.node.generation
            < b.node.generation)
    }
}

/// `s` lists the bones of `set`, each once, in listing order.
pub open spec fn lists(s: Seq<BoneId>, set: Set<BoneId>, active: Option<BoneId>) -> bool {
    &&& forall|id: BoneId| #[trigger] s.contains(id) <==> set.contains(id)
    &&& forall|i: int, j: int|
        0 <= i < j < s.len() ==> listed_before(active, #[trigger] s[i], #[trigger] s[j])
}

/// A selected bone whose parent is not selected.
pub open spec fn is_selection_root(r: RigView, id: BoneId) -> bool {
    r.selected.contains(id) && match parent_of(r.bones, id) {
        Some(p) => !r.selected.contains(p),
        None => true,
    }
}

/// Where something is selected, some selected bone has no selected parent, so
/// a transform always has a bone to act on.
pub proof fn law_selection_has_root(r: RigView)
    requires
        rig_ok(r),
        r.selection is Some,
    ensures
        exists|id: BoneId| #[trigger] is_selection_root(r, id),
{
    let (rank, bound) = choose|rank: spec_fn(BoneId) -> nat, bound: nat|
        crate::bones::ranked(r.bones, rank, bound);
    lemma_root_above(r, rank, bound, r.selection->0);
}

/// Going up from a selected bone one meets a selection root.
proof fn lemma_root_above(r: RigView, rank: spec_fn(BoneId) -> nat, bound: nat, id: BoneId)
    requires
        rig_ok(r),
        crate::bones::ranked(r.bones, rank, bound),
        r.selected.contains(id),
    ensures
        exists|x: BoneId| #[trigger] is_selection_root(r, x),
    decreases rank(id),
{
    if is_selection_root(r, id) {
    } else {
        let p = parent_of(r.bones, id)->0;
        let i = bone_pos(r.bones, id);
        assert(bone_at(r.bones, id, i));
        if has_bone(r.bones, p) {
            assert(r.bones[i].parent == Some(p));
            lemma_root_above(r, rank, bound, p);
        } else {
            assert(parent_of(r.bones, p) is None);
            assert(is_selection_root(r, p));
        }
    }
}

/// Removing one occurrence from a list without repetitions removes it from the set.
pub proof fn lemma_remove_to_set(s: Seq<BoneId>, i: int)
    requires
        s.no_duplicates(),
        0 <= i < s.len(),
    ensures
        s.remove(i).no_duplicates(),
        s.remove(i).to_set() == s.to_set().remove(s[i]),
{
    let t = s.remove(i);
    assert forall|a: int, b: int| 0 <= a < t.len() && 0 <= b < t.len() && a != b implies t[a]
        != t[b] by {
        let x = if a < i {
            a
        } else {
            a + 1
        };
        let y = if b < i {
            b
        } else {
            b + 1
        };
        assert(t[a] == s[x] && t[b] == s[y]);
    }
    assert forall|x: BoneId| t.to_set().contains(x) <==> s.to_set().remove(s[i]).contains(x) by {
        if t.contains(x) {
            let a = choose|a: int| 0 <= a < t.len() && t[a] == x;
            if a < i {
                assert(s[a] == x);
            } else {
                assert(s[a + 1] == x);
            }
        }
        if s.contains(x) && x != s[i] {
            let a = choose|a: int| 0 <= a < s.len() && s[a] == x;
            if a < i {
                assert(t[a] == x);
            } else {
                assert(t[a - 1] == x);
            }
        }
    }
    assert(t.to_set() =~= s.to_set().remove(s[i]));
}

/// Adding a new element adds it to the set.
pub proof fn lemma_push_to_set(s: Seq<BoneId>, x: BoneId)
    ensures
        s.push(x).to_set() == s.to_set().insert(x),
        s.no_duplicates() && !s.contains(x) ==> s.push(x).no_duplicates(),
{
    let t = s.push(x);
    assert forall|y: BoneId| t.to_set().contains(y) <==> s.to_set().insert(x).contains(y) by {
        if s.contains(y) {
            let a = choose|a: int| 0 <= a < s.len() && s[a] == y;
            assert(t[a] == y);
        }
        if y == x {
            assert(t[s.len() as int] == x);
        }
        if t.contains(y) {
            let a = choose|a: int| 0 <= a < t.len() && t[a] == y;
            if a < s.len() {
                assert(s[a] == y);
            }
        }
    }
    assert(t.to_set() =~= s.to_set().insert(x));
}

fn before(active: Option<BoneId>, a: BoneId, b: BoneId) -> (r: bool)
    ensures
        r == listed_before(active, a, b),
{
    let a_active = match active {
        Some(x) => x == a,
        None => false,
    };
    let b_active = match active {
        Some(x) => x == b,
        None => false,
    };
    if a_active {
        !b_active
    } else if b_active {
        false
    } else {
        a.node.index < b.node.index || (a.node.index == b.node.index && a.node.generation
            < b.node.generation)
    }
}

/// The bones of `v`, in listing order.
fn in_order(v: &Vec<BoneId>, active: Option<BoneId>) -> (r: Vec<BoneId>)
    requires
        v@.no_duplicates(),
    ensures
        lists(r@, v@.to_set(), active),
{
    let mut out: Vec<BoneId> = Vec::new();
    let mut i: usize = 0;
    while i < v.len()
        invariant
            i <= v@.len(),
            v@.no_duplicates(),
            forall|id: BoneId| #[trigger] out@.contains(id) <==> v@.take(i as int).contains(id),
            forall|a: int, b: int|
                0 <= a < b < out@.len() ==> listed_before(
                    active,
                    #[trigger] out@[a],
                    #[trigger] out@[b],
                ),
        decreases v.len() - i,
    {
        let x = v[i];
        assert(!out@.contains(x)) by {
            if out@.contains(x) {
                assert(v@.take(i as int).contains(x));
                let k = choose|k: int| 0 <= k < i && v@.take(i as int)[k] == x;
                assert(v@[k] == v@[i as int]);
            }
        }
        let mut p: usize = 0;
        while p < out.len() && before(active, out[p], x)
            invariant
                p <= out@.len(),
                forall|a: int| 0 <= a < p ==> listed_before(active, #[trigger] out@[a], x),
            decreases out.len() - p,
        {
            p = p + 1;
        }
        let ghost o = out@;
        if p < out.len() {
            assert(o.contains(o[p as int]));
            assert(!listed_before(active, o[p as int], x));
            assert(listed_before(active, x, o[p as int]));
        }
        out.insert(p, x);
        assert(out@ == o.insert(p as int, x));
        assert forall|a: int, b: int| 0 <= a < b < out@.len() implies listed_before(
            active,
            #[trigger] out@[a],
            #[trigger] out@[b],
        ) by {
            if a == p {
                if b > p + 1 {
                    assert(listed_before(active, o[p as int], o[b - 1]));
                }
            } else if b == p {
                assert(listed_before(active, o[a], x));
            } else {
                let u = if a < p {
                    a
                } else {
                    a - 1
                };
                let w = if b < p {
                    b
                } else {
                    b - 1
                };
                assert(listed_before(active, o[u], o[w]));
            }
        }
        assert forall|id: BoneId| #[trigger] out@.contains(id) <==> v@.take(i as int + 1).contains(
            id,
        ) by {
            let t = v@.take(i as int);
            assert(v@.take(i as int + 1) =~= t.push(x));
            if out@.contains(id) {
                let k = choose|k: int| 0 <= k < out@.len() && out@[k] == id;
                if k == p {
                    assert(t.push(x)[i as int] == id);
                } else {
                    let u = if k < p {
                        k
                    } else {
                        k - 1
                    };
                    assert(o[u] == id);
                    assert(o.contains(id));
                    let m = choose|m: int| 0 <= m < t.len() && t[m] == id;
                    assert(t.push(x)[m] == id);
                }
            }
            if t.push(x).contains(id) {
                let m = choose|m: int| 0 <= m < t.push(x).len() && t.push(x)[m] == id;
                if m == i {
                    assert(out@[p as int] == id);
                } else {
                    assert(t[m] == id);
                    assert(o.contains(id));
                    let k = choose|k: int| 0 <= k < o.len() && o[k] == id;
                    assert(out@[if k < p {
                        k
                    } else {
                        k + 1
                    }] == id);
                }
            }
        }
        i = i + 1;
    }
    assert(v@.take(i as int) =~= v@);
    assert forall|id: BoneId| #[trigger] out@.contains(id) <==> v@.to_set().contains(id) by {
        assert(v@.take(i as int).contains(id) == v@.contains(id));
    }
    out
}

impl RigDocument {
    /// Mark weight overlay for rebuild (selection / pose / mesh change).
    pub fn invalidate_weight_overlay(&mut self)
        ensures
            final(self)@ == (RigView { overlay_dirty: true, ..old(self)@ }),
            old(self).wf() ==> final(self).wf(),
    {
        self.weight_overlay.dirty = true;
    }

    pub fn clear_selection(&mut self)
        requires
            old(self).wf(),
        ensures
            final(self).wf(),
            final(self)@ == reselected(old(self)@, Set::empty(), None),
    {
        self.selected.clear();
        self.selection = None;
        self.invalidate_weight_overlay();
        assert(self.selected@.to_set() =~= Set::empty());
    }

    /// Selects `id` alone and makes it active.
    pub fn set_selection(&mut self, id: BoneId)
        requires
            old(self).wf(),
        ensures
            final(self).wf(),
            final(self)@ == reselected(old(self)@, Set::empty().insert(id), Some(id)),
    {
        self.selected.clear();
        let ghost e = self.selected@;
        self.selected.push(id);
        proof {
            assert(e.to_set() =~= Set::empty());
            lemma_push_to_set(e, id);
        }
        self.selection = Some(id);
        self.invalidate_weight_overlay();
    }

    /// Removes `id` from the selected set; whether it was there.
    pub(crate) fn deselect(&mut self, id: BoneId) -> (r: bool)
        requires
            old(self).selected@.no_duplicates(),
        ensures
            r == old(self)@.selected.contains(id),
            final(self)@ == (RigView { selected: old(self)@.selected.remove(id), ..old(self)@ }),
            final(self).selected@.no_duplicates(),
            final(self).bone_index == old(self).bone_index,
    {
        let mut i: usize = 0;
        while i < self.selected.len()
            invariant
                i <= self.selected@.len(),
                forall|j: int| 0 <= j < i ==> self.selected@[j] != id,
                *self == *old(self),
                self.selected@.no_duplicates(),
            decreases self.selected.len() - i,
        {
            if self.selected[i] == id {
                proof {
                    lemma_remove_to_set(self.selected@, i as int);
                    assert(self.selected@.contains(self.selected@[i as int]));
                }
                let _gone = self.selected.remove(i);
                return true;
            }
            i = i + 1;
        }
        assert(!self.selected@.contains(id));
        assert(self@.selected.remove(id) =~= self@.selected);
        false
    }

    /// Adds `id` to the selected set.
    pub(crate) fn select(&mut self, id: BoneId)
        requires
            old(self).selected@.no_duplicates(),
        ensures
            final(self)@ == (RigView { selected: old(self)@.selected.insert(id), ..old(self)@ }),
            final(self).selected@.no_duplicates(),
            final(self).bone_index == old(self).bone_index,
    {
        if !lists_bone(&self.selected, id) {
            proof {
                lemma_push_to_set(self.selected@, id);
            }
            self.selected.push(id);
        } else {
            assert(self@.selected.insert(id) =~= self@.selected);
        }
    }

    /// Some selected bone, if there is one.
    pub(crate) fn any_selected(&self) -> (r: Option<BoneId>)
        ensures
            picked(r, self@.selected),
    {
        if self.selected.len() == 0 {
            assert(self.selected@.to_set() =~= Set::empty());
            None
        } else {
            assert(self.selected@.contains(self.selected@[0]));
            Some(self.selected[0])
        }
    }

    /// Adds `id` to the selection and makes it active, or takes it out; a bone
    /// that was active hands over to another selected one.
    pub fn toggle_selection(&mut self, id: BoneId)
        requires
            old(self).wf(),
        ensures
            final(self).wf(),
            !old(self)@.selected.contains(id) ==> final(self)@ == reselected(
                old(self)@,
                old(self)@.selected.insert(id),
                Some(id),
            ),
            old(self)@.selected.contains(id) ==> {
                &&& final(self)@ == reselected(
                    old(self)@,
                    old(self)@.selected.remove(id),
                    final(self)@.selection,
                )
                &&& if old(self)@.selection == Some(id) {
                    picked(final(self)@.selection, old(self)@.selected.remove(id))
                } else {
                    final(self)@.selection == old(self)@.selection
                }
            },
    {
        if lists_bone(&self.selected, id) {
            let _was = self.deselect(id);
            let active = match self.selection {
                Some(a) => a == id,
                None => false,
            };
            if active {
                self.selection = self.any_selected();
            }
        } else {
            self.select(id);
            self.selection = Some(id);
        }
        self.invalidate_weight_overlay();
    }

    /// Replace or union selection with `ids`. Active = last id (if any).
    pub fn select_bones(&mut self, ids: &Vec<BoneId>, additive: bool)
        requires
            old(self).wf(),
        ensures
            final(self).wf(),
            final(self)@ == reselected(
                old(self)@,
                if additive {
                    old(self)@.selected.union(ids@.to_set())
                } else {
                    ids@.to_set()
                },
                if ids@.len() > 0 {
                    Some(ids@.last())
                } else if additive {
                    old(self)@.selection
                } else {
                    None
                },
            ),
    {
        if !additive {
            self.selected.clear();
            self.selection = None;
            assert(self.selected@.to_set() =~= Set::empty());
        }
        let ghost base = self@;
        let mut i: usize = 0;
        assert(ids@.take(0).to_set() =~= Set::empty());
        assert(base.selected.union(Set::empty()) =~= base.selected);
        while i < ids.len()
            invariant
                i <= ids@.len(),
                self@ == (RigView {
                    selected: base.selected.union(ids@.take(i as int).to_set()),
                    ..base
                }),
                self.selected@.no_duplicates(),
                self.bone_index == old(self).bone_index,
            decreases ids.len() - i,
        {
            self.select(ids[i]);
            proof {
                let t = ids@.take(i as int);
                assert(ids@.take(i as int + 1) =~= t.push(ids@[i as int]));
                lemma_push_to_set(t, ids@[i as int]);
                assert(base.selected.union(t.to_set().insert(ids@[i as int])) =~= base.selected.union(
                    t.to_set(),
                ).insert(ids@[i as int]));
            }
            i = i + 1;
        }
        assert(ids@.take(i as int) =~= ids@);
        if ids.len() > 0 {
            self.selection = Some(ids[ids.len() - 1]);
            assert(ids@.contains(ids@.last()));
        } else {
            assert(ids@.to_set() =~= Set::empty());
        }
        if !additive {
            assert(base.selected.union(ids@.to_set()) =~= ids@.to_set());
        }
        self.invalidate_weight_overlay();
    }

    pub fn is_selected(&self, id: BoneId) -> (r: bool)
        ensures
            r == self@.selected.contains(id),
    {
        lists_bone(&self.selected, id)
    }

    /// The selected bones: active first, then by node index.
    pub fn selected_bones(&self) -> (r: Vec<BoneId>)
        requires
            self.wf(),
        ensures
            lists(r@, self@.selected, self@.selection),
    {
        in_order(&self.selected, self.selection)
    }

    /// Bones in the selection whose parent is not selected (transform targets).
    /// Children stay selected for highlight but follow via FK.
    pub fn selection_roots(&self) -> (r: Vec<BoneId>)
        requires
            self.wf(),
        ensures
            lists(
                r@,
                Set::new(|id: BoneId| is_selection_root(self@, id)),
                self@.selection,
            ),
    {
        let mut out: Vec<BoneId> = Vec::new();
        let mut i: usize = 0;
        while i < self.selected.len()
            invariant
                i <= self.selected@.len(),
                self.wf(),
                out@.no_duplicates(),
                forall|id: BoneId|
                    #[trigger] out@.contains(id) <==> self.selected@.take(i as int).contains(id)
                        && is_selection_root(self@, id),
            decreases self.selected.len() - i,
        {
            let id = self.selected[i];
            let ghost o = out@;
            let ghost t = self.selected@.take(i as int);
            assert(self.selected@.take(i as int + 1) =~= t.push(id));
            assert(self.selected@.contains(id));
            assert(!t.contains(id)) by {
                if t.contains(id) {
                    let k = choose|k: int| 0 <= k < t.len() && t[k] == id;
                    assert(self.selected@[k] == self.selected@[i as int]);
                }
            }
            let parent = match self.bone(id) {
                Some(b) => b.parent,
                None => None,
            };
            let root = match parent {
                Some(p) => !lists_bone(&self.selected, p),
                None => true,
            };
            assert(root == is_selection_root(self@, id));
            assert(!o.contains(id));
            if root {
                out.push(id);
                proof {
                    lemma_push_to_set(o, id);
                }
            }
            assert forall|x: BoneId| #[trigger] out@.contains(x) <==> t.push(id).contains(x)
                && is_selection_root(self@, x) by {
                lemma_push_to_set(t, id);
                lemma_push_to_set(o, id);
                assert(t.push(id).contains(x) == t.push(id).to_set().contains(x));
                assert(t.contains(x) == t.to_set().contains(x));
                assert(o.contains(x) == o.to_set().contains(x));
                assert(o.push(id).contains(x) == o.push(id).to_set().contains(x));
            }
            i = i + 1;
        }
        assert(self.selected@.take(i as int) =~= self.selected@);
        let r = in_order(&out, self.selection);
        assert forall|id: BoneId| #[trigger] r@.contains(id) <==> Set::new(
            |id: BoneId| is_selection_root(self@, id),
        ).contains(id) by {
            assert(out@.to_set().contains(id) == out@.contains(id));
            assert(self.selected@.take(i as int).contains(id) == self@.selected.contains(id));
        }
        r
    }
}

} // verus!
