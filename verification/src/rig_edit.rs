//! Editing the skeleton: adding bones, deleting them with all that refers to
//! them, and keeping the index in step.

use vstd::prelude::*;
use std::collections::HashMap;
use crate::bones::{
    ancestor, bone_at, bone_pos, bones_view, distinct, has_bone, kids_of, lemma_pos, parent_of,
    under, BoneId, BoneInfo, BoneView,
};
use crate::driver::lists_bone;
use crate::forest_edit::{
    adopt, bereft, leaf, lemma_closed_under, lemma_kid_under, lemma_plucked, lemma_pruned, lemma_with_bone, live_kids,
    plucked, prune_bone, pruned, unused, with_bone,
};
use crate::geom::Transform;
use crate::lists::{kept_at, lemma_distinct_bounded, lemma_filter_contains, lemma_filter_ends, lemma_filter_no_duplicates, lemma_filter_step, lemma_kept};
use crate::rig::{
    ik_ok, ik_view, index_ok, rig_ok, soft_ok, soft_view, BoneCollider, IkChain, IkView, RigDocument, RigView, SoftChain,
    SoftView,
};
use crate::rig_select::{lemma_push_to_set, picked};
use crate::scene::{
    key_handle, lemma_key_handle, nodes_view, slot_free, Node, NodeHandle, NodeView, Scene,
    SceneView,
};

verus! {

broadcast use crate::scene::lemma_key_injective;

/// A bone node as it is added to the scene.
pub open spec fn bone_node(
    handle: NodeHandle,
    name: Seq<char>,
    parent: Option<BoneId>,
    local: Transform,
) -> NodeView {
    NodeView {
        handle,
        name,
        parent: match parent {
            Some(p) => Some(p.node),
            None => None,
        },
        local,
        mesh: None,
        skin: None,
        visible: true,
    }
}

/// `h` is new: its slot is free, and it is no bone and nobody's parent.
pub open spec fn fresh(r: RigView, s: SceneView, h: NodeHandle) -> bool {
    slot_free(s.nodes, h) && unused(r.bones, BoneId { node: h })
}

/// `r` with one more bone.
pub open spec fn bone_added(r: RigView, b: BoneView) -> RigView {
    RigView { bones: with_bone(r.bones, b), ..r }
}

/// The chain uses a bone of `kill`.
pub open spec fn ik_hit(c: IkView, kill: Set<BoneId>) -> bool {
    ||| kill.contains(c.tip)
    ||| kill.contains(c.target)
    ||| kill.contains(c.pole)
    ||| exists|i: int| 0 <= i < c.bones.len() && kill.contains(#[trigger] c.bones[i])
}

/// What is to be deleted once the chains are gone through in order: a chain
/// that is hit takes its control bones with it.
pub open spec fn ik_kill(chains: Seq<IkView>, kill: Set<BoneId>) -> Set<BoneId>
    decreases chains.len(),
{
    if chains.len() == 0 {
        kill
    } else {
        let k = ik_kill(chains.drop_last(), kill);
        if ik_hit(chains.last(), k) {
            k.insert(chains.last().target).insert(chains.last().pole)
        } else {
            k
        }
    }
}

/// The chains that were not hit when their turn came.
pub open spec fn ik_kept(chains: Seq<IkView>, kill: Set<BoneId>) -> Seq<IkView>
    decreases chains.len(),
{
    if chains.len() == 0 {
        Seq::empty()
    } else {
        let k = ik_kill(chains.drop_last(), kill);
        let rest = ik_kept(chains.drop_last(), kill);
        if ik_hit(chains.last(), k) {
            rest
        } else {
            rest.push(chains.last())
        }
    }
}

/// The soft chain uses a bone of `dead`.
pub open spec fn soft_hit(c: SoftView, dead: Set<BoneId>) -> bool {
    dead.contains(c.anchor) || exists|i: int|
        0 <= i < c.bones.len() && dead.contains(#[trigger] c.bones[i])
}

/// The bones that deleting `id` deletes: the branch below it, and the control
/// bones of every IK chain that is hit.
pub open spec fn doomed(r: RigView, id: BoneId) -> Set<BoneId> {
    ik_kill(r.ik_chains, Set::new(|x: BoneId| under(r.bones, id, x)))
}

/// `k` is the key of a bone of `dead`.
pub open spec fn keyed(dead: Set<BoneId>, k: u64) -> bool {
    dead.contains(BoneId { node: key_handle(k) })
}

/// `m` without the keys of `dead`.
pub open spec fn binds_without(m: Map<u64, Transform>, dead: Set<BoneId>) -> Map<u64, Transform> {
    Map::new(|k: u64| m.contains_key(k) && !keyed(dead, k), |k: u64| m[k])
}

/// The nodes that carry no bone of `dead`.
pub open spec fn nodes_without(nodes: Seq<NodeView>, dead: Set<BoneId>) -> Seq<NodeView> {
    nodes.filter(|n: NodeView| !dead.contains(BoneId { node: n.handle }))
}

/// `r` without `dead`: `chains` are the IK chains that stay and `active` the
/// active bone afterwards.
pub open spec fn cleared_of(
    r: RigView,
    dead: Set<BoneId>,
    chains: Seq<IkView>,
    active: Option<BoneId>,
) -> RigView {
    RigView {
        bones: pruned(r.bones, dead),
        selected: r.selected.difference(dead),
        selection: active,
        bind_locals: binds_without(r.bind_locals, dead),
        ik_chains: chains,
        soft_chains: r.soft_chains.filter(|c: SoftView| !soft_hit(c, dead)),
        colliders: r.colliders.filter(|c: BoneCollider| !dead.contains(c.bone)),
        ..r
    }
}

/// The active bone stays, or hands over to another selected one where it is
/// deleted.
pub open spec fn active_after(
    before: Option<BoneId>,
    after: Option<BoneId>,
    dead: Set<BoneId>,
    left: Set<BoneId>,
) -> bool {
    match before {
        Some(a) => if dead.contains(a) {
            picked(after, left)
        } else {
            after == before
        },
        None => after is None,
    }
}

/// The nodes after taking out bone `id` with children `kids`: its node is gone
/// and the nodes of its children have no parent.
pub open spec fn nodes_plucked(
    nodes: Seq<NodeView>,
    id: BoneId,
    kids: Seq<BoneId>,
) -> Seq<NodeView> {
    nodes_without(cut_loose(nodes, kids), Set::empty().insert(id))
}

/// From rig `r0` and scene `s0`, taking the one bone `id` out leads to `r1` and
/// `s1`.
pub open spec fn single_deleted(
    r0: RigView,
    s0: SceneView,
    id: BoneId,
    r1: RigView,
    s1: SceneView,
) -> bool {
    if has_bone(r0.bones, id) {
        let gone = Set::<BoneId>::empty().insert(id);
        &&& r1 == (RigView {
            bones: plucked(r0.bones, id),
            selected: r0.selected.remove(id),
            selection: r1.selection,
            bind_locals: binds_without(r0.bind_locals, gone),
            ..r0
        })
        &&& active_after(r0.selection, r1.selection, gone, r0.selected.remove(id))
        &&& s1 == (SceneView { nodes: nodes_plucked(s0.nodes, id, kids_of(r0.bones, id)), ..s0 })
    } else {
        r1 == r0 && s1 == s0
    }
}

/// `kids` without those in `dead`.
pub(crate) fn kids_left(kids: &Vec<BoneId>, dead: &Vec<BoneId>) -> (r: Vec<BoneId>)
    ensures
        r@ == live_kids(kids@, dead@.to_set()),
{
    let mut out: Vec<BoneId> = Vec::new();
    let mut i: usize = 0;
    let ghost p = |c: BoneId| !dead@.to_set().contains(c);
    proof {
        lemma_filter_ends(kids@, p);
    }
    while i < kids.len()
        invariant
            i <= kids@.len(),
            p == (|c: BoneId| !dead@.to_set().contains(c)),
            out@ == kids@.take(i as int).filter(p),
        decreases kids.len() - i,
    {
        proof {
            lemma_filter_step(kids@, p, i as int);
        }
        if !lists_bone(dead, kids[i]) {
            out.push(kids[i]);
        }
        i = i + 1;
    }
    out
}

/// Whether some bone of `bones` is in `dead`.
pub(crate) fn any_in(bones: &Vec<BoneId>, dead: &Vec<BoneId>) -> (r: bool)
    ensures
        r == (exists|i: int|
            0 <= i < bones@.len() && dead@.to_set().contains(#[trigger] bones@[i])),
{
    let mut i: usize = 0;
    while i < bones.len()
        invariant
            i <= bones@.len(),
            forall|j: int| 0 <= j < i ==> !dead@.to_set().contains(#[trigger] bones@[j]),
        decreases bones.len() - i,
    {
        if lists_bone(dead, bones[i]) {
            assert(dead@.to_set().contains(bones@[i as int]));
            return true;
        }
        i = i + 1;
    }
    false
}

/// Goes through the chains in order: the ones that stay, with `kill` grown by
/// the control bones of the others.
fn sift_ik(chains: Vec<IkChain>, kill: &mut Vec<BoneId>) -> (r: Vec<IkChain>)
    ensures
        ik_view(r@) == ik_kept(ik_view(chains@), old(kill)@.to_set()),
        final(kill)@.to_set() == ik_kill(ik_view(chains@), old(kill)@.to_set()),
{
    let ghost all = ik_view(chains@);
    let ghost exec_all = chains@;
    let ghost k0 = kill@.to_set();
    let mut out: Vec<IkChain> = Vec::new();
    assert(all.take(0) =~= Seq::empty());
    assert(ik_view(out@) =~= Seq::empty());
    for c in it: chains
        invariant
            it.seq() == exec_all,
            all == ik_view(exec_all),
            ik_view(out@) == ik_kept(all.take(it.index() as int), k0),
            kill@.to_set() == ik_kill(all.take(it.index() as int), k0),
    {
        let ghost i = it.index() as int;
        assert(c@ == all[i]);
        assert(all.take(i + 1).drop_last() =~= all.take(i));
        assert(all.take(i + 1).last() == c@);
        let ghost ks = kill@.to_set();
        let hit = lists_bone(kill, c.tip) || lists_bone(kill, c.target) || lists_bone(kill, c.pole)
            || any_in(&c.bones, kill);
        assert(c@.bones == c.bones@);
        assert(hit == ik_hit(c@, ks));
        if hit {
            if !lists_bone(kill, c.target) {
                proof {
                    lemma_push_to_set(kill@, c.target);
                }
                kill.push(c.target);
            }
            assert(kill@.to_set() =~= ks.insert(c.target));
            if !lists_bone(kill, c.pole) {
                proof {
                    lemma_push_to_set(kill@, c.pole);
                }
                kill.push(c.pole);
            }
            assert(kill@.to_set() =~= ks.insert(c.target).insert(c.pole));
        } else {
            let ghost o = out@;
            out.push(c);
            assert(ik_view(out@) =~= ik_view(o).push(c@));
        }
    }
    assert(all.take(all.len() as int) =~= all);
    out
}

/// The soft chains that use no bone of `dead`.
fn sift_soft(chains: Vec<SoftChain>, dead: &Vec<BoneId>) -> (r: Vec<SoftChain>)
    ensures
        soft_view(r@) == soft_view(chains@).filter(|c: SoftView| !soft_hit(c, dead@.to_set())),
{
    let ghost all = soft_view(chains@);
    let ghost exec_all = chains@;
    let ghost p = |c: SoftView| !soft_hit(c, dead@.to_set());
    let mut out: Vec<SoftChain> = Vec::new();
    proof {
        lemma_filter_ends(all, p);
    }
    assert(soft_view(out@) =~= Seq::empty());
    for c in it: chains
        invariant
            it.seq() == exec_all,
            all == soft_view(exec_all),
            p == (|c: SoftView| !soft_hit(c, dead@.to_set())),
            soft_view(out@) == all.take(it.index() as int).filter(p),
    {
        let ghost i = it.index() as int;
        assert(c@ == all[i]);
        proof {
            lemma_filter_step(all, p, i);
        }
        let hit = lists_bone(dead, c.anchor) || any_in(&c.bones, dead);
        assert(c@.bones == c.bones@);
        assert(hit == soft_hit(c@, dead@.to_set()));
        if !hit {
            let ghost o = out@;
            out.push(c);
            assert(soft_view(out@) =~= soft_view(o).push(c@));
        }
    }
    out
}

/// The colliders on bones outside `dead`.
fn sift_colliders(cs: &Vec<BoneCollider>, dead: &Vec<BoneId>) -> (r: Vec<BoneCollider>)
    ensures
        r@ == cs@.filter(|c: BoneCollider| !dead@.to_set().contains(c.bone)),
{
    let ghost p = |c: BoneCollider| !dead@.to_set().contains(c.bone);
    let mut out: Vec<BoneCollider> = Vec::new();
    let mut i: usize = 0;
    proof {
        lemma_filter_ends(cs@, p);
    }
    while i < cs.len()
        invariant
            i <= cs@.len(),
            p == (|c: BoneCollider| !dead@.to_set().contains(c.bone)),
            out@ == cs@.take(i as int).filter(p),
        decreases cs.len() - i,
    {
        proof {
            lemma_filter_step(cs@, p, i as int);
        }
        if !lists_bone(dead, cs[i].bone) {
            out.push(cs[i]);
        }
        i = i + 1;
    }
    out
}

/// The bones outside `dead`, without children in `dead`.
fn sift_bones(bones: Vec<BoneInfo>, dead: &Vec<BoneId>) -> (r: Vec<BoneInfo>)
    ensures
        bones_view(r@) == pruned(bones_view(bones@), dead@.to_set()),
{
    let ghost all = bones_view(bones@);
    let ghost exec_all = bones@;
    let ghost d = dead@.to_set();
    let ghost p = |b: BoneView| !d.contains(b.id);
    let ghost q = |b: BoneView| prune_bone(b, d);
    let mut out: Vec<BoneInfo> = Vec::new();
    proof {
        lemma_filter_ends(all, p);
    }
    assert(bones_view(out@) =~= Seq::<BoneView>::empty().map_values(q));
    for b in it: bones
        invariant
            it.seq() == exec_all,
            all == bones_view(exec_all),
            d == dead@.to_set(),
            p == (|b: BoneView| !d.contains(b.id)),
            q == (|b: BoneView| prune_bone(b, d)),
            bones_view(out@) == all.take(it.index() as int).filter(p).map_values(q),
    {
        let ghost i = it.index() as int;
        assert(b@ == all[i]);
        proof {
            lemma_filter_step(all, p, i);
        }
        if !lists_bone(dead, b.id) {
            let ghost o = out@;
            let ghost was = b@;
            let mut b = b;
            let kids = kids_left(&b.children, dead);
            b.children = kids;
            assert(b@ =~= prune_bone(was, d));
            out.push(b);
            assert(bones_view(out@) =~= bones_view(o).push(b@));
            assert(all.take(i).filter(p).push(was).map_values(q) =~= all.take(i).filter(
                p,
            ).map_values(q).push(q(was)));
        }
    }
    out
}

/// The bones without `id`; its children become roots.
fn pluck_bones(bones: Vec<BoneInfo>, id: BoneId) -> (r: Vec<BoneInfo>)
    ensures
        bones_view(r@) == plucked(bones_view(bones@), id),
{
    let ghost all = bones_view(bones@);
    let ghost exec_all = bones@;
    let ghost p = |b: BoneView| b.id != id;
    let ghost q = |b: BoneView| bereft(b, id);
    let mut out: Vec<BoneInfo> = Vec::new();
    let mut dead: Vec<BoneId> = Vec::new();
    let ghost none = dead@;
    dead.push(id);
    proof {
        lemma_filter_ends(all, p);
        lemma_push_to_set(none, id);
        assert(none.to_set() =~= Set::empty());
    }
    assert(bones_view(out@) =~= Seq::<BoneView>::empty().map_values(q));
    for b in it: bones
        invariant
            it.seq() == exec_all,
            all == bones_view(exec_all),
            dead@.to_set() == Set::<BoneId>::empty().insert(id),
            p == (|b: BoneView| b.id != id),
            q == (|b: BoneView| bereft(b, id)),
            bones_view(out@) == all.take(it.index() as int).filter(p).map_values(q),
    {
        let ghost i = it.index() as int;
        assert(b@ == all[i]);
        proof {
            lemma_filter_step(all, p, i);
        }
        if b.id != id {
            let ghost o = out@;
            let ghost was = b@;
            let mut b = b;
            let kids = kids_left(&b.children, &dead);
            b.children = kids;
            let orphan = match b.parent {
                Some(x) => x == id,
                None => false,
            };
            if orphan {
                b.parent = None;
            }
            assert(b@ =~= bereft(was, id));
            out.push(b);
            assert(bones_view(out@) =~= bones_view(o).push(b@));
            assert(all.take(i).filter(p).push(was).map_values(q) =~= all.take(i).filter(
                p,
            ).map_values(q).push(q(was)));
        }
    }
    out
}

impl Scene {
    /// Removes the nodes of the bones `dead`.
    pub(crate) fn remove_bones(&mut self, dead: &Vec<BoneId>)
        requires
            old(self).wf(),
        ensures
            final(self).wf(),
            final(self)@ == (SceneView {
                nodes: nodes_without(old(self)@.nodes, dead@.to_set()),
                ..old(self)@
            }),
    {
        let ghost all = self@.nodes;
        let ghost p = |n: NodeView| !dead@.to_set().contains(BoneId { node: n.handle });
        let mut rest: Vec<Node> = Vec::new();
        rest.append(&mut self.nodes);
        let ghost exec_all = rest@;
        let mut out: Vec<Node> = Vec::new();
        proof {
            lemma_filter_ends(all, p);
        }
        assert(nodes_view(out@) =~= Seq::empty());
        for n in it: rest
            invariant
                it.seq() == exec_all,
                all == nodes_view(exec_all),
                p == (|n: NodeView| !dead@.to_set().contains(BoneId { node: n.handle })),
                nodes_view(out@) == all.take(it.index() as int).filter(p),
        {
            let ghost i = it.index() as int;
            assert(n@ == all[i]);
            proof {
                lemma_filter_step(all, p, i);
            }
            let id = BoneId { node: n.handle };
            if !lists_bone(dead, id) {
                let ghost o = out@;
                out.push(n);
                assert(nodes_view(out@) =~= nodes_view(o).push(n@));
            }
        }
        self.nodes = out;
        proof {
            lemma_kept(all, p);
            let f = all.filter(p);
            assert forall|i: int, j: int| 0 <= i < j < f.len() implies (#[trigger] f[i]).handle.index != (
            #[trigger] f[j]).handle.index by {
                assert(kept_at(all, p, i) < kept_at(all, p, j));
                assert(all[kept_at(all, p, i)] == f[i]);
                assert(all[kept_at(all, p, j)] == f[j]);
            }
            assert(self@.nodes == f);
            assert(self@.meshes == old(self)@.meshes);
        }
    }

    /// Adds a node under a new handle.
    pub(crate) fn add_node(&mut self, n: Node)
        requires
            old(self).wf(),
            slot_free(old(self)@.nodes, n.handle),
        ensures
            final(self).wf(),
            final(self)@ == (SceneView { nodes: old(self)@.nodes.push(n@), ..old(self)@ }),
    {
        let ghost nodes0 = self@.nodes;
        self.nodes.push(n);
        assert(self@.nodes =~= nodes0.push(n@));
        assert forall|i: int, j: int| 0 <= i < j < self@.nodes.len() implies (
        #[trigger] self@.nodes[i]).handle.index != (#[trigger] self@.nodes[j]).handle.index by {
            assert(self@.nodes[i] == nodes0[i]);
            if j < nodes0.len() {
                assert(self@.nodes[j] == nodes0[j]);
            }
        }
        assert(self@.meshes == old(self)@.meshes);
    }
}

impl RigDocument {
    /// Builds the index anew.
    pub(crate) fn reindex_bones(&mut self)
        requires
            distinct(old(self)@.bones),
        ensures
            final(self)@ == old(self)@,
            final(self).selected == old(self).selected,
            index_ok(final(self)@.bones, final(self).bone_index@),
    {
        broadcast use vstd::std_specs::hash::group_hash_axioms;

        let mut index: HashMap<u64, usize> = HashMap::new();
        let mut i: usize = 0;
        let ghost bs = self@.bones;
        while i < self.bones.len()
            invariant
                i <= self.bones@.len(),
                *self == *old(self),
                bs == self@.bones,
                distinct(bs),
                forall|j: int|
                    0 <= j < i ==> index@.contains_key((#[trigger] bs[j]).id.node.key_of())
                        && index@[bs[j].id.node.key_of()] == j,
                forall|id: BoneId|
                    #[trigger] index@.contains_key(id.node.key_of()) ==> exists|j: int|
                        0 <= j < i && (#[trigger] bs[j]).id == id,
            decreases self.bones.len() - i,
        {
            let id = self.bones[i].id;
            let ghost before = index@;
            assert(id == bs[i as int].id);
            index.insert(id.node.key(), i);
            assert forall|j: int| 0 <= j < i + 1 implies index@.contains_key(
                (#[trigger] bs[j]).id.node.key_of(),
            ) && index@[bs[j].id.node.key_of()] == j by {
                if j < i {
                    assert(bs[j].id != bs[i as int].id);
                    assert(bs[j].id.node.key_of() != bs[i as int].id.node.key_of());
                }
            }
            assert forall|x: BoneId| #[trigger] index@.contains_key(x.node.key_of()) implies exists|
                j: int,
            | 0 <= j < i + 1 && (#[trigger] bs[j]).id == x by {
                if x == id {
                    assert(bs[i as int].id == x);
                } else {
                    assert(x.node.key_of() != id.node.key_of());
                    assert(before.contains_key(x.node.key_of()));
                    let j = choose|j: int| 0 <= j < i && (#[trigger] bs[j]).id == x;
                    assert(bs[j].id == x);
                }
            }
            i = i + 1;
        }
        proof {
            assert forall|id: BoneId| #[trigger] has_bone(bs, id) implies index@.contains_key(
                id.node.key_of(),
            ) && index@[id.node.key_of()] == bone_pos(bs, id) by {
                let j = bone_pos(bs, id);
                assert(bone_at(bs, id, j));
                assert(bs[j].id == id);
            }
            assert forall|id: BoneId| #[trigger] index@.contains_key(id.node.key_of()) implies has_bone(
                bs,
                id,
            ) by {
                let j = choose|j: int| 0 <= j < i && (#[trigger] bs[j]).id == id;
                assert(bone_at(bs, id, j));
            }
        }
        self.bone_index = index;
    }

    /// Whether the slot of `h` is free and `h` is neither a bone nor a bone's
    /// parent.
    pub fn is_fresh(&self, scene: &Scene, h: NodeHandle) -> (r: bool)
        requires
            self.wf(),
            scene.wf(),
        ensures
            r == fresh(self@, scene@, h),
    {
        let id = BoneId { node: h };
        if self.bone(id).is_some() {
            return false;
        }
        let mut k: usize = 0;
        while k < scene.nodes.len()
            invariant
                k <= scene.nodes@.len(),
                forall|j: int|
                    0 <= j < k ==> (#[trigger] scene@.nodes[j]).handle.index != h.index,
            decreases scene.nodes.len() - k,
        {
            assert(scene@.nodes[k as int].handle == scene.nodes@[k as int].handle);
            if scene.nodes[k].handle.index == h.index {
                return false;
            }
            k = k + 1;
        }
        let mut i: usize = 0;
        while i < self.bones.len()
            invariant
                i <= self.bones@.len(),
                slot_free(scene@.nodes, h),
                !has_bone(self@.bones, id),
                id == (BoneId { node: h }),
                forall|j: int| 0 <= j < i ==> (#[trigger] self@.bones[j]).parent != Some(id),
            decreases self.bones.len() - i,
        {
            let hit = match self.bones[i].parent {
                Some(p) => p == id,
                None => false,
            };
            assert(self@.bones[i as int].parent == self.bones@[i as int].parent);
            if hit {
                return false;
            }
            i = i + 1;
        }
        true
    }

    /// Lists `id` under its parent, where that is a bone.
    fn list_child(&mut self, parent: Option<BoneId>, id: BoneId)
        requires
            old(self).wf(),
        ensures
            final(self)@ == (RigView {
                bones: Seq::new(
                    old(self)@.bones.len(),
                    |i: int| adopt(old(self)@.bones[i], parent, id),
                ),
                ..old(self)@
            }),
            final(self).bone_index == old(self).bone_index,
            final(self).selected == old(self).selected,
    {
        broadcast use vstd::std_specs::hash::group_hash_axioms;

        let ghost bs = self@.bones;
        if let Some(p) = parent {
            match self.bone_index.get(&p.node.key()) {
                Some(pi) => {
                    let pi = *pi;
                    assert(has_bone(bs, p));
                    assert(bone_at(bs, p, pi as int));
                    self.bones[pi].children.push(id);
                    assert forall|i: int| 0 <= i < bs.len() implies #[trigger] self@.bones[i]
                        == adopt(bs[i], parent, id) by {
                        if bs[i].id == p {
                            lemma_pos(bs, p, i);
                            lemma_pos(bs, p, pi as int);
                            assert(self@.bones[i] =~= adopt(bs[i], parent, id));
                        } else {
                            assert(self@.bones[i] == bs[i]);
                        }
                    }
                },
                None => {
                    assert(!has_bone(bs, p));
                    assert forall|i: int| 0 <= i < bs.len() implies #[trigger] bs[i] == adopt(
                        bs[i],
                        parent,
                        id,
                    ) by {
                        if bs[i].id == p {
                            assert(bone_at(bs, p, i));
                        }
                    }
                },
            }
        }
        assert(self@.bones =~= Seq::new(bs.len(), |i: int| adopt(bs[i], parent, id)));
    }

    /// Adds a bone on the new node `node`.
    pub fn insert_bone(
        &mut self,
        scene: &mut Scene,
        node: NodeHandle,
        name: &str,
        parent: Option<BoneId>,
        local: Transform,
        deform: bool,
    ) -> (r: BoneId)
        requires
            old(self).wf(),
            old(scene).wf(),
            fresh(old(self)@, old(scene)@, node),
            parent != Some(BoneId { node }),
        ensures
            r == (BoneId { node }),
            final(self).wf(),
            final(scene).wf(),
            final(self)@ == bone_added(old(self)@, leaf(r, name@, parent, deform)),
            final(scene)@ == (SceneView {
                nodes: old(scene)@.nodes.push(bone_node(node, name@, parent, local)),
                ..old(scene)@
            }),
    {
        broadcast use vstd::std_specs::hash::group_hash_axioms;

        let id = BoneId { node };
        let ghost bs = self@.bones;
        let ghost b = leaf(id, name@, parent, deform);
        proof {
            lemma_with_bone(bs, b);
        }
        let node_parent = match parent {
            Some(p) => Some(p.node),
            None => None,
        };
        let n = Node {
            handle: node,
            name: name.to_owned(),
            parent: node_parent,
            local,
            mesh: None,
            skin: None,
            visible: true,
        };
        assert(n@ =~= bone_node(node, name@, parent, local));
        scene.add_node(n);
        let idx = self.bones.len();
        let ghost index0 = self.bone_index@;
        self.list_child(parent, id);
        let info = BoneInfo { id, name: name.to_owned(), parent, children: Vec::new(), deform };
        assert(info@ =~= b);
        self.bones.push(info);
        self.bone_index.insert(node.key(), idx);
        proof {
            assert(self@.bones =~= with_bone(bs, b));
            let ns = self@.bones;
            assert forall|x: BoneId| #[trigger] has_bone(ns, x) implies self.bone_index@.contains_key(
                x.node.key_of(),
            ) && self.bone_index@[x.node.key_of()] == bone_pos(ns, x) by {
                if x == id {
                    assert(bone_pos(ns, id) == bs.len());
                } else {
                    assert(has_bone(bs, x));
                    assert(bone_pos(ns, x) == bone_pos(bs, x));
                    assert(x.node.key_of() != id.node.key_of());
                }
            }
            assert forall|x: BoneId|
                #[trigger] self.bone_index@.contains_key(x.node.key_of()) implies has_bone(
                ns,
                x,
            ) by {
                if x.node.key_of() != id.node.key_of() {
                    assert(index0.contains_key(x.node.key_of()));
                    assert(has_bone(bs, x));
                }
                assert(has_bone(ns, x) <==> has_bone(bs, x) || x == id);
            }
        }
        id
    }

    /// `id` and every bone below it, each once.
    pub fn branch(&self, id: BoneId) -> (r: Vec<BoneId>)
        requires
            self.wf(),
            has_bone(self@.bones, id),
        ensures
            r@.no_duplicates(),
            forall|x: BoneId| #[trigger] r@.contains(x) <==> under(self@.bones, id, x),
    {
        let ghost bs = self@.bones;
        let ghost ids = Seq::new(bs.len(), |i: int| bs[i].id);
        let mut stack: Vec<BoneId> = Vec::new();
        stack.push(id);
        let mut kill: Vec<BoneId> = Vec::new();
        proof {
            assert(ancestor(bs, id, 0) == Some(id));
            assert(under(bs, id, id));
            assert((kill@ + stack@)[0] == id);
            assert((kill@ + stack@) =~= seq![id]);
        }
        while stack.len() > 0
            invariant
                self.wf(),
                bs == self@.bones,
                has_bone(bs, id),
                ids == Seq::new(bs.len(), |i: int| bs[i].id),
                (kill@ + stack@).no_duplicates(),
                (kill@ + stack@).contains(id),
                forall|x: BoneId|
                    #[trigger] (kill@ + stack@).contains(x) ==> under(bs, id, x) && has_bone(bs, x),
                forall|x: BoneId|
                    #[trigger] (kill@ + stack@).contains(x) && x != id ==> exists|q: BoneId|
                        parent_of(bs, x) == Some(q) && #[trigger] kill@.contains(q),
                forall|b: BoneId, c: BoneId|
                    kill@.contains(b) && #[trigger] kids_of(bs, b).contains(c) ==> (kill@
                        + stack@).contains(c),
                kill@.len() <= bs.len(),
            decreases bs.len() - kill@.len(),
        {
            let ghost k0 = kill@;
            let ghost s0 = stack@;
            let ghost a0 = k0 + s0;
            let cur = stack.pop().unwrap();
            let ghost rest = stack@;
            proof {
                assert(s0 =~= rest.push(cur));
                assert(a0[a0.len() - 1] == cur);
                assert(a0.contains(cur));
            }
            let ghost kids = kids_of(bs, cur);
            match self.bone(cur) {
                Some(b) => {
                    let mut j: usize = 0;
                    assert(kids == b.children@);
                    while j < b.children.len()
                        invariant
                            j <= b.children@.len(),
                            kids == b.children@,
                            stack@ == rest + kids.take(j as int),
                        decreases b.children.len() - j,
                    {
                        stack.push(b.children[j]);
                        assert(rest + kids.take(j as int + 1) =~= (rest + kids.take(j as int)).push(
                            kids[j as int],
                        ));
                        j = j + 1;
                    }
                    assert(kids.take(j as int) =~= kids);
                },
                None => {},
            }
            kill.push(cur);
            proof {
                assert(stack@ =~= rest + kids);
                let a1 = kill@ + stack@;
                // a1 lists k0, cur, rest, kids.
                assert forall|x: BoneId| #[trigger] a1.contains(x) <==> a0.contains(x)
                    || kids.contains(x) by {
                    lemma_split_contains(k0, rest, cur, kids, x);
                }
                assert forall|c: BoneId| kids.contains(c) implies !a0.contains(c) && under(bs, id, c)
                    && has_bone(bs, c) && c != id && parent_of(bs, c) == Some(cur) by {
                    lemma_kid_under(bs, id, cur, c);
                    if a0.contains(c) {
                        let q = choose|q: BoneId|
                            parent_of(bs, c) == Some(q) && #[trigger] k0.contains(q);
                        assert(k0.contains(cur));
                        let m = choose|m: int| 0 <= m < k0.len() && k0[m] == cur;
                        assert(a0[m] == cur);
                    }
                }
                assert(kids.no_duplicates()) by {
                    assert(bone_at(bs, cur, bone_pos(bs, cur)));
                }
                lemma_split_distinct(k0, rest, cur, kids);
                assert forall|x: BoneId| #[trigger] kill@.contains(x) <==> k0.contains(x) || x
                    == cur by {
                    lemma_push_to_set(k0, cur);
                    assert(kill@.to_set().contains(x) == kill@.contains(x));
                    assert(k0.to_set().contains(x) == k0.contains(x));
                }
                assert forall|x: BoneId| #[trigger] a1.contains(x) && x != id implies exists|
                    q: BoneId,
                | parent_of(bs, x) == Some(q) && #[trigger] kill@.contains(q) by {
                    if kids.contains(x) {
                        assert(parent_of(bs, x) == Some(cur));
                        assert(kill@.contains(cur));
                    } else {
                        let q = choose|q: BoneId|
                            parent_of(bs, x) == Some(q) && #[trigger] k0.contains(q);
                        assert(kill@.contains(q));
                    }
                }
                assert forall|b: BoneId, c: BoneId|
                    kill@.contains(b) && #[trigger] kids_of(bs, b).contains(c) implies a1.contains(
                    c,
                ) by {
                    if k0.contains(b) {
                        assert(a0.contains(c));
                    } else {
                        assert(kids.contains(c));
                    }
                }
                assert(kill@.no_duplicates()) by {
                    assert forall|u: int, w: int|
                        0 <= u < kill@.len() && 0 <= w < kill@.len() && u != w implies kill@[u]
                        != kill@[w] by {
                        assert(a1[u] == kill@[u] && a1[w] == kill@[w]);
                    }
                }
                assert forall|x: BoneId| kill@.contains(x) implies ids.contains(x) by {
                    let m = choose|m: int| 0 <= m < kill@.len() && kill@[m] == x;
                    assert(a1[m] == x);
                    assert(a1.contains(x));
                    assert(has_bone(bs, x));
                    assert(bone_at(bs, x, bone_pos(bs, x)));
                    assert(ids[bone_pos(bs, x)] == x);
                }
                lemma_distinct_bounded(kill@, ids);
            }
        }
        proof {
            assert(kill@ + stack@ =~= kill@);
            assert forall|x: BoneId| #[trigger] kill@.contains(x) <==> under(bs, id, x) by {
                if under(bs, id, x) {
                    let n = choose|n: nat| #[trigger] ancestor(bs, x, n) == Some(id);
                    let set = kill@.to_set();
                    assert forall|b: BoneId, c: BoneId|
                        set.contains(b) && #[trigger] kids_of(bs, b).contains(c) implies set.contains(
                        c,
                    ) by {
                        assert(kill@.contains(b));
                    }
                    lemma_closed_under(bs, id, set, x, n);
                }
            }
        }
        kill
    }

    /// Forgets the bind transforms of the bones `dead`.
    fn drop_binds(&mut self, dead: &Vec<BoneId>)
        ensures
            final(self)@ == (RigView {
                bind_locals: binds_without(old(self)@.bind_locals, dead@.to_set()),
                ..old(self)@
            }),
            final(self).selected == old(self).selected,
            final(self).bone_index == old(self).bone_index,
    {
        broadcast use vstd::std_specs::hash::group_hash_axioms;

        let ghost m0 = self@.bind_locals;
        let mut i: usize = 0;
        proof {
            assert(dead@.take(0).to_set() =~= Set::empty());
            assert(binds_without(m0, Set::empty()) =~= m0);
        }
        while i < dead.len()
            invariant
                i <= dead@.len(),
                self@ == (RigView {
                    bind_locals: binds_without(m0, dead@.take(i as int).to_set()),
                    ..old(self)@
                }),
                self.selected == old(self).selected,
                self.bone_index == old(self).bone_index,
            decreases dead.len() - i,
        {
            let ghost s = dead@.take(i as int).to_set();
            let ghost x = dead@[i as int];
            proof {
                assert(dead@.take(i as int + 1) =~= dead@.take(i as int).push(x));
                lemma_push_to_set(dead@.take(i as int), x);
                assert(binds_without(m0, s.insert(x)) =~= binds_without(m0, s).remove(
                    x.node.key_of(),
                )) by {
                    assert forall|k: u64| keyed(s.insert(x), k) <==> keyed(s, k) || k
                        == x.node.key_of() by {
                        lemma_key_handle(k, x.node);
                    }
                }
            }
            self.bind_locals.remove(&dead[i].node.key());
            i = i + 1;
        }
        assert(dead@.take(i as int) =~= dead@);
    }

    /// Takes the bones `dead` out of the selected set.
    fn drop_selected(&mut self, dead: &Vec<BoneId>)
        requires
            old(self).selected@.no_duplicates(),
        ensures
            final(self)@ == (RigView {
                selected: old(self)@.selected.difference(dead@.to_set()),
                ..old(self)@
            }),
            final(self).selected@.no_duplicates(),
            final(self).bone_index == old(self).bone_index,
    {
        let left = kids_left(&self.selected, dead);
        proof {
            let s = self.selected@;
            let p = |c: BoneId| !dead@.to_set().contains(c);
            lemma_filter_no_duplicates(s, p);
            assert forall|x: BoneId| left@.to_set().contains(x) <==> s.to_set().difference(
                dead@.to_set(),
            ).contains(x) by {
                lemma_filter_contains(s, p, x);
            }
            assert(left@.to_set() =~= s.to_set().difference(dead@.to_set()));
        }
        self.selected = left;
    }

    /// Delete bone and all descendants. Children are not reparented.
    pub fn delete_bone_subtree(&mut self, scene: &mut Scene, id: BoneId)
        requires
            old(self).wf(),
            old(scene).wf(),
        ensures
            final(self).wf(),
            final(scene).wf(),
            !has_bone(old(self)@.bones, id) ==> final(self)@ == old(self)@ && final(scene)@ == old(
                scene,
            )@,
            has_bone(old(self)@.bones, id) ==> {
                let dead = doomed(old(self)@, id);
                let branch = Set::new(|x: BoneId| under(old(self)@.bones, id, x));
                &&& final(self)@ == cleared_of(
                    old(self)@,
                    dead,
                    ik_kept(old(self)@.ik_chains, branch),
                    final(self)@.selection,
                )
                &&& active_after(
                    old(self)@.selection,
                    final(self)@.selection,
                    dead,
                    old(self)@.selected.difference(dead),
                )
                &&& final(scene)@ == (SceneView {
                    nodes: nodes_without(old(scene)@.nodes, dead),
                    ..old(scene)@
                })
            },
    {
        if self.bone(id).is_none() {
            return;
        }
        let ghost r0 = self@;
        let mut kill = self.branch(id);
        let ghost branch = Set::new(|x: BoneId| under(r0.bones, id, x));
        assert(kill@.to_set() =~= branch);

        let mut chains: Vec<IkChain> = Vec::new();
        chains.append(&mut self.ik_chains);
        self.ik_chains = sift_ik(chains, &mut kill);
        let ghost dead = kill@.to_set();
        assert(dead == doomed(r0, id));

        let mut soft: Vec<SoftChain> = Vec::new();
        soft.append(&mut self.soft_chains);
        self.soft_chains = sift_soft(soft, &kill);
        let colliders = sift_colliders(&self.colliders, &kill);
        self.colliders = colliders;

        self.drop_selected(&kill);
        let hit = match self.selection {
            Some(s) => lists_bone(&kill, s),
            None => false,
        };
        if hit {
            self.selection = self.any_selected();
        }
        self.drop_binds(&kill);
        scene.remove_bones(&kill);
        let mut bones: Vec<BoneInfo> = Vec::new();
        bones.append(&mut self.bones);
        self.bones = sift_bones(bones, &kill);
        proof {
            lemma_pruned(r0.bones, dead);
            lemma_sifted_ok(r0, branch, dead);
        }
        self.reindex_bones();
    }

    /// Delete one bone (no descendants). Used for IK controls.
    pub fn delete_single_bone(&mut self, scene: &mut Scene, id: BoneId)
        requires
            old(self).wf(),
            old(scene).wf(),
        ensures
            final(self).wf(),
            final(scene).wf(),
            single_deleted(old(self)@, old(scene)@, id, final(self)@, final(scene)@),
    {
        let ghost r0 = self@;
        let ghost s0 = scene@;
        let kids = match self.bone(id) {
            Some(b) => b.children.clone(),
            None => {
                return;
            },
        };
        assert(kids@ =~= kids_of(r0.bones, id));
        let mut i: usize = 0;
        assert(cut_loose(s0.nodes, kids@.take(0)) =~= s0.nodes);
        while i < kids.len()
            invariant
                i <= kids@.len(),
                scene.wf(),
                scene@ == (SceneView { nodes: cut_loose(s0.nodes, kids@.take(i as int)), ..s0 }),
            decreases kids.len() - i,
        {
            let ghost before = scene@.nodes;
            scene.set_parent(kids[i].node, None);
            proof {
                let t = kids@.take(i as int);
                let x = kids@[i as int];
                assert(kids@.take(i as int + 1) =~= t.push(x));
                assert(scene@.nodes =~= cut_loose(s0.nodes, t.push(x))) by {
                    assert forall|j: int| 0 <= j < s0.nodes.len() implies scene@.nodes[j]
                        == cut_loose(s0.nodes, t.push(x))[j] by {
                        let b = BoneId { node: s0.nodes[j].handle };
                        lemma_push_to_set(t, x);
                        assert(t.push(x).to_set().contains(b) == t.push(x).contains(b));
                        assert(t.to_set().contains(b) == t.contains(b));
                    }
                }
            }
            i = i + 1;
        }
        assert(kids@.take(i as int) =~= kids@);
        let _was = self.deselect(id);
        let active = match self.selection {
            Some(a) => a == id,
            None => false,
        };
        if active {
            self.selection = self.any_selected();
        }
        let mut gone: Vec<BoneId> = Vec::new();
        let ghost none = gone@;
        gone.push(id);
        proof {
            lemma_push_to_set(none, id);
            assert(none.to_set() =~= Set::empty());
        }
        self.drop_binds(&gone);
        scene.remove_bones(&gone);
        let mut bones: Vec<BoneInfo> = Vec::new();
        bones.append(&mut self.bones);
        self.bones = pluck_bones(bones, id);
        proof {
            lemma_plucked(r0.bones, id);
        }
        self.reindex_bones();
    }
}

/// The nodes of the bones `kids` without parent.
pub open spec fn cut_loose(nodes: Seq<NodeView>, kids: Seq<BoneId>) -> Seq<NodeView> {
    Seq::new(
        nodes.len(),
        |i: int|
            if kids.contains(BoneId { node: nodes[i].handle }) {
                NodeView { parent: None, ..nodes[i] }
            } else {
                nodes[i]
            },
    )
}

/// Membership in the list after moving `cur` from the stack and adding `kids`.
proof fn lemma_split_contains(
    k: Seq<BoneId>,
    rest: Seq<BoneId>,
    cur: BoneId,
    kids: Seq<BoneId>,
    x: BoneId,
)
    ensures
        (k.push(cur) + (rest + kids)).contains(x) <==> (k + rest.push(cur)).contains(x)
            || kids.contains(x),
{
    let a1 = k.push(cur) + (rest + kids);
    let a0 = k + rest.push(cur);
    if a1.contains(x) {
        let m = choose|m: int| 0 <= m < a1.len() && a1[m] == x;
        if m < k.len() {
            assert(a0[m] == x);
        } else if m == k.len() {
            assert(a0[a0.len() - 1] == x);
        } else if m < k.len() + 1 + rest.len() {
            assert(a0[m - 1] == x);
        } else {
            assert(kids[m - k.len() - 1 - rest.len()] == x);
        }
    }
    if a0.contains(x) {
        let m = choose|m: int| 0 <= m < a0.len() && a0[m] == x;
        if m < k.len() {
            assert(a1[m] == x);
        } else if m < k.len() + rest.len() {
            assert(a1[m + 1] == x);
        } else {
            assert(a1[k.len() as int] == x);
        }
    }
    if kids.contains(x) {
        let m = choose|m: int| 0 <= m < kids.len() && kids[m] == x;
        assert(a1[k.len() + 1 + rest.len() + m] == x);
    }
}

/// Moving `cur` and adding new `kids` repeats nothing.
proof fn lemma_split_distinct(k: Seq<BoneId>, rest: Seq<BoneId>, cur: BoneId, kids: Seq<BoneId>)
    requires
        (k + rest.push(cur)).no_duplicates(),
        kids.no_duplicates(),
        forall|c: BoneId| kids.contains(c) ==> !(k + rest.push(cur)).contains(c),
    ensures
        (k.push(cur) + (rest + kids)).no_duplicates(),
{
    let a1 = k.push(cur) + (rest + kids);
    let a0 = k + rest.push(cur);
    let n = k.len() + 1 + rest.len();
    let back = |m: int|
        if m < k.len() {
            m
        } else if m == k.len() {
            a0.len() - 1
        } else {
            m - 1
        };
    assert forall|u: int, w: int| 0 <= u < a1.len() && 0 <= w < a1.len() && u != w implies a1[u]
        != a1[w] by {
        if u < n && w < n {
            assert(a1[u] == a0[back(u)] && a1[w] == a0[back(w)]);
            assert(back(u) != back(w));
        } else if u < n {
            assert(a1[u] == a0[back(u)]);
            assert(a0.contains(a1[u]));
            assert(kids.contains(kids[w - n]));
        } else if w < n {
            assert(a1[w] == a0[back(w)]);
            assert(a0.contains(a1[w]));
            assert(kids.contains(kids[u - n]));
        } else {
            assert(a1[u] == kids[u - n] && a1[w] == kids[w - n]);
        }
    }
}

/// What the filters leave is in order.
proof fn lemma_sifted_ok(r: RigView, branch: Set<BoneId>, dead: Set<BoneId>)
    requires
        rig_ok(r),
    ensures
        ik_ok(ik_kept(r.ik_chains, branch), r.next_ik_serial),
        soft_ok(r.soft_chains.filter(|c: SoftView| !soft_hit(c, dead)), r.next_soft_serial),
        crate::rig::colliders_ok(
            r.colliders.filter(|c: BoneCollider| !dead.contains(c.bone)),
            r.next_collider_serial,
        ),
{
    lemma_ik_kept_ok(r.ik_chains, branch, r.next_ik_serial);
    let ps = |c: SoftView| !soft_hit(c, dead);
    lemma_soft_filter_ok(r.soft_chains, ps, r.next_soft_serial);
    let pc = |c: BoneCollider| !dead.contains(c.bone);
    lemma_collider_filter_ok(r.colliders, pc, r.next_collider_serial);
}

/// Any choice of the soft chains is as proper as all of them.
pub proof fn lemma_soft_filter_ok(chains: Seq<SoftView>, p: spec_fn(SoftView) -> bool, next: u32)
    requires
        soft_ok(chains, next),
    ensures
        soft_ok(chains.filter(p), next),
{
    lemma_kept(chains, p);
    let f = chains.filter(p);
    assert forall|i: int| 0 <= i < f.len() implies (#[trigger] f[i]).id < next && f[i].bones.len()
        >= 2 && f[i].lengths.len() == f[i].bones.len() by {
        assert(chains[kept_at(chains, p, i)] == f[i]);
    }
    assert forall|i: int, j: int| 0 <= i < j < f.len() implies (#[trigger] f[i]).id != (
    #[trigger] f[j]).id by {
        assert(kept_at(chains, p, i) < kept_at(chains, p, j));
        assert(chains[kept_at(chains, p, i)] == f[i]);
        assert(chains[kept_at(chains, p, j)] == f[j]);
    }
}

/// Any choice of the colliders is as proper as all of them.
pub proof fn lemma_collider_filter_ok(
    cs: Seq<BoneCollider>,
    p: spec_fn(BoneCollider) -> bool,
    next: u32,
)
    requires
        crate::rig::colliders_ok(cs, next),
    ensures
        crate::rig::colliders_ok(cs.filter(p), next),
{
    lemma_kept(cs, p);
    let f = cs.filter(p);
    assert forall|i: int| 0 <= i < f.len() implies (#[trigger] f[i]).id < next by {
        assert(cs[kept_at(cs, p, i)] == f[i]);
    }
    assert forall|i: int, j: int| 0 <= i < j < f.len() implies (#[trigger] f[i]).id != (
    #[trigger] f[j]).id && f[i].bone != f[j].bone by {
        assert(kept_at(cs, p, i) < kept_at(cs, p, j));
        assert(cs[kept_at(cs, p, i)] == f[i]);
        assert(cs[kept_at(cs, p, j)] == f[j]);
    }
}

/// The chains that stay are some of the chains, in order.
pub proof fn lemma_ik_kept_ok(chains: Seq<IkView>, kill: Set<BoneId>, next: u32)
    requires
        ik_ok(chains, next),
    ensures
        ik_ok(ik_kept(chains, kill), next),
        forall|c: IkView| #[trigger] ik_kept(chains, kill).contains(c) ==> chains.contains(c),
    decreases chains.len(),
{
    if chains.len() > 0 {
        let t = chains.drop_last();
        assert forall|i: int| 0 <= i < t.len() implies (#[trigger] t[i]) == chains[i] by {}
        lemma_ik_kept_ok(t, kill, next);
        let rest = ik_kept(t, kill);
        let out = ik_kept(chains, kill);
        assert forall|i: int| 0 <= i < rest.len() implies (#[trigger] rest[i]).id
            != chains.last().id by {
            assert(rest.contains(rest[i]));
            let k = choose|k: int| 0 <= k < t.len() && t[k] == rest[i];
            assert(chains[k].id != chains[chains.len() - 1].id);
        }
        assert forall|c: IkView| #[trigger] out.contains(c) implies chains.contains(c) by {
            let m = choose|m: int| 0 <= m < out.len() && out[m] == c;
            if m < rest.len() {
                assert(rest[m] == c);
                assert(rest.contains(c));
                let k = choose|k: int| 0 <= k < t.len() && t[k] == c;
                assert(chains[k] == c);
            } else {
                assert(chains[chains.len() - 1] == c);
            }
        }
        assert(chains[chains.len() - 1] == chains.last());
    }
}

} // verus!
