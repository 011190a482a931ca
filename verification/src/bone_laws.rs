//! What adding, deleting and taking out bones leaves behind.

use vstd::prelude::*;
use crate::bones::{has_bone, bone_at, under, BoneId, BoneView};
use crate::forest_edit::{bereft, plucked, prune_bone, pruned, with_bone};
use crate::geom::Transform;
use crate::lists::{lemma_filter_contains, lemma_kept};
use crate::rig::{BoneCollider, IkView, RigView, SoftView};
use crate::rig_edit::{
    active_after, bone_node, cleared_of, cut_loose, doomed, ik_hit, ik_kept, ik_kill, nodes_plucked,
    single_deleted, soft_hit,
};
use crate::rig_select::{listed_before, lists, reselected};
use crate::scene::{key_handle, lemma_key_handle, NodeHandle, NodeView, SceneView};

verus! {

/// A bone that is added stands last as it was given; its parent, and no other
/// bone, gets it as its last child.
pub proof fn law_bone_added(bs: Seq<BoneView>, b: BoneView, i: int)
    requires
        0 <= i < bs.len(),
    ensures
        ({
            let out = with_bone(bs, b);
            &&& out.len() == bs.len() + 1 && out[bs.len() as int] == b
            &&& out[i].id == bs[i].id && out[i].name == bs[i].name && out[i].parent == bs[i].parent
                && out[i].deform == bs[i].deform
            &&& b.parent == Some(bs[i].id) ==> out[i].children == bs[i].children.push(b.id)
            &&& b.parent != Some(bs[i].id) ==> out[i].children == bs[i].children
        }),
{
}

/// The node of a bone stands under the node of its parent, is visible, and
/// carries nothing to draw.
pub proof fn law_bone_node(h: NodeHandle, name: Seq<char>, parent: Option<BoneId>, local: Transform)
    ensures
        ({
            let n = bone_node(h, name, parent, local);
            &&& n.handle == h && n.name == name && n.local == local && n.visible
            &&& n.mesh is None && n.skin is None
            &&& parent matches Some(p) ==> n.parent == Some(p.node)
            &&& parent is None ==> n.parent is None
        }),
{
}

/// Deleting takes exactly the bones that are to go; of the others it takes those
/// from the children, and leaves the rest as it was.
pub proof fn law_pruned(bs: Seq<BoneView>, dead: Set<BoneId>, i: int, c: BoneId)
    requires
        0 <= i < bs.len(),
    ensures
        dead.contains(bs[i].id) ==> !has_bone(pruned(bs, dead), bs[i].id),
        !dead.contains(bs[i].id) ==> exists|k: int|
            0 <= k < pruned(bs, dead).len() && {
                let b = #[trigger] pruned(bs, dead)[k];
                &&& b.id == bs[i].id && b.name == bs[i].name && b.parent == bs[i].parent && b.deform
                    == bs[i].deform
                &&& b.children.contains(c) <==> bs[i].children.contains(c) && !dead.contains(c)
            },
        pruned(bs, dead).len() <= bs.len(),
{
    let p = |b: BoneView| !dead.contains(b.id);
    let kept = bs.filter(p);
    let out = pruned(bs, dead);
    lemma_kept(bs, p);
    lemma_filter_contains(bs, p, bs[i]);
    assert(bs.contains(bs[i]));
    if dead.contains(bs[i].id) {
        assert forall|k: int| !bone_at(out, bs[i].id, k) by {
            if bone_at(out, bs[i].id, k) {
                assert(kept.contains(kept[k]));
                lemma_filter_contains(bs, p, kept[k]);
            }
        }
    } else {
        let k = choose|k: int| 0 <= k < kept.len() && kept[k] == bs[i];
        assert(out[k] == prune_bone(bs[i], dead));
        lemma_filter_contains(bs[i].children, |c: BoneId| !dead.contains(c), c);
    }
}

/// Taking out one bone leaves all others; its children become roots, and nobody
/// lists it as a child any more.
pub proof fn law_plucked(bs: Seq<BoneView>, id: BoneId, i: int, c: BoneId)
    requires
        0 <= i < bs.len(),
    ensures
        !has_bone(plucked(bs, id), id),
        bs[i].id != id ==> exists|k: int|
            0 <= k < plucked(bs, id).len() && {
                let b = #[trigger] plucked(bs, id)[k];
                &&& b.id == bs[i].id && b.name == bs[i].name && b.deform == bs[i].deform
                &&& bs[i].parent == Some(id) ==> b.parent is None
                &&& bs[i].parent != Some(id) ==> b.parent == bs[i].parent
                &&& b.children.contains(c) <==> bs[i].children.contains(c) && c != id
            },
{
    let p = |b: BoneView| b.id != id;
    let kept = bs.filter(p);
    let out = plucked(bs, id);
    assert forall|k: int| !bone_at(out, id, k) by {
        if bone_at(out, id, k) {
            assert(kept.contains(kept[k]));
            lemma_filter_contains(bs, p, kept[k]);
        }
    }
    if bs[i].id != id {
        lemma_filter_contains(bs, p, bs[i]);
        assert(bs.contains(bs[i]));
        let k = choose|k: int| 0 <= k < kept.len() && kept[k] == bs[i];
        assert(out[k] == bereft(bs[i], id));
        let gone = Set::<BoneId>::empty().insert(id);
        lemma_filter_contains(bs[i].children, |c: BoneId| !gone.contains(c), c);
    }
}

proof fn lemma_kill(chains: Seq<IkView>, kill: Set<BoneId>, x: BoneId)
    ensures
        kill.contains(x) ==> ik_kill(chains, kill).contains(x),
        ik_kill(chains, kill).contains(x) && !kill.contains(x) ==> exists|i: int|
            0 <= i < chains.len() && ((#[trigger] chains[i]).target == x || chains[i].pole == x) && ik_hit(
                chains[i],
                ik_kill(chains, kill),
            ),
    decreases chains.len(),
{
    if chains.len() > 0 {
        let t = chains.drop_last();
        lemma_kill(t, kill, x);
        let k = ik_kill(t, kill);
        let all = ik_kill(chains, kill);
        if all.contains(x) && !kill.contains(x) {
            if k.contains(x) {
                let i = choose|i: int|
                    0 <= i < t.len() && ((#[trigger] t[i]).target == x || t[i].pole == x) && ik_hit(t[i], k);
                lemma_hit_more(t[i], k, all);
                assert(chains[i] == t[i]);
            } else {
                let i = chains.len() - 1;
                lemma_hit_more(chains[i], k, all);
                assert(chains[i].target == x || chains[i].pole == x);
            }
        }
    }
}

proof fn lemma_hit_more(c: IkView, a: Set<BoneId>, b: Set<BoneId>)
    requires
        a.subset_of(b),
        ik_hit(c, a),
    ensures
        ik_hit(c, b),
{
    if exists|i: int| 0 <= i < c.bones.len() && a.contains(#[trigger] c.bones[i]) {
        let i = choose|i: int| 0 <= i < c.bones.len() && a.contains(#[trigger] c.bones[i]);
        assert(b.contains(c.bones[i]));
    }
}

/// Deleting a bone deletes all that hangs below it; besides, only control bones
/// of IK chains that lose a bone.
pub proof fn law_doomed(r: RigView, id: BoneId, x: BoneId)
    ensures
        under(r.bones, id, x) ==> doomed(r, id).contains(x),
        doomed(r, id).contains(x) && !under(r.bones, id, x) ==> exists|i: int|
            0 <= i < r.ik_chains.len() && ((#[trigger] r.ik_chains[i]).target == x || r.ik_chains[i].pole == x)
                && ik_hit(r.ik_chains[i], doomed(r, id)),
{
    lemma_kill(r.ik_chains, Set::new(|x: BoneId| under(r.bones, id, x)), x);
}

/// An IK chain of which nothing is deleted stays.
pub proof fn law_ik_chains_stay(chains: Seq<IkView>, kill: Set<BoneId>, i: int)
    requires
        0 <= i < chains.len(),
        !ik_hit(chains[i], ik_kill(chains, kill)),
    ensures
        ik_kept(chains, kill).contains(chains[i]),
    decreases chains.len(),
{
    let t = chains.drop_last();
    let k = ik_kill(t, kill);
    let all = ik_kill(chains, kill);
    let rest = ik_kept(t, kill);
    let out = ik_kept(chains, kill);
    assert(k.subset_of(all));
    if i < t.len() {
        if ik_hit(t[i], k) {
            lemma_hit_more(t[i], k, all);
        }
        law_ik_chains_stay(t, kill, i);
        let m = choose|m: int| 0 <= m < rest.len() && rest[m] == t[i];
        assert(out[m] == chains[i]);
    } else {
        if ik_hit(chains[i], k) {
            lemma_hit_more(chains[i], k, all);
        }
        assert(out[rest.len() as int] == chains[i]);
    }
}

/// What deleting spares: selected bones, bind transforms, soft chains and
/// colliders that have nothing to do with what goes, and all that is no matter
/// of bones.
pub proof fn law_spared(
    r: RigView,
    dead: Set<BoneId>,
    chains: Seq<IkView>,
    active: Option<BoneId>,
    x: BoneId,
    k: u64,
    c: SoftView,
    col: BoneCollider,
)
    ensures
        ({
            let out = cleared_of(r, dead, chains, active);
            &&& out.selected.contains(x) <==> r.selected.contains(x) && !dead.contains(x)
            &&& out.bind_locals.contains_key(k) <==> r.bind_locals.contains_key(k) && !dead.contains(
                BoneId { node: key_handle(k) },
            )
            &&& out.bind_locals.contains_key(k) ==> out.bind_locals[k] == r.bind_locals[k]
            &&& out.soft_chains.contains(c) <==> r.soft_chains.contains(c) && !dead.contains(c.anchor)
                && forall|i: int| 0 <= i < c.bones.len() ==> !dead.contains(#[trigger] c.bones[i])
            &&& out.colliders.contains(col) <==> r.colliders.contains(col) && !dead.contains(col.bone)
            &&& out.drivers == r.drivers && out.mode == r.mode && out.tool == r.tool
            &&& out.active_mesh == r.active_mesh && out.active_shape == r.active_shape
            &&& out.selection == active && out.ik_chains == chains
        }),
{
    lemma_filter_contains(r.soft_chains, |c: SoftView| !soft_hit(c, dead), c);
    lemma_filter_contains(r.colliders, |c: BoneCollider| !dead.contains(c.bone), col);
}

/// When a bone goes that is active, another selected one becomes active; when it
/// stays, it stays active.
pub proof fn law_active_after(
    before: Option<BoneId>,
    after: Option<BoneId>,
    dead: Set<BoneId>,
    left: Set<BoneId>,
)
    requires
        active_after(before, after, dead, left),
    ensures
        before is None ==> after is None,
        before matches Some(a) ==> !dead.contains(a) ==> after == Some(a),
        before matches Some(a) ==> dead.contains(a) && left != Set::<BoneId>::empty() ==> after is Some && left.contains(after->0),
        before matches Some(a) ==> dead.contains(a) && left == Set::<BoneId>::empty() ==> after is None,
{
    if after is Some && left == Set::<BoneId>::empty() {
        assert(!left.contains(after->0));
    }
}

/// Taking out one bone takes its node, cuts those of its children loose, and
/// leaves every other node as it was.
pub proof fn law_node_plucked(nodes: Seq<NodeView>, id: BoneId, kids: Seq<BoneId>, i: int)
    requires
        0 <= i < nodes.len(),
    ensures
        ({
            let out = nodes_plucked(nodes, id, kids);
            let n = nodes[i];
            &&& n.handle != id.node && kids.contains(BoneId { node: n.handle }) ==> out.contains(
                NodeView { parent: None, ..n },
            )
            &&& n.handle != id.node && !kids.contains(BoneId { node: n.handle }) ==> out.contains(n)
            &&& forall|m: NodeView| #[trigger] out.contains(m) ==> m.handle != id.node
        }),
{
    let gone = Set::<BoneId>::empty().insert(id);
    let cut = cut_loose(nodes, kids);
    let p = |n: NodeView| !gone.contains(BoneId { node: n.handle });
    let out = nodes_plucked(nodes, id, kids);
    assert(cut.contains(cut[i]));
    lemma_filter_contains(cut, p, cut[i]);
    if nodes[i].handle != id.node {
        assert(BoneId { node: cut[i].handle } != id);
    }
    assert forall|m: NodeView| #[trigger] out.contains(m) implies m.handle != id.node by {
        lemma_filter_contains(cut, p, m);
        if m.handle == id.node {
            assert(BoneId { node: m.handle } == id);
        }
    }
}

/// Taking out a bone that is there takes it from the bones, from what is
/// selected and from what is bound; all else of the document stays.
pub proof fn law_single_deleted(r0: RigView, s0: SceneView, id: BoneId, r1: RigView, s1: SceneView, x: BoneId)
    requires
        single_deleted(r0, s0, id, r1, s1),
    ensures
        has_bone(r0.bones, id) ==> {
            &&& !has_bone(r1.bones, id)
            &&& !r1.selected.contains(id)
            &&& x != id ==> (r1.selected.contains(x) <==> r0.selected.contains(x))
            &&& !r1.bind_locals.contains_key(id.node.key_of())
            &&& x != id ==> (r1.bind_locals.contains_key(x.node.key_of())
                <==> r0.bind_locals.contains_key(x.node.key_of()))
            &&& r1.ik_chains == r0.ik_chains && r1.soft_chains == r0.soft_chains && r1.colliders == r0.colliders
            &&& r1.drivers == r0.drivers && r1.mode == r0.mode
            &&& s1.meshes == s0.meshes && s1.skins == s0.skins
        },
        !has_bone(r0.bones, id) ==> r1 == r0 && s1 == s0,
{
    if has_bone(r0.bones, id) {
        let i = choose|i: int| bone_at(r0.bones, id, i);
        law_plucked(r0.bones, id, i, id);
        lemma_key_handle(id.node.key_of(), id.node);
        lemma_key_handle(x.node.key_of(), x.node);
        if x != id {
            assert(x.node != id.node);
        }
    }
}

/// A new selection replaces the old one, and has the weights drawn anew; nothing
/// else changes.
pub proof fn law_reselected(r: RigView, selected: Set<BoneId>, active: Option<BoneId>)
    ensures
        ({
            let out = reselected(r, selected, active);
            &&& out.selected == selected && out.selection == active && out.overlay_dirty
            &&& out.bones == r.bones && out.bind_locals == r.bind_locals && out.ik_chains == r.ik_chains
            &&& out.soft_chains == r.soft_chains && out.drivers == r.drivers && out.mode == r.mode
            &&& out.tool == r.tool && out.active_mesh == r.active_mesh
        }),
{
}

/// A listing of the selection begins with the active bone if that is selected,
/// and goes on by node.
pub proof fn law_listing(s: Seq<BoneId>, set: Set<BoneId>, active: BoneId, i: int)
    requires
        lists(s, set, Some(active)),
    ensures
        set.contains(active) ==> s.len() > 0 && s[0] == active,
        0 < i && i + 1 < s.len() ==> s[i].node.index < s[i + 1].node.index || (s[i].node.index == s[i
            + 1].node.index && s[i].node.generation < s[i + 1].node.generation),
{
    if set.contains(active) {
        assert(s.contains(active));
        let k = choose|k: int| 0 <= k < s.len() && s[k] == active;
        if k > 0 {
            assert(listed_before(Some(active), s[0], s[k]));
        }
    }
    if 0 < i && i + 1 < s.len() {
        assert(listed_before(Some(active), s[i], s[i + 1]));
        assert(listed_before(Some(active), s[0], s[i]));
        assert(listed_before(Some(active), s[0], s[i + 1]));
    }
}

} // verus!
