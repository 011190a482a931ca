//! What is left of deleted bones: nothing.

use vstd::prelude::*;
use crate::bones::{bone_at, forest, has_bone, kids_of, lemma_pos, BoneId, BoneView};
use crate::forest_edit::{bereft, leaf, lemma_with_bone, plucked, unused, with_bone};
use crate::geom::{quat_identity, Transform};
use crate::lists::{lemma_filter_all, lemma_filter_contains, lemma_filter_push};
use crate::rig::{rig_ok, BoneCollider, IkView, RigView, SoftView};
use crate::rig_chains::{control_local, ik_created, ik_removed, ik_scene, name_or, without_ik, IkGeometry};
use crate::rig_edit::{
    binds_without, bone_node, cleared_of, cut_loose, fresh, ik_hit, ik_kept, ik_kill, keyed, nodes_plucked, nodes_without,
    single_deleted, soft_hit,
};
use crate::scene::{lemma_key_handle, slot_free, NodeHandle, NodeView, SceneView};

verus! {

/// No bone, child, selection, bind pose, soft chain or collider of a rig that was
/// cleared of `dead` refers to a bone of `dead`.
pub proof fn law_cleared(
    r: RigView,
    dead: Set<BoneId>,
    chains: Seq<IkView>,
    active: Option<BoneId>,
)
    ensures
        ({
            let r1 = cleared_of(r, dead, chains, active);
            &&& forall|i: int|
                0 <= i < r1.bones.len() ==> !dead.contains((#[trigger] r1.bones[i]).id)
            &&& forall|i: int, c: BoneId|
                0 <= i < r1.bones.len() && #[trigger] r1.bones[i].children.contains(c)
                    ==> !dead.contains(c)
            &&& forall|id: BoneId| #[trigger] r1.selected.contains(id) ==> !dead.contains(id)
            &&& forall|k: u64| #[trigger] r1.bind_locals.contains_key(k) ==> !keyed(dead, k)
            &&& forall|c: SoftView|
                #[trigger] r1.soft_chains.contains(c) ==> !soft_hit(c, dead)
            &&& forall|c: BoneCollider|
                #[trigger] r1.colliders.contains(c) ==> !dead.contains(c.bone)
        }),
{
    let r1 = cleared_of(r, dead, chains, active);
    let p = |b: BoneView| !dead.contains(b.id);
    let kept = r.bones.filter(p);
    assert forall|i: int| 0 <= i < r1.bones.len() implies !dead.contains((#[trigger] r1.bones[i]).id) by {
        assert(kept.contains(kept[i]));
        lemma_filter_contains(r.bones, p, kept[i]);
    }
    assert forall|i: int, c: BoneId|
        0 <= i < r1.bones.len() && #[trigger] r1.bones[i].children.contains(c) implies !dead.contains(
        c,
    ) by {
        lemma_filter_contains(kept[i].children, |c: BoneId| !dead.contains(c), c);
    }
    assert forall|c: SoftView| #[trigger] r1.soft_chains.contains(c) implies !soft_hit(c, dead) by {
        lemma_filter_contains(r.soft_chains, |c: SoftView| !soft_hit(c, dead), c);
    }
    assert forall|c: BoneCollider| #[trigger] r1.colliders.contains(c) implies !dead.contains(
        c.bone,
    ) by {
        lemma_filter_contains(r.colliders, |c: BoneCollider| !dead.contains(c.bone), c);
    }
}

/// No node of a scene that was cleared of `dead` carries a bone of `dead`, and
/// every other node is still there.
pub proof fn law_nodes_cleared(nodes: Seq<NodeView>, dead: Set<BoneId>, n: NodeView)
    ensures
        nodes_without(nodes, dead).contains(n) <==> nodes.contains(n) && !dead.contains(
            BoneId { node: n.handle },
        ),
{
    lemma_filter_contains(nodes, |n: NodeView| !dead.contains(BoneId { node: n.handle }), n);
}

/// A bone that `id` is neither parent nor child of stays as it is without `id`.
proof fn lemma_bereft_same(bs: Seq<BoneView>, id: BoneId, i: int)
    requires
        forest(bs),
        unused(bs, id),
        0 <= i < bs.len(),
    ensures
        bereft(bs[i], id) == bs[i],
        bs[i].id != id,
{
    let b = bs[i];
    assert(bone_at(bs, b.id, i));
    lemma_pos(bs, b.id, i);
    assert(kids_of(bs, b.id) == b.children);
    let gone = Set::<BoneId>::empty().insert(id);
    assert forall|j: int| 0 <= j < b.children.len() implies !gone.contains(#[trigger] b.children[j]) by {
        assert(kids_of(bs, b.id).contains(b.children[j]));
    }
    lemma_filter_all(b.children, |c: BoneId| !gone.contains(c));
}

/// Without a bone that is not there all bones stay as they are.
proof fn lemma_plucked_same(bs: Seq<BoneView>, id: BoneId)
    requires
        forest(bs),
        unused(bs, id),
    ensures
        bs.filter(|b: BoneView| b.id != id) == bs,
        plucked(bs, id) == bs,
{
    let p = |b: BoneView| b.id != id;
    assert forall|i: int| 0 <= i < bs.len() implies p(#[trigger] bs[i]) by {
        lemma_bereft_same(bs, id, i);
    }
    lemma_filter_all(bs, p);
    assert forall|i: int| 0 <= i < bs.len() implies #[trigger] plucked(bs, id)[i] == bs[i] by {
        lemma_bereft_same(bs, id, i);
    }
    assert(plucked(bs, id) =~= bs);
}

/// Taking a new root out again leaves the bones as they were.
proof fn lemma_root_undone(bs: Seq<BoneView>, b: BoneView)
    requires
        forest(bs),
        unused(bs, b.id),
        b.parent is None,
        b.children.len() == 0,
    ensures
        forest(with_bone(bs, b)),
        with_bone(bs, b) == bs.push(b),
        has_bone(with_bone(bs, b), b.id),
        kids_of(with_bone(bs, b), b.id) == Seq::<BoneId>::empty(),
        plucked(with_bone(bs, b), b.id) == bs,
{
    let id = b.id;
    lemma_with_bone(bs, b);
    assert(with_bone(bs, b) =~= bs.push(b));
    lemma_pos(bs.push(b), id, bs.len() as int);
    assert(kids_of(bs.push(b), id) =~= Seq::empty());
    lemma_plucked_same(bs, id);
    lemma_filter_push(bs, b, |x: BoneView| x.id != id);
}

/// Of two new roots the first can be taken out and the second stays.
proof fn lemma_first_undone(bs: Seq<BoneView>, a: BoneView, b: BoneView)
    requires
        forest(bs),
        unused(bs, a.id),
        unused(bs, b.id),
        a.id != b.id,
        a.parent is None,
        b.parent is None,
        a.children.len() == 0,
        b.children.len() == 0,
    ensures
        has_bone(with_bone(with_bone(bs, a), b), a.id),
        kids_of(with_bone(with_bone(bs, a), b), a.id) == Seq::<BoneId>::empty(),
        plucked(with_bone(with_bone(bs, a), b), a.id) == with_bone(bs, b),
{
    let id = a.id;
    let p = |x: BoneView| x.id != id;
    let one = bs.push(a);
    let two = bs.push(a).push(b);
    lemma_root_undone(bs, a);
    lemma_root_undone(bs, b);
    assert forall|i: int| 0 <= i < one.len() implies (#[trigger] one[i]).parent != Some(b.id) by {
        if i < bs.len() {
            assert(one[i] == bs[i]);
        }
    }
    lemma_with_bone(bs, a);
    assert(unused(one, b.id));
    lemma_with_bone(one, b);
    assert(with_bone(one, b) =~= two);
    lemma_pos(two, id, bs.len() as int);
    assert(kids_of(two, id) =~= Seq::empty());
    lemma_plucked_same(bs, id);
    lemma_filter_push(bs, a, p);
    lemma_filter_push(one, b, p);
    assert(two.filter(p) == bs.push(b));
    let f = |x: BoneView| bereft(x, id);
    assert(bereft(b, id) =~= b) by {
        let gone = Set::<BoneId>::empty().insert(id);
        lemma_filter_all(b.children, |c: BoneId| !gone.contains(c));
    }
    assert(bs.map_values(f) == bs);
    assert(bs.push(b).map_values(f) =~= bs.map_values(f).push(b));
}

/// The nodes without one that is not there.
proof fn lemma_nodes_same(nodes: Seq<NodeView>, h: NodeHandle)
    requires
        slot_free(nodes, h),
    ensures
        nodes_without(nodes, Set::empty().insert(BoneId { node: h })) == nodes,
{
    let gone = Set::<BoneId>::empty().insert(BoneId { node: h });
    let p = |n: NodeView| !gone.contains(BoneId { node: n.handle });
    assert forall|i: int| 0 <= i < nodes.len() implies p(#[trigger] nodes[i]) by {
        assert(nodes[i].handle.index != h.index);
    }
    lemma_filter_all(nodes, p);
}

/// Taking two new nodes out again, one after the other.
proof fn lemma_nodes_undone(nodes: Seq<NodeView>, a: NodeView, b: NodeView)
    requires
        slot_free(nodes, a.handle),
        slot_free(nodes, b.handle),
        a.handle != b.handle,
    ensures
        nodes_plucked(nodes.push(a).push(b), BoneId { node: a.handle }, Seq::empty()) == nodes.push(b),
        nodes_plucked(nodes.push(b), BoneId { node: b.handle }, Seq::empty()) == nodes,
{
    let ga = Set::<BoneId>::empty().insert(BoneId { node: a.handle });
    let gb = Set::<BoneId>::empty().insert(BoneId { node: b.handle });
    let pa = |n: NodeView| !ga.contains(BoneId { node: n.handle });
    let pb = |n: NodeView| !gb.contains(BoneId { node: n.handle });
    assert(cut_loose(nodes.push(a).push(b), Seq::empty()) =~= nodes.push(a).push(b));
    assert(cut_loose(nodes.push(b), Seq::empty()) =~= nodes.push(b));
    lemma_nodes_same(nodes, a.handle);
    lemma_nodes_same(nodes, b.handle);
    lemma_filter_push(nodes, a, pa);
    lemma_filter_push(nodes.push(a), b, pa);
    lemma_filter_push(nodes, b, pb);
}

/// Forgetting two bind poses, whether or not they were just written.
proof fn lemma_binds_undone(
    m: Map<u64, Transform>,
    a: NodeHandle,
    b: NodeHandle,
    x: Transform,
    y: Transform,
)
    ensures
        binds_without(
            binds_without(
                m.insert(a.key_of(), x).insert(b.key_of(), y),
                Set::empty().insert(BoneId { node: a }),
            ),
            Set::empty().insert(BoneId { node: b }),
        ) == m.remove(a.key_of()).remove(b.key_of()),
{
    let ga = Set::<BoneId>::empty().insert(BoneId { node: a });
    let gb = Set::<BoneId>::empty().insert(BoneId { node: b });
    let one = binds_without(m.insert(a.key_of(), x).insert(b.key_of(), y), ga);
    let two = binds_without(one, gb);
    let want = m.remove(a.key_of()).remove(b.key_of());
    assert forall|k: u64| #[trigger] keyed(ga, k) <==> k == a.key_of() by {
        lemma_key_handle(k, a);
    }
    assert forall|k: u64| #[trigger] keyed(gb, k) <==> k == b.key_of() by {
        lemma_key_handle(k, b);
    }
    assert(two =~= want);
}

/// Removing an IK chain that was just made gives the rig and its scene back:
/// bones, chains and nodes are as before, and so are the bind poses but for
/// what may have stood under the controls' names. Nothing is selected any more,
/// and the chain's number is not given out again.
pub proof fn law_ik_undone(
    r0: RigView,
    s0: SceneView,
    tip: BoneId,
    bones: Seq<BoneId>,
    target: NodeHandle,
    pole: NodeHandle,
    geo: IkGeometry,
    r1: RigView,
    s1: SceneView,
)
    requires
        rig_ok(r0),
        fresh(r0, s0, target),
        fresh(r0, s0, pole),
        target.index != pole.index,
        ik_removed(
            ik_created(r0, tip, bones, BoneId { node: target }, BoneId { node: pole }, geo),
            ik_scene(r0, s0, tip, BoneId { node: target }, BoneId { node: pole }, geo),
            r0.ik_chains.len() as int,
            r1,
            s1,
        ),
    ensures
        s1 == s0,
        r1 == (RigView {
            selected: Set::empty(),
            selection: None,
            overlay_dirty: true,
            next_ik_serial: (r0.next_ik_serial + 1) as u32,
            bind_locals: r0.bind_locals.remove(target.key_of()).remove(pole.key_of()),
            ..r0
        }),
        !r0.bind_locals.contains_key(target.key_of()) && !r0.bind_locals.contains_key(pole.key_of())
            ==> r1.bind_locals == r0.bind_locals,
        r0.next_ik_serial < u32::MAX ==> r1.next_ik_serial > r0.next_ik_serial,
{
    let t = BoneId { node: target };
    let p = BoneId { node: pole };
    let r = ik_created(r0, tip, bones, t, p, geo);
    let s = ik_scene(r0, s0, tip, t, p, geo);
    let at = r0.ik_chains.len() as int;
    let name = name_or(r0.bones, tip, "IK"@);
    let lt = leaf(t, name + ".IK"@, None, false);
    let lp = leaf(p, name + ".Pole"@, None, false);
    let xt = control_local(geo.target_pos, geo.target_rot);
    let xp = control_local(geo.pole_pos, quat_identity());
    lemma_first_undone(r0.bones, lt, lp);
    lemma_root_undone(r0.bones, lp);
    lemma_nodes_undone(
        s0.nodes,
        bone_node(target, name + ".IK"@, None, xt),
        bone_node(pole, name + ".Pole"@, None, xp),
    );
    lemma_binds_undone(r0.bind_locals, target, pole, xt, xp);
    let (rm, sm) = choose|rm: RigView, sm: SceneView|
        single_deleted(without_ik(r, at), s, r.ik_chains[at].target, rm, sm)
            && #[trigger] single_deleted(rm, sm, r.ik_chains[at].pole, r1, s1);
    assert(r.ik_chains.remove(at) =~= r0.ik_chains);
    assert(rm.bones == with_bone(r0.bones, lp));
    assert(r1.bones == r0.bones);
    assert(rm.selected =~= Set::empty());
    assert(rm.selection is None);
    assert(r1.selected =~= Set::empty());
    let want = r0.bind_locals.remove(target.key_of()).remove(pole.key_of());
    assert(r1.bind_locals == want);
    if !r0.bind_locals.contains_key(target.key_of()) && !r0.bind_locals.contains_key(pole.key_of()) {
        assert(want =~= r0.bind_locals);
    }
}

/// Going through the IK chains only adds to what is deleted.
proof fn lemma_kill_grows(chains: Seq<IkView>, kill: Set<BoneId>)
    ensures
        kill.subset_of(ik_kill(chains, kill)),
    decreases chains.len(),
{
    if chains.len() > 0 {
        lemma_kill_grows(chains.drop_last(), kill);
    }
}

/// An IK chain that stays uses no bone of the deleted branch; every chain that
/// goes takes its target and its pole with it.
pub proof fn law_ik_chains_cleared(chains: Seq<IkView>, kill: Set<BoneId>, c: IkView)
    requires
        chains.contains(c),
    ensures
        ik_kept(chains, kill).contains(c) ==> !ik_hit(c, kill),
        !ik_kept(chains, kill).contains(c) ==> ik_kill(chains, kill).contains(c.target) && ik_kill(
            chains,
            kill,
        ).contains(c.pole),
    decreases chains.len(),
{
    let t = chains.drop_last();
    let k = ik_kill(t, kill);
    let rest = ik_kept(t, kill);
    let out = ik_kept(chains, kill);
    lemma_kill_grows(t, kill);
    let at = choose|i: int| 0 <= i < chains.len() && chains[i] == c;
    if out.contains(c) {
        let m = choose|m: int| 0 <= m < out.len() && out[m] == c;
        if m < rest.len() {
            assert(rest[m] == c);
            lemma_kept_from(t, kill, c);
            law_ik_chains_cleared(t, kill, c);
        } else {
            assert(c == chains.last() && !ik_hit(c, k));
            assert(!ik_hit(c, kill)) by {
                if exists|i: int| 0 <= i < c.bones.len() && kill.contains(#[trigger] c.bones[i]) {
                    let i = choose|i: int| 0 <= i < c.bones.len() && kill.contains(#[trigger] c.bones[i]);
                    assert(k.contains(c.bones[i]));
                }
            }
        }
    } else if at < t.len() {
        assert(t[at] == c);
        if rest.contains(c) {
            let m = choose|m: int| 0 <= m < rest.len() && rest[m] == c;
            assert(out[m] == c);
        }
        law_ik_chains_cleared(t, kill, c);
    } else {
        if !ik_hit(chains.last(), k) {
            assert(out[rest.len() as int] == c);
        }
    }
}

proof fn lemma_kept_from(chains: Seq<IkView>, kill: Set<BoneId>, c: IkView)
    requires
        ik_kept(chains, kill).contains(c),
    ensures
        chains.contains(c),
    decreases chains.len(),
{
    if chains.len() > 0 {
        let t = chains.drop_last();
        let rest = ik_kept(t, kill);
        let out = ik_kept(chains, kill);
        let m = choose|m: int| 0 <= m < out.len() && out[m] == c;
        if m < rest.len() {
            assert(rest[m] == c);
            lemma_kept_from(t, kill, c);
            let i = choose|i: int| 0 <= i < t.len() && t[i] == c;
            assert(chains[i] == c);
        } else {
            assert(chains[chains.len() - 1] == c);
        }
    }
}

} // verus!
