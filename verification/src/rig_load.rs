//! From a loaded scene to a skeleton: which nodes are bones, who their logical
//! parents are, and which nodes have to be hung under them.

use vstd::prelude::*;
use std::collections::HashMap;
use crate::bones::{
    acyclic, bone_at, bone_pos, distinct, forest, has_bone, kids_of, lemma_pos, linked, parent_of,
    ranked, BoneId, BoneInfo, BoneView,
};
use crate::rig::{index_ok, RigDocument, RigView};
use crate::rig_select::{lemma_push_to_set, picked};
use crate::scene::{
    has_node, lemma_node_pos, node_at, node_get, node_parent, node_pos, NodeHandle, NodeView, Scene,
    SceneView, SkinView,
};
use crate::text::{decimal, decimal_of, join};

verus! {

broadcast use crate::scene::lemma_key_injective;

/// `h` is a joint of a skin.
pub open spec fn is_joint(skins: Seq<SkinView>, h: NodeHandle) -> bool {
    exists|i: int| 0 <= i < skins.len() && (#[trigger] skins[i]).joints.contains(h)
}

/// No skin has a joint.
pub open spec fn no_joints(skins: Seq<SkinView>) -> bool {
    forall|h: NodeHandle| !is_joint(skins, h)
}

/// Node `h` is a bone: one of the joints, or any node where there are no joints.
pub open spec fn is_bone_node(s: SceneView, h: NodeHandle) -> bool {
    has_node(s.nodes, h) && (no_joints(s.skins) || is_joint(s.skins, h))
}

/// The first joint met going up from `h`, `h` included, within `fuel` steps.
pub open spec fn joint_above(s: SceneView, h: NodeHandle, fuel: nat) -> Option<NodeHandle>
    decreases fuel,
{
    if is_joint(s.skins, h) {
        Some(h)
    } else if fuel == 0 {
        None
    } else {
        match node_parent(s.nodes, h) {
            Some(p) => joint_above(s, p, (fuel - 1) as nat),
            None => None,
        }
    }
}

/// The bone that node `n` hangs under, nodes in between that are no bones left
/// out.
pub open spec fn logical_parent(s: SceneView, n: NodeView) -> Option<BoneId> {
    match n.parent {
        None => None,
        Some(p) => if no_joints(s.skins) {
            Some(BoneId { node: p })
        } else {
            match joint_above(s, p, s.nodes.len()) {
                Some(j) => Some(BoneId { node: j }),
                None => None,
            }
        },
    }
}

/// The name of the bone on node `n`.
pub open spec fn bone_label(n: NodeView) -> Seq<char> {
    if n.name.len() == 0 {
        "Bone_"@ + decimal_of(n.handle.index as nat)
    } else {
        n.name
    }
}

/// `b` is the bone on its node, children aside.
pub open spec fn matches_node(s: SceneView, b: BoneView) -> bool {
    match node_get(s.nodes, b.id.node) {
        Some(n) => {
            &&& b.name == bone_label(n)
            &&& b.parent == logical_parent(s, n)
            &&& b.deform == is_joint(s.skins, b.id.node)
        },
        None => false,
    }
}

/// Handles by rising slot.
pub open spec fn by_slot(ids: Seq<BoneId>) -> bool {
    forall|i: int, j: int|
        0 <= i < j < ids.len() ==> (#[trigger] ids[i]).node.index < (#[trigger] ids[j]).node.index
}

/// `bs` is the skeleton of scene `s`: one bone per bone node, by rising slot,
/// each with its children by rising slot.
pub open spec fn skeleton_of(s: SceneView, bs: Seq<BoneView>) -> bool {
    &&& forall|id: BoneId| #[trigger] has_bone(bs, id) <==> is_bone_node(s, id.node)
    &&& forall|i: int, j: int|
        0 <= i < j < bs.len() ==> (#[trigger] bs[i]).id.node.index < (
        #[trigger] bs[j]).id.node.index
    &&& forall|i: int| 0 <= i < bs.len() ==> matches_node(s, #[trigger] bs[i])
    &&& linked(bs)
    &&& forall|i: int| 0 <= i < bs.len() ==> by_slot((#[trigger] bs[i]).children)
}

/// `rank` grows from every node to its children and stays below `bound`.
pub open spec fn nodes_ranked(
    nodes: Seq<NodeView>,
    rank: spec_fn(NodeHandle) -> nat,
    bound: nat,
) -> bool {
    forall|i: int|
        0 <= i < nodes.len() ==> {
            &&& rank((#[trigger] nodes[i]).handle) < bound
            &&& nodes[i].parent matches Some(p) ==> has_node(nodes, p) ==> rank(p) < rank(
                nodes[i].handle,
            )
        }
}

/// No node is above itself.
pub open spec fn nodes_acyclic(nodes: Seq<NodeView>) -> bool {
    exists|rank: spec_fn(NodeHandle) -> nat, bound: nat| nodes_ranked(nodes, rank, bound)
}

/// What is met going up ranks no higher.
proof fn lemma_joint_above_rank(
    s: SceneView,
    rank: spec_fn(NodeHandle) -> nat,
    bound: nat,
    h: NodeHandle,
    fuel: nat,
)
    requires
        nodes_ranked(s.nodes, rank, bound),
        joint_above(s, h, fuel) is Some,
        has_node(s.nodes, joint_above(s, h, fuel)->0),
    ensures
        has_node(s.nodes, h),
        rank(joint_above(s, h, fuel)->0) <= rank(h),
        is_joint(s.skins, joint_above(s, h, fuel)->0),
    decreases fuel,
{
    if !is_joint(s.skins, h) {
        let p = node_parent(s.nodes, h)->0;
        lemma_joint_above_rank(s, rank, bound, p, (fuel - 1) as nat);
        let i = node_pos(s.nodes, h);
        assert(node_at(s.nodes, h, i));
        assert(rank(s.nodes[i].handle) < bound);
    }
}

/// The skeleton of a scene without cycles is a forest.
pub proof fn lemma_skeleton_forest(s: SceneView, bs: Seq<BoneView>)
    requires
        crate::scene::scene_ok(s),
        nodes_acyclic(s.nodes),
        skeleton_of(s, bs),
    ensures
        forest(bs),
{
    let (rank, bound) = choose|rank: spec_fn(NodeHandle) -> nat, bound: nat|
        nodes_ranked(s.nodes, rank, bound);
    assert forall|i: int, j: int| 0 <= i < j < bs.len() implies bs[i].id != bs[j].id by {
        assert(bs[i].id.node.index < bs[j].id.node.index);
    }
    let r = |id: BoneId| rank(id.node);
    assert(ranked(bs, r, bound)) by {
        assert forall|i: int| 0 <= i < bs.len() implies {
            &&& r((#[trigger] bs[i]).id) < bound
            &&& bs[i].parent matches Some(p) ==> has_bone(bs, p) ==> r(p) < r(bs[i].id)
        } by {
            let h = bs[i].id.node;
            assert(matches_node(s, bs[i]));
            let k = node_pos(s.nodes, h);
            assert(node_at(s.nodes, h, k));
            assert(rank(s.nodes[k].handle) < bound);
            if bs[i].parent is Some && has_bone(bs, bs[i].parent->0) {
                let p = bs[i].parent->0;
                assert(is_bone_node(s, p.node));
                if !no_joints(s.skins) {
                    lemma_joint_above_rank(s, rank, bound, s.nodes[k].parent->0, s.nodes.len());
                }
            }
        }
    }
    assert(acyclic(bs));
}

/// The joints of all skins, each handle at least once.
fn all_joints(scene: &Scene) -> (r: Vec<NodeHandle>)
    ensures
        forall|h: NodeHandle| #[trigger] r@.contains(h) <==> is_joint(scene@.skins, h),
{
    let mut out: Vec<NodeHandle> = Vec::new();
    let mut i: usize = 0;
    while i < scene.skins.len()
        invariant
            i <= scene.skins@.len(),
            forall|h: NodeHandle| #[trigger]
                out@.contains(h) <==> exists|k: int|
                    0 <= k < i && (#[trigger] scene@.skins[k]).joints.contains(h),
        decreases scene.skins.len() - i,
    {
        let joints = &scene.skins[i].joints;
        let ghost o = out@;
        let mut j: usize = 0;
        while j < joints.len()
            invariant
                j <= joints@.len(),
                out@ == o + joints@.take(j as int),
            decreases joints.len() - j,
        {
            out.push(joints[j]);
            assert(o + joints@.take(j as int + 1) =~= (o + joints@.take(j as int)).push(
                joints@[j as int],
            ));
            j = j + 1;
        }
        assert(joints@.take(j as int) =~= joints@);
        assert(scene@.skins[i as int].joints == joints@);
        assert forall|h: NodeHandle| #[trigger] out@.contains(h) <==> exists|k: int|
            0 <= k < i + 1 && (#[trigger] scene@.skins[k]).joints.contains(h) by {
            if out@.contains(h) {
                let m = choose|m: int| 0 <= m < out@.len() && out@[m] == h;
                if m < o.len() {
                    assert(o[m] == h);
                    assert(o.contains(h));
                    let k = choose|k: int|
                        0 <= k < i && (#[trigger] scene@.skins[k]).joints.contains(h);
                    assert(scene@.skins[k].joints.contains(h));
                } else {
                    assert(joints@[m - o.len()] == h);
                    assert(scene@.skins[i as int].joints.contains(h));
                }
            }
            if exists|k: int| 0 <= k < i + 1 && (#[trigger] scene@.skins[k]).joints.contains(h) {
                let k = choose|k: int|
                    0 <= k < i + 1 && (#[trigger] scene@.skins[k]).joints.contains(h);
                if k < i {
                    assert(o.contains(h));
                    let m = choose|m: int| 0 <= m < o.len() && o[m] == h;
                    assert(out@[m] == h);
                } else {
                    let m = choose|m: int| 0 <= m < joints@.len() && joints@[m] == h;
                    assert(out@[o.len() + m] == h);
                }
            }
        }
        i = i + 1;
    }
    out
}

fn lists_handle(v: &Vec<NodeHandle>, h: NodeHandle) -> (r: bool)
    ensures
        r == v@.contains(h),
{
    let mut i: usize = 0;
    while i < v.len()
        invariant
            i <= v@.len(),
            forall|j: int| 0 <= j < i ==> v@[j] != h,
        decreases v.len() - i,
    {
        if v[i] == h {
            assert(v@[i as int] == h);
            return true;
        }
        i = i + 1;
    }
    false
}

/// The logical parent of the node at place `at`.
fn find_parent(scene: &Scene, joints: &Vec<NodeHandle>, at: usize) -> (r: Option<BoneId>)
    requires
        scene.wf(),
        at < scene.nodes@.len(),
        forall|h: NodeHandle| #[trigger] joints@.contains(h) <==> is_joint(scene@.skins, h),
    ensures
        r == logical_parent(scene@, scene@.nodes[at as int]),
{
    let ghost s = scene@;
    assert(s.nodes[at as int].parent == scene.nodes@[at as int].parent);
    let p = match scene.nodes[at].parent {
        Some(p) => p,
        None => {
            return None;
        },
    };
    if joints.len() == 0 {
        assert forall|h: NodeHandle| !is_joint(s.skins, h) by {
            assert(!joints@.contains(h));
        }
        return Some(BoneId { node: p });
    }
    assert(joints@.contains(joints@[0]));
    assert(is_joint(s.skins, joints@[0]));
    let n = scene.nodes.len();
    let mut cur = p;
    let mut left: usize = n;
    loop
        invariant
            scene.wf(),
            s == scene@,
            n == s.nodes.len(),
            left <= n,
            !no_joints(s.skins),
            s.nodes[at as int].parent == Some(p),
            forall|h: NodeHandle| #[trigger] joints@.contains(h) <==> is_joint(s.skins, h),
            joint_above(s, p, n as nat) == joint_above(s, cur, left as nat),
        decreases left,
    {
        assert(joints@.contains(cur) <==> is_joint(s.skins, cur));
        if lists_handle(joints, cur) {
            return Some(BoneId { node: cur });
        }
        if left == 0 {
            return None;
        }
        let up = match scene.find_node(cur) {
            Some(i) => {
                assert(s.nodes[i as int].parent == scene.nodes@[i as int].parent);
                scene.nodes[i].parent
            },
            None => None,
        };
        assert(up == node_parent(s.nodes, cur));
        match up {
            Some(q) => {
                cur = q;
                left = left - 1;
            },
            None => {
                return None;
            },
        }
    }
}

/// The places are in range and go by rising slot.
pub open spec fn slots_rise(nodes: Seq<NodeView>, places: Seq<usize>) -> bool {
    &&& forall|k: int| 0 <= k < places.len() ==> 0 <= #[trigger] places[k] < nodes.len()
    &&& forall|k: int, m: int|
        0 <= k < m < places.len() ==> nodes[#[trigger] places[k] as int].handle.index < nodes[
        #[trigger] places[m] as int].handle.index
}

/// Adds place `i` where its slot belongs.
fn insert_by_slot(scene: &Scene, out: &mut Vec<usize>, i: usize)
    requires
        i < scene@.nodes.len(),
        slots_rise(scene@.nodes, old(out)@),
        forall|k: int|
            0 <= k < old(out)@.len() ==> scene@.nodes[
            #[trigger] old(out)@[k] as int].handle.index != scene@.nodes[i as int].handle.index,
    ensures
        slots_rise(scene@.nodes, final(out)@),
        forall|x: usize| #[trigger] final(out)@.contains(x) <==> old(out)@.contains(x) || x == i,
{
    let ghost s = scene@;
    let ghost o = out@;
    let h = scene.nodes[i].handle;
    let mut p: usize = 0;
    while p < out.len() && scene.nodes[out[p]].handle.index < h.index
        invariant
            p <= out@.len(),
            s == scene@,
            slots_rise(s.nodes, out@),
            forall|k: int| 0 <= k < p ==> s.nodes[#[trigger] out@[k] as int].handle.index < h.index,
        decreases out.len() - p,
    {
        assert(s.nodes[out@[p as int] as int].handle.index < h.index);
        p = p + 1;
    }
    out.insert(p, i);
    let ghost n = out@;
    assert(n == o.insert(p as int, i));
    assert forall|k: int| 0 <= k < n.len() implies 0 <= #[trigger] n[k] < s.nodes.len() by {
        if k < p {
            assert(n[k] == o[k]);
        } else if k > p {
            assert(n[k] == o[k - 1]);
        }
    }
    assert forall|k: int, m: int| 0 <= k < m < n.len() implies s.nodes[
    #[trigger] n[k] as int].handle.index < s.nodes[#[trigger] n[m] as int].handle.index by {
        if k < p && m < p {
            assert(n[k] == o[k] && n[m] == o[m]);
        } else if k < p && m == p {
            assert(n[k] == o[k]);
        } else if k < p {
            assert(n[k] == o[k] && n[m] == o[m - 1]);
        } else if k == p {
            assert(n[m] == o[m - 1]);
            assert(s.nodes[o[p as int] as int].handle.index > h.index);
            if m - 1 > p {
                assert(s.nodes[o[p as int] as int].handle.index < s.nodes[o[m
                    - 1] as int].handle.index);
            }
        } else {
            assert(n[k] == o[k - 1] && n[m] == o[m - 1]);
        }
    }
    assert forall|x: usize| #[trigger] n.contains(x) <==> o.contains(x) || x == i by {
        if n.contains(x) {
            let k = choose|k: int| 0 <= k < n.len() && n[k] == x;
            if k < p {
                assert(o[k] == x);
            } else if k > p {
                assert(o[k - 1] == x);
            }
        }
        if o.contains(x) {
            let k = choose|k: int| 0 <= k < o.len() && o[k] == x;
            if k < p {
                assert(n[k] == x);
            } else {
                assert(n[k + 1] == x);
            }
        }
        if x == i {
            assert(n[p as int] == x);
        }
    }
}

/// The places of the bone nodes, by rising slot.
fn bone_places(scene: &Scene, joints: &Vec<NodeHandle>) -> (r: Vec<usize>)
    requires
        scene.wf(),
        forall|h: NodeHandle| #[trigger] joints@.contains(h) <==> is_joint(scene@.skins, h),
    ensures
        forall|k: int|
            0 <= k < r@.len() ==> 0 <= #[trigger] r@[k] < scene@.nodes.len() && is_bone_node(
                scene@,
                scene@.nodes[r@[k] as int].handle,
            ),
        slots_rise(scene@.nodes, r@),
        forall|i: int|
            0 <= i < scene@.nodes.len() && is_bone_node(scene@, (#[trigger] scene@.nodes[i]).handle)
                ==> r@.contains(i as usize),
{
    let ghost s = scene@;
    let mut out: Vec<usize> = Vec::new();
    let mut i: usize = 0;
    proof {
        if joints@.len() == 0 {
            assert forall|h: NodeHandle| !is_joint(s.skins, h) by {
                assert(!joints@.contains(h));
            }
        } else {
            assert(joints@.contains(joints@[0]));
            assert(is_joint(s.skins, joints@[0]));
        }
    }
    while i < scene.nodes.len()
        invariant
            i <= scene.nodes@.len(),
            s == scene@,
            scene.wf(),
            joints@.len() == 0 <==> no_joints(s.skins),
            forall|h: NodeHandle| #[trigger] joints@.contains(h) <==> is_joint(s.skins, h),
            forall|k: int|
                0 <= k < out@.len() ==> 0 <= #[trigger] out@[k] < i && is_bone_node(
                    s,
                    s.nodes[out@[k] as int].handle,
                ),
            slots_rise(s.nodes, out@),
            forall|j: int|
                0 <= j < i && is_bone_node(s, (#[trigger] s.nodes[j]).handle) ==> out@.contains(
                    j as usize,
                ),
        decreases scene.nodes.len() - i,
    {
        let h = scene.nodes[i].handle;
        assert(s.nodes[i as int].handle == h);
        assert(node_at(s.nodes, h, i as int));
        assert(joints@.contains(h) <==> is_joint(s.skins, h));
        if joints.len() == 0 || lists_handle(joints, h) {
            let ghost o = out@;
            assert forall|k: int| 0 <= k < o.len() implies s.nodes[
            #[trigger] o[k] as int].handle.index != h.index by {
                assert(0 <= o[k] < i);
                assert(s.nodes[o[k] as int].handle.index != s.nodes[i as int].handle.index);
            }
            insert_by_slot(scene, &mut out, i);
            assert forall|k: int| 0 <= k < out@.len() implies 0 <= #[trigger] out@[k] < i + 1
                && is_bone_node(s, s.nodes[out@[k] as int].handle) by {
                assert(out@.contains(out@[k]));
                if out@[k] != i {
                    assert(o.contains(out@[k]));
                    let m = choose|m: int| 0 <= m < o.len() && o[m] == out@[k];
                    assert(0 <= o[m] < i);
                }
            }
            assert forall|j: int|
                0 <= j < i + 1 && is_bone_node(s, (#[trigger] s.nodes[j]).handle) implies out@.contains(
                j as usize,
            ) by {
                if j < i {
                    assert(o.contains(j as usize));
                }
            }
        } else {
            assert(!is_bone_node(s, h));
        }
        i = i + 1;
    }
    out
}

/// The bones on the nodes at `places`, without children so far.
fn bare_bones(scene: &Scene, joints: &Vec<NodeHandle>, places: &Vec<usize>) -> (r: Vec<BoneInfo>)
    requires
        scene.wf(),
        forall|h: NodeHandle| #[trigger] joints@.contains(h) <==> is_joint(scene@.skins, h),
        forall|k: int| 0 <= k < places@.len() ==> 0 <= #[trigger] places@[k] < scene@.nodes.len(),
    ensures
        r@.len() == places@.len(),
        forall|k: int|
            0 <= k < r@.len() ==> (#[trigger] r@[k])@.id == (BoneId {
                node: scene@.nodes[places@[k] as int].handle,
            }) && matches_node(scene@, r@[k]@) && r@[k]@.children.len() == 0,
{
    let ghost s = scene@;
    let mut out: Vec<BoneInfo> = Vec::new();
    let mut k: usize = 0;
    while k < places.len()
        invariant
            k <= places@.len(),
            scene.wf(),
            s == scene@,
            forall|h: NodeHandle| #[trigger] joints@.contains(h) <==> is_joint(s.skins, h),
            forall|m: int| 0 <= m < places@.len() ==> 0 <= #[trigger] places@[m] < s.nodes.len(),
            out@.len() == k,
            forall|m: int|
                0 <= m < out@.len() ==> (#[trigger] out@[m])@.id == (BoneId {
                    node: s.nodes[places@[m] as int].handle,
                }) && matches_node(s, out@[m]@) && out@[m]@.children.len() == 0,
        decreases places.len() - k,
    {
        let at = places[k];
        let parent = find_parent(scene, joints, at);
        let n = &scene.nodes[at];
        assert(s.nodes[at as int] == n@);
        let h = n.handle;
        let name = if n.name.as_str().is_empty() {
            join("Bone_", &decimal(h.index as u64))
        } else {
            n.name.clone()
        };
        let deform = lists_handle(joints, h);
        let b = BoneInfo { id: BoneId { node: h }, name, parent, children: Vec::new(), deform };
        proof {
            assert(node_at(s.nodes, h, at as int));
            lemma_node_pos(s, h, at as int);
            assert(joints@.contains(h) <==> is_joint(s.skins, h));
            assert(matches_node(s, b@));
        }
        out.push(b);
        k = k + 1;
    }
    out
}

/// `c` is one of the first `i` bones, and its parent is bone number `b`.
pub open spec fn early_kid(bs: Seq<BoneView>, b: int, c: BoneId, i: int) -> bool {
    exists|j: int| 0 <= j < i && (#[trigger] bs[j]).id == c && bs[j].parent == Some(bs[b].id)
}

impl RigDocument {
    /// Lists every bone under its parent.
    fn fill_children(&mut self)
        requires
            distinct(old(self)@.bones),
            index_ok(old(self)@.bones, old(self).bone_index@),
            forall|i: int, j: int|
                0 <= i < j < old(self)@.bones.len() ==> (
                #[trigger] old(self)@.bones[i]).id.node.index < (
                #[trigger] old(self)@.bones[j]).id.node.index,
            forall|i: int|
                0 <= i < old(self)@.bones.len() ==> (
                #[trigger] old(self)@.bones[i]).children.len() == 0,
        ensures
            final(self)@ == (RigView { bones: final(self)@.bones, ..old(self)@ }),
            final(self).bone_index == old(self).bone_index,
            final(self).selected == old(self).selected,
            final(self)@.bones.len() == old(self)@.bones.len(),
            forall|i: int|
                0 <= i < old(self)@.bones.len() ==> #[trigger] final(self)@.bones[i] == (BoneView {
                    children: final(self)@.bones[i].children,
                    ..old(self)@.bones[i]
                }),
            linked(final(self)@.bones),
            forall|i: int|
                0 <= i < final(self)@.bones.len() ==> by_slot(
                    (#[trigger] final(self)@.bones[i]).children,
                ),
    {
        broadcast use vstd::std_specs::hash::group_hash_axioms;

        let ghost bs = self@.bones;
        let n = self.bones.len();
        let mut i: usize = 0;
        while i < n
            invariant
                i <= n,
                n == self.bones@.len(),
                n == bs.len(),
                distinct(bs),
                index_ok(bs, self.bone_index@),
                forall|a: int, b: int|
                    0 <= a < b < bs.len() ==> (#[trigger] bs[a]).id.node.index < (
                    #[trigger] bs[b]).id.node.index,
                self@ == (RigView { bones: self@.bones, ..old(self)@ }),
                self.bone_index == old(self).bone_index,
                self.selected == old(self).selected,
                forall|b: int|
                    0 <= b < n ==> #[trigger] self@.bones[b] == (BoneView {
                        children: self@.bones[b].children,
                        ..bs[b]
                    }),
                forall|b: int, c: BoneId|
                    0 <= b < n ==> (#[trigger] self@.bones[b].children.contains(c) <==> early_kid(
                        bs,
                        b,
                        c,
                        i as int,
                    )),
                forall|b: int| 0 <= b < n ==> by_slot((#[trigger] self@.bones[b]).children),
            decreases n - i,
        {
            let ghost was = self@.bones;
            assert(was[i as int] == self.bones@[i as int]@);
            let id = self.bones[i].id;
            let parent = self.bones[i].parent;
            assert(id == bs[i as int].id && parent == bs[i as int].parent);
            let at = match parent {
                Some(p) => match self.bone_index.get(&p.node.key()) {
                    Some(pi) => {
                        assert(has_bone(bs, p));
                        assert(bone_at(bs, p, *pi as int));
                        Some(*pi)
                    },
                    None => {
                        assert(!has_bone(bs, p));
                        None
                    },
                },
                None => None,
            };
            if let Some(pi) = at {
                self.bones[pi].children.push(id);
                assert(self@.bones[pi as int].children == was[pi as int].children.push(id));
                assert forall|b: int| 0 <= b < n && b != pi implies self@.bones[b] == was[b] by {}
            }
            proof {
                assert forall|b: int| 0 <= b < n implies #[trigger] self@.bones[b] == (BoneView {
                    children: self@.bones[b].children,
                    ..bs[b]
                }) by {
                    assert(was[b] == (BoneView { children: was[b].children, ..bs[b] }));
                }
                assert forall|b: int, c: BoneId| 0 <= b < n implies (
                #[trigger] self@.bones[b].children.contains(c) <==> early_kid(
                    bs,
                    b,
                    c,
                    i + 1,
                )) by {
                    let old_kids = was[b].children;
                    assert(old_kids.contains(c) <==> early_kid(bs, b, c, i as int));
                    if early_kid(bs, b, c, i as int) {
                        let j = choose|j: int|
                            0 <= j < i && (#[trigger] bs[j]).id == c && bs[j].parent == Some(bs[b].id);
                        assert(bs[j].id == c);
                        assert(early_kid(bs, b, c, i + 1));
                    }
                    if at == Some(b as usize) {
                        lemma_push_to_set(old_kids, id);
                        assert(self@.bones[b].children.contains(c)
                            == self@.bones[b].children.to_set().contains(c));
                        assert(old_kids.contains(c) == old_kids.to_set().contains(c));
                        assert(parent == Some(bs[b].id));
                        if c == id {
                            assert(bs[i as int].id == c);
                            assert(early_kid(bs, b, c, i + 1));
                        }
                    }
                    if early_kid(bs, b, c, i + 1) && !early_kid(bs, b, c, i as int) {
                        let j = choose|j: int|
                            0 <= j < i + 1 && (#[trigger] bs[j]).id == c && bs[j].parent == Some(
                                bs[b].id,
                            );
                        assert(j == i);
                        assert(parent == Some(bs[b].id));
                        assert(bone_at(bs, bs[b].id, b));
                        assert(has_bone(bs, bs[b].id));
                        lemma_pos(bs, bs[b].id, b);
                        assert(at == Some(b as usize));
                    }
                }
                assert forall|b: int| 0 <= b < n implies by_slot(
                    (#[trigger] self@.bones[b]).children,
                ) by {
                    assert(by_slot(was[b].children));
                    if at == Some(b as usize) {
                        let k = was[b].children;
                        let m = self@.bones[b].children;
                        assert forall|u: int, w: int| 0 <= u < w < m.len() implies (
                        #[trigger] m[u]).node.index < (#[trigger] m[w]).node.index by {
                            assert(m[u] == k[u]);
                            if w == k.len() {
                                assert(k.contains(k[u]));
                                assert(was[b].children.contains(k[u]));
                                let j = choose|j: int|
                                    0 <= j < i && (#[trigger] bs[j]).id == k[u] && bs[j].parent
                                        == Some(bs[b].id);
                                assert(bs[j].id.node.index < bs[i as int].id.node.index);
                            } else {
                                assert(m[w] == k[w]);
                            }
                        }
                    }
                }
            }
            i = i + 1;
        }
        proof {
            let ns = self@.bones;
            assert forall|b: BoneId, c: BoneId| has_bone(ns, b) implies (
            #[trigger] kids_of(ns, b).contains(c) <==> (has_bone(ns, c) && parent_of(ns, c)
                == Some(b))) by {
                lemma_filled(bs, ns, b, c);
            }
            assert forall|a: int| 0 <= a < ns.len() implies (
            #[trigger] ns[a]).children.no_duplicates() by {
                assert(by_slot(ns[a].children));
                let k = ns[a].children;
                assert forall|u: int, w: int|
                    0 <= u < k.len() && 0 <= w < k.len() && u != w implies k[u] != k[w] by {
                    if u < w {
                        assert(k[u].node.index < k[w].node.index);
                    } else {
                        assert(k[w].node.index < k[u].node.index);
                    }
                }
            }
        }
    }

    /// Makes the skeleton of the scene the skeleton of the document. Bones that
    /// are no more leave the selection.
    pub fn rebuild_bones(&mut self, scene: &Scene)
        requires
            old(self).wf(),
            scene.wf(),
            nodes_acyclic(scene@.nodes),
        ensures
            final(self).wf(),
            skeleton_of(scene@, final(self)@.bones),
            final(self)@ == (RigView {
                bones: final(self)@.bones,
                selected: old(self)@.selected.intersect(
                    Set::new(|id: BoneId| has_bone(final(self)@.bones, id)),
                ),
                selection: final(self)@.selection,
                ..old(self)@
            }),
            match old(self)@.selection {
                Some(a) => if has_bone(final(self)@.bones, a) {
                    final(self)@.selection == Some(a)
                } else {
                    picked(final(self)@.selection, final(self)@.selected)
                },
                None => final(self)@.selection is None,
            },
    {
        let ghost s = scene@;
        let joints = all_joints(scene);
        let places = bone_places(scene, &joints);
        self.bones = bare_bones(scene, &joints, &places);
        let ghost bs = self@.bones;
        let ghost bare = self.bones@;
        proof {
            assert forall|i: int, j: int| 0 <= i < j < bs.len() implies (
            #[trigger] bs[i]).id.node.index < (#[trigger] bs[j]).id.node.index by {
                assert(bs[i] == self.bones@[i]@ && bs[j] == self.bones@[j]@);
                assert(s.nodes[places@[i] as int].handle.index < s.nodes[places@[j] as int].handle.index);
            }
            assert forall|i: int, j: int| 0 <= i < j < bs.len() implies bs[i].id != bs[j].id by {
                assert(bs[i].id.node.index < bs[j].id.node.index);
            }
            assert forall|id: BoneId| #[trigger] has_bone(bs, id) <==> is_bone_node(s, id.node) by {
                if has_bone(bs, id) {
                    let k = bone_pos(bs, id);
                    assert(bone_at(bs, id, k));
                    assert(self.bones@[k]@.id == bs[k].id);
                    assert(0 <= places@[k] < s.nodes.len());
                }
                if is_bone_node(s, id.node) {
                    let i = node_pos(s.nodes, id.node);
                    assert(node_at(s.nodes, id.node, i));
                    assert(s.nodes[i].handle == id.node);
                    assert(i < scene.nodes.len());
                    assert(places@.contains(i as usize));
                    let k = choose|k: int| 0 <= k < places@.len() && places@[k] == i as usize;
                    assert(self.bones@[k]@.id == id);
                    assert(bone_at(bs, id, k));
                }
            }
            assert forall|i: int| 0 <= i < bs.len() implies (#[trigger] bs[i]).children.len() == 0 by {
                assert(self.bones@[i]@.children.len() == 0);
            }
        }
        self.reindex_bones();
        self.fill_children();
        proof {
            let ns = self@.bones;
            assert forall|id: BoneId| #[trigger] has_bone(ns, id) <==> has_bone(bs, id) by {
                lemma_same_ids(bs, ns, id);
            }
            assert forall|i: int| 0 <= i < ns.len() implies matches_node(s, #[trigger] ns[i]) by {
                assert(ns[i] == (BoneView { children: ns[i].children, ..bs[i] }));
                assert(bs[i] == bare[i]@);
                assert(matches_node(s, bs[i]));
            }
            assert forall|i: int, j: int| 0 <= i < j < ns.len() implies (
            #[trigger] ns[i]).id.node.index < (#[trigger] ns[j]).id.node.index by {
                assert(ns[i] == (BoneView { children: ns[i].children, ..bs[i] }));
                assert(ns[j] == (BoneView { children: ns[j].children, ..bs[j] }));
            }
            assert(skeleton_of(s, ns));
            lemma_skeleton_forest(s, ns);
            assert forall|id: BoneId| #[trigger] has_bone(ns, id) implies bone_pos(ns, id)
                == bone_pos(bs, id) by {
                lemma_same_ids(bs, ns, id);
            }
            assert(index_ok(ns, self.bone_index@));
        }
        self.keep_live_selection();
    }

    /// Drops from the selection what is no bone.
    fn keep_live_selection(&mut self)
        requires
            forest(old(self)@.bones),
            index_ok(old(self)@.bones, old(self).bone_index@),
            old(self).selected@.no_duplicates(),
            old(self)@.selection matches Some(a) ==> old(self)@.selected.contains(a),
        ensures
            final(self)@ == (RigView {
                selected: old(self)@.selected.intersect(
                    Set::new(|id: BoneId| has_bone(old(self)@.bones, id)),
                ),
                selection: final(self)@.selection,
                ..old(self)@
            }),
            final(self).bone_index == old(self).bone_index,
            final(self).selected@.no_duplicates(),
            match old(self)@.selection {
                Some(a) => if has_bone(old(self)@.bones, a) {
                    final(self)@.selection == Some(a)
                } else {
                    picked(final(self)@.selection, final(self)@.selected)
                },
                None => final(self)@.selection is None,
            },
    {
        broadcast use vstd::std_specs::hash::group_hash_axioms;

        let ghost bs = self@.bones;
        let ghost sel = self.selected@;
        let mut left: Vec<BoneId> = Vec::new();
        let mut i: usize = 0;
        while i < self.selected.len()
            invariant
                i <= self.selected@.len(),
                *self == *old(self),
                bs == self@.bones,
                sel == self.selected@,
                sel.no_duplicates(),
                index_ok(bs, self.bone_index@),
                left@.no_duplicates(),
                forall|x: BoneId|
                    #[trigger] left@.contains(x) <==> sel.take(i as int).contains(x) && has_bone(bs, x),
            decreases self.selected.len() - i,
        {
            let x = self.selected[i];
            let ghost o = left@;
            let ghost t = sel.take(i as int);
            assert(sel.take(i as int + 1) =~= t.push(x));
            assert(!t.contains(x)) by {
                if t.contains(x) {
                    let k = choose|k: int| 0 <= k < t.len() && t[k] == x;
                    assert(sel[k] == sel[i as int]);
                }
            }
            let live = self.bone_index.contains_key(&x.node.key());
            assert(live == has_bone(bs, x)) by {
                if live {
                    assert(self.bone_index@.contains_key(x.node.key_of()));
                }
            }
            assert(!o.contains(x));
            if live {
                left.push(x);
            }
            assert forall|y: BoneId| #[trigger] left@.contains(y) <==> t.push(x).contains(y)
                && has_bone(bs, y) by {
                lemma_push_to_set(t, x);
                lemma_push_to_set(o, x);
                assert(t.push(x).contains(y) == t.push(x).to_set().contains(y));
                assert(t.contains(y) == t.to_set().contains(y));
                assert(o.contains(y) == o.to_set().contains(y));
                assert(o.push(x).contains(y) == o.push(x).to_set().contains(y));
            }
            proof {
                lemma_push_to_set(o, x);
            }
            i = i + 1;
        }
        assert(sel.take(i as int) =~= sel);
        self.selected = left;
        assert(self.selected@.to_set() =~= sel.to_set().intersect(
            Set::new(|id: BoneId| has_bone(bs, id)),
        )) by {
            assert forall|x: BoneId| self.selected@.to_set().contains(x) <==> sel.to_set().intersect(
                Set::new(|id: BoneId| has_bone(bs, id)),
            ).contains(x) by {
                assert(sel.take(i as int).contains(x) == sel.contains(x));
                assert(left@.contains(x) == self.selected@.to_set().contains(x));
            }
        }
        if let Some(a) = self.selection {
            if !self.bone_index.contains_key(&a.node.key()) {
                assert(!has_bone(bs, a));
                self.selection = self.any_selected();
            } else {
                assert(self.bone_index@.contains_key(a.node.key_of()));
                assert(has_bone(bs, a));
            }
        }
    }
}

/// Changing children changes no place.
proof fn lemma_same_ids(bs: Seq<BoneView>, ns: Seq<BoneView>, id: BoneId)
    requires
        distinct(bs),
        bs.len() == ns.len(),
        forall|i: int|
            0 <= i < bs.len() ==> #[trigger] ns[i] == (BoneView { children: ns[i].children, ..bs[i] }),
    ensures
        has_bone(ns, id) <==> has_bone(bs, id),
        has_bone(ns, id) ==> bone_pos(ns, id) == bone_pos(bs, id),
        parent_of(ns, id) == parent_of(bs, id),
{
    if has_bone(ns, id) {
        let k = bone_pos(ns, id);
        assert(bone_at(ns, id, k));
        assert(ns[k].id == bs[k].id);
        lemma_pos(bs, id, k);
    }
    if has_bone(bs, id) {
        let k = bone_pos(bs, id);
        assert(bone_at(bs, id, k));
        assert(ns[k].id == bs[k].id);
        assert(bone_at(ns, id, k));
        assert(ns[k].parent == bs[k].parent);
    }
}

/// With all bones gone through, child lists and parents agree.
proof fn lemma_filled(bs: Seq<BoneView>, ns: Seq<BoneView>, b: BoneId, c: BoneId)
    requires
        distinct(bs),
        bs.len() == ns.len(),
        forall|i: int|
            0 <= i < bs.len() ==> #[trigger] ns[i] == (BoneView { children: ns[i].children, ..bs[i] }),
        forall|i: int, x: BoneId|
            0 <= i < bs.len() ==> (#[trigger] ns[i].children.contains(x) <==> early_kid(
                bs,
                i,
                x,
                bs.len() as int,
            )),
        has_bone(ns, b),
    ensures
        kids_of(ns, b).contains(c) <==> (has_bone(ns, c) && parent_of(ns, c) == Some(b)),
{
    lemma_same_ids(bs, ns, b);
    lemma_same_ids(bs, ns, c);
    let k = bone_pos(ns, b);
    assert(bone_at(ns, b, k));
    assert(ns[k].id == bs[k].id);
    assert(ns[k].children.contains(c) <==> early_kid(bs, k, c, bs.len() as int));
    if early_kid(bs, k, c, bs.len() as int) {
        let j = choose|j: int|
            0 <= j < bs.len() && (#[trigger] bs[j]).id == c && bs[j].parent == Some(bs[k].id);
        lemma_pos(bs, c, j);
    }
    if has_bone(bs, c) && parent_of(bs, c) == Some(b) {
        let j = bone_pos(bs, c);
        assert(bone_at(bs, c, j));
        assert(bs[j].id == c);
        assert(early_kid(bs, k, c, bs.len() as int));
    }
}

} // verus!
