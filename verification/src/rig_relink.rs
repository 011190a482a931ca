//! Hanging joint nodes under their logical parents after loading, and checking
//! that a scene has no cycles in the first place.

use vstd::prelude::*;
use crate::bones::{ancestor, bone_at, forest, has_bone, BoneId, BoneView};
use crate::geom::Transform;
use crate::lists::lemma_distinct_bounded;
use crate::rig::{AppMode, RigDocument, RigView, Tool};
use crate::rig_load::{nodes_acyclic, nodes_ranked, skeleton_of};
use crate::rig_paths::lemma_ancestors_bounded;
use crate::rig_pose::captured;
use crate::rig_select::picked;
use crate::scene::{
    has_node, lemma_node_pos, node_at, node_get, node_parent, node_pos, scene_ok, with_local, with_parent, NodeHandle, NodeView, Scene, SceneView,
};

verus! {

/// Going up `n` times from node `h`, through nodes that exist.
pub open spec fn node_up(nodes: Seq<NodeView>, h: NodeHandle, n: nat) -> Option<NodeHandle>
    decreases n,
{
    if n == 0 {
        Some(h)
    } else {
        match node_up(nodes, h, (n - 1) as nat) {
            Some(a) => node_parent(nodes, a),
            None => None,
        }
    }
}

/// Going up `n` times from `h` ends at a node.
pub open spec fn up_live(nodes: Seq<NodeView>, h: NodeHandle, n: nat) -> bool {
    match node_up(nodes, h, n) {
        Some(a) => has_node(nodes, a),
        None => false,
    }
}

/// How many nodes are above `h`.
pub open spec fn nodes_above(nodes: Seq<NodeView>, h: NodeHandle) -> nat {
    choose|n: nat| up_live(nodes, h, n) && !#[trigger] up_live(nodes, h, n + 1)
}

proof fn lemma_up_shift(nodes: Seq<NodeView>, h: NodeHandle, n: nat)
    ensures
        node_up(nodes, h, n + 1) == (match node_parent(nodes, h) {
            Some(p) => node_up(nodes, p, n),
            None => None,
        }),
    decreases n,
{
    if n == 0 {
        assert(node_up(nodes, h, 0) == Some(h));
        assert(node_up(nodes, h, 1) == node_parent(nodes, h));
        match node_parent(nodes, h) {
            Some(p) => {
                assert(node_up(nodes, p, 0) == Some(p));
            },
            None => {},
        }
    } else {
        lemma_up_shift(nodes, h, (n - 1) as nat);
    }
}

/// Above what does not exist nothing does.
proof fn lemma_up_down(nodes: Seq<NodeView>, h: NodeHandle, a: nat, b: nat)
    requires
        a <= b,
        up_live(nodes, h, b),
    ensures
        up_live(nodes, h, a),
    decreases b,
{
    if a < b {
        assert(up_live(nodes, h, (b - 1) as nat));
        lemma_up_down(nodes, h, a, (b - 1) as nat);
    }
}

/// Where going up `m` times leaves the scene, there is a last node above `h`.
proof fn lemma_last_above(nodes: Seq<NodeView>, h: NodeHandle, m: nat)
    requires
        has_node(nodes, h),
        !up_live(nodes, h, m),
    ensures
        up_live(nodes, h, nodes_above(nodes, h)),
        !up_live(nodes, h, nodes_above(nodes, h) + 1),
    decreases m,
{
    assert(node_up(nodes, h, 0) == Some(h));
    assert(up_live(nodes, h, 0));
    if up_live(nodes, h, (m - 1) as nat) {
        let n = (m - 1) as nat;
        assert(up_live(nodes, h, n) && !up_live(nodes, h, n + 1));
    } else {
        lemma_last_above(nodes, h, (m - 1) as nat);
    }
}

/// If going up always leaves the scene, the scene has no cycles.
proof fn lemma_ends_acyclic(s: SceneView, m: nat)
    requires
        scene_ok(s),
        forall|i: int| 0 <= i < s.nodes.len() ==> !up_live(s.nodes, (#[trigger] s.nodes[i]).handle, m),
    ensures
        nodes_acyclic(s.nodes),
{
    let nodes = s.nodes;
    let rank = |h: NodeHandle| nodes_above(nodes, h);
    assert forall|i: int| 0 <= i < nodes.len() implies {
        &&& rank((#[trigger] nodes[i]).handle) < m + 1
        &&& nodes[i].parent matches Some(p) ==> has_node(nodes, p) ==> rank(p) < rank(
            nodes[i].handle,
        )
    } by {
        let h = nodes[i].handle;
        assert(node_at(nodes, h, i));
        lemma_node_pos(s, h, i);
        lemma_last_above(nodes, h, m);
        let n = nodes_above(nodes, h);
        if n > m {
            lemma_up_down(nodes, h, m, n);
        }
        if nodes[i].parent is Some && has_node(nodes, nodes[i].parent->0) {
            let p = nodes[i].parent->0;
            let k = node_pos(nodes, p);
            assert(node_at(nodes, p, k));
            assert(nodes[k].handle == p);
            lemma_last_above(nodes, p, m);
            let q = nodes_above(nodes, p);
            lemma_up_shift(nodes, h, q);
            assert(up_live(nodes, h, q + 1));
            if q + 1 > n {
                lemma_up_down(nodes, h, n + 1, q + 1);
            }
        }
    }
    assert(nodes_ranked(nodes, rank, m + 1));
}

/// Without cycles, going up as often as there are nodes leaves the scene.
proof fn lemma_acyclic_ends(s: SceneView, h: NodeHandle)
    requires
        scene_ok(s),
        nodes_acyclic(s.nodes),
    ensures
        !up_live(s.nodes, h, s.nodes.len()),
{
    let nodes = s.nodes;
    let n = nodes.len();
    let (rank, bound) = choose|rank: spec_fn(NodeHandle) -> nat, bound: nat|
        nodes_ranked(nodes, rank, bound);
    if up_live(nodes, h, n) {
        let path = Seq::new((n + 1) as nat, |k: int| node_up(nodes, h, k as nat)->0);
        let all = Seq::new(n, |k: int| nodes[k].handle);
        assert forall|i: int, j: int| 0 <= i < j < path.len() implies path[i] != path[j] by {
            lemma_up_rank(nodes, rank, bound, h, i as nat, j as nat, n);
        }
        assert(path.no_duplicates());
        assert forall|x: NodeHandle| path.contains(x) implies all.contains(x) by {
            let k = choose|k: int| 0 <= k < path.len() && path[k] == x;
            lemma_up_down(nodes, h, k as nat, n);
            let i = node_pos(nodes, x);
            assert(node_at(nodes, x, i));
            assert(all[i] == x);
        }
        lemma_distinct_bounded(path, all);
    }
}

proof fn lemma_up_rank(
    nodes: Seq<NodeView>,
    rank: spec_fn(NodeHandle) -> nat,
    bound: nat,
    h: NodeHandle,
    i: nat,
    j: nat,
    n: nat,
)
    requires
        nodes_ranked(nodes, rank, bound),
        i < j <= n,
        up_live(nodes, h, n),
    ensures
        rank(node_up(nodes, h, j)->0) < rank(node_up(nodes, h, i)->0),
    decreases j,
{
    lemma_up_down(nodes, h, j, n);
    lemma_up_down(nodes, h, (j - 1) as nat, n);
    let a = node_up(nodes, h, (j - 1) as nat)->0;
    let k = node_pos(nodes, a);
    assert(node_at(nodes, a, k));
    assert(nodes[k].handle == a);
    if i < j - 1 {
        lemma_up_rank(nodes, rank, bound, h, i, (j - 1) as nat, n);
    }
}

/// How many bones are above `id`: one more than that and there is nobody.
pub open spec fn level_is(bs: Seq<BoneView>, id: BoneId, n: nat) -> bool {
    ancestor(bs, id, n) is Some && ancestor(bs, id, n + 1) is None
}

pub open spec fn level(bs: Seq<BoneView>, id: BoneId) -> nat {
    choose|n: nat| level_is(bs, id, n)
}

/// A bone has one level.
proof fn lemma_level_unique(bs: Seq<BoneView>, id: BoneId, n: nat)
    requires
        level_is(bs, id, n),
    ensures
        level(bs, id) == n,
{
    let m = level(bs, id);
    assert(level_is(bs, id, m));
    if m < n {
        lemma_some_below(bs, id, m + 1, n);
    }
    if n < m {
        lemma_some_below(bs, id, n + 1, m);
    }
}

proof fn lemma_some_below(bs: Seq<BoneView>, id: BoneId, a: nat, b: nat)
    requires
        a <= b,
        ancestor(bs, id, b) is Some,
    ensures
        ancestor(bs, id, a) is Some,
    decreases b,
{
    if a < b {
        lemma_some_below(bs, id, a, (b - 1) as nat);
    }
}

/// The node of `b` hangs elsewhere than under its logical parent.
pub open spec fn needs_relink(b: BoneView, nodes: Seq<NodeView>) -> bool {
    match (b.parent, node_get(nodes, b.id.node)) {
        (Some(lp), Some(n)) => n.parent != Some(lp.node),
        _ => false,
    }
}

/// `steps` are the places of the bones to relink, parents before children.
pub open spec fn relink_order(bs: Seq<BoneView>, nodes: Seq<NodeView>, steps: Seq<usize>) -> bool {
    &&& forall|k: int| 0 <= k < steps.len() ==> 0 <= #[trigger] steps[k] < bs.len()
    &&& forall|i: int|
        0 <= i < bs.len() ==> (steps.contains(i as usize) <==> needs_relink(#[trigger] bs[i], nodes))
    &&& forall|k: int, m: int|
        0 <= k < m < steps.len() ==> {
            let a = bs[#[trigger] steps[k] as int].id;
            let b = bs[#[trigger] steps[m] as int].id;
            level(bs, a) < level(bs, b) || (level(bs, a) == level(bs, b) && steps[k] < steps[m])
        }
}

/// The nodes after the first `k` steps: each bone's node hangs under the logical
/// parent, with the local transform that keeps it in place.
pub open spec fn relinked(
    bs: Seq<BoneView>,
    nodes: Seq<NodeView>,
    steps: Seq<usize>,
    locals: Seq<Transform>,
    k: nat,
) -> Seq<NodeView>
    decreases k,
{
    if k == 0 {
        nodes
    } else {
        let b = bs[steps[k - 1] as int];
        let before = relinked(bs, nodes, steps, locals, (k - 1) as nat);
        match b.parent {
            Some(lp) => with_local(
                with_parent(before, b.id.node, Some(lp.node)),
                b.id.node,
                locals[k - 1],
            ),
            None => before,
        }
    }
}

/// After all steps the node of every bone with a logical parent hangs under it.
pub proof fn law_relinked(
    bs: Seq<BoneView>,
    s: SceneView,
    steps: Seq<usize>,
    locals: Seq<Transform>,
    i: int,
)
    requires
        scene_ok(s),
        forest(bs),
        relink_order(bs, s.nodes, steps),
        0 <= i < bs.len(),
        bs[i].parent is Some,
        has_node(s.nodes, bs[i].id.node),
        bs.len() <= usize::MAX,
    ensures
        node_parent(relinked(bs, s.nodes, steps, locals, steps.len()), bs[i].id.node) == Some(
            (bs[i].parent->0).node,
        ),
{
    let h = bs[i].id.node;
    let k = node_pos(s.nodes, h);
    assert(node_at(s.nodes, h, k));
    lemma_relinked_at(bs, s.nodes, steps, locals, steps.len(), k, i);
    let out = relinked(bs, s.nodes, steps, locals, steps.len());
    assert(node_at(out, h, k));
    let m = node_pos(out, h);
    assert(node_at(out, h, m));
    lemma_relinked_at(bs, s.nodes, steps, locals, steps.len(), m, i);
    assert(s.nodes[m].handle == h);
    assert(m == k);
    lemma_node_pos(s, h, k);
    assert(steps.take(steps.len() as int) =~= steps);
    if needs_relink(bs[i], s.nodes) {
        assert(steps.contains(i as usize));
    }
}

/// What the steps do to the node at place `k`, seen from bone `i` on it.
proof fn lemma_relinked_at(
    bs: Seq<BoneView>,
    nodes: Seq<NodeView>,
    steps: Seq<usize>,
    locals: Seq<Transform>,
    n: nat,
    k: int,
    i: int,
)
    requires
        forest(bs),
        n <= steps.len(),
        forall|m: int| 0 <= m < steps.len() ==> 0 <= #[trigger] steps[m] < bs.len(),
        0 <= k < nodes.len(),
        0 <= i < bs.len() <= usize::MAX,
    ensures
        relinked(bs, nodes, steps, locals, n).len() == nodes.len(),
        relinked(bs, nodes, steps, locals, n)[k].handle == nodes[k].handle,
        bs[i].id.node == nodes[k].handle && bs[i].parent is Some ==> (relinked(
            bs,
            nodes,
            steps,
            locals,
            n,
        )[k].parent == (if steps.take(n as int).contains(i as usize) {
            Some((bs[i].parent->0).node)
        } else {
            nodes[k].parent
        })),
    decreases n,
{
    if n == 0 {
        assert(steps.take(0) =~= Seq::empty());
    } else {
        let p = (n - 1) as nat;
        lemma_relinked_at(bs, nodes, steps, locals, p, k, i);
        let t = steps.take(p as int);
        let x = steps[p as int];
        assert(steps.take(n as int) =~= t.push(x));
        if t.contains(i as usize) {
            let m = choose|m: int| 0 <= m < t.len() && t[m] == i as usize;
            assert(t.push(x)[m] == i as usize);
        }
        if t.push(x).contains(i as usize) && !t.contains(i as usize) {
            let m = choose|m: int| 0 <= m < t.push(x).len() && t.push(x)[m] == i as usize;
            assert(m == t.len());
        }
        if x == i as usize {
            assert(t.push(x)[t.len() as int] == i as usize);
        }
        if bs[x as int].id.node == nodes[k].handle && bs[i].id.node == nodes[k].handle {
            assert(bs[x as int].id == bs[i].id);
            assert(x == i) by {
                if x < i {
                    assert(bs[x as int].id != bs[i].id);
                } else if i < x {
                    assert(bs[i].id != bs[x as int].id);
                }
            }
        }
    }
}

impl Scene {
    /// Whether no node is above itself.
    pub fn is_acyclic(&self) -> (r: bool)
        requires
            self.wf(),
        ensures
            r == nodes_acyclic(self@.nodes),
    {
        let ghost s = self@;
        let n = self.nodes.len();
        let mut i: usize = 0;
        while i < n
            invariant
                i <= n,
                n == self.nodes@.len(),
                self.wf(),
                s == self@,
                forall|j: int| 0 <= j < i ==> !up_live(s.nodes, (#[trigger] s.nodes[j]).handle, n as nat),
            decreases n - i,
        {
            let h = self.nodes[i].handle;
            assert(s.nodes[i as int].handle == h);
            let mut cur: Option<NodeHandle> = Some(h);
            let mut k: usize = 0;
            assert(node_up(s.nodes, h, 0) == Some(h));
            while k < n && cur.is_some()
                invariant
                    k <= n,
                    n == self.nodes@.len(),
                    self.wf(),
                    s == self@,
                    cur is Some ==> node_up(s.nodes, h, k as nat) == cur,
                    cur is None ==> node_up(s.nodes, h, k as nat) is None,
                decreases n - k,
            {
                let up = match self.find_node(cur.unwrap()) {
                    Some(at) => {
                        assert(s.nodes[at as int].parent == self.nodes@[at as int].parent);
                        self.nodes[at].parent
                    },
                    None => None,
                };
                assert(node_up(s.nodes, h, (k + 1) as nat) == up);
                cur = up;
                k = k + 1;
            }
            let live = match cur {
                Some(c) => self.find_node(c).is_some(),
                None => false,
            };
            if live {
                assert(up_live(s.nodes, h, n as nat));
                proof {
                    if nodes_acyclic(s.nodes) {
                        lemma_acyclic_ends(s, h);
                    }
                }
                return false;
            }
            assert(!up_live(s.nodes, h, n as nat)) by {
                if up_live(s.nodes, h, n as nat) {
                    lemma_up_down(s.nodes, h, k as nat, n as nat);
                }
            }
            i = i + 1;
        }
        proof {
            lemma_ends_acyclic(s, n as nat);
        }
        true
    }
}

impl RigDocument {
    /// How many bones are above `id`.
    pub fn bone_level(&self, id: BoneId) -> (r: usize)
        requires
            self.wf(),
            has_bone(self@.bones, id),
        ensures
            level_is(self@.bones, id, r as nat),
            r == level(self@.bones, id),
            r <= self@.bones.len(),
    {
        let ghost bs = self@.bones;
        let mut d: usize = 0;
        let mut cur = id;
        assert(ancestor(bs, id, 0) == Some(id));
        loop
            invariant
                self.wf(),
                bs == self@.bones,
                ancestor(bs, id, d as nat) == Some(cur),
                d <= bs.len(),
                d < bs.len() || !has_bone(bs, cur),
                bs.len() == self.bones@.len(),
            decreases bs.len() + 1 - d,
        {
            let parent = match self.bone(cur) {
                Some(b) => b.parent,
                None => None,
            };
            assert(ancestor(bs, id, (d + 1) as nat) == parent);
            match parent {
                Some(p) => {
                    proof {
                        assert(has_bone(bs, cur));
                        if has_bone(bs, p) {
                            lemma_ancestors_bounded(bs, id, (d + 1) as nat);
                        }
                        assert(self.bones.len() == bs.len());
                    }
                    d = d + 1;
                    cur = p;
                },
                None => {
                    proof {
                        lemma_level_unique(bs, id, d as nat);
                    }
                    return d;
                },
            }
        }
    }

    /// The places of the bones whose nodes must move under their logical
    /// parents, parents before children.
    pub fn relink_steps(&self, scene: &Scene) -> (r: Vec<usize>)
        requires
            self.wf(),
            scene.wf(),
        ensures
            relink_order(self@.bones, scene@.nodes, r@),
    {
        let ghost bs = self@.bones;
        let n = self.bones.len();
        let mut levels: Vec<usize> = Vec::new();
        let mut todo: Vec<bool> = Vec::new();
        let mut i: usize = 0;
        while i < n
            invariant
                i <= n,
                n == self.bones@.len(),
                bs == self@.bones,
                self.wf(),
                scene.wf(),
                levels@.len() == i,
                todo@.len() == i,
                forall|j: int|
                    0 <= j < i ==> levels@[j] == level(bs, (#[trigger] bs[j]).id) && levels@[j] <= n
                        && todo@[j] == needs_relink(bs[j], scene@.nodes),
            decreases n - i,
        {
            let b = &self.bones[i];
            assert(b@ == bs[i as int]);
            assert(bone_at(bs, b.id, i as int));
            levels.push(self.bone_level(b.id));
            let need = match (b.parent, scene.find_node(b.id.node)) {
                (Some(lp), Some(at)) => {
                    assert(scene@.nodes[at as int].parent == scene.nodes@[at as int].parent);
                    match scene.nodes[at].parent {
                        Some(p) => p != lp.node,
                        None => true,
                    }
                },
                _ => false,
            };
            todo.push(need);
            i = i + 1;
        }
        let mut out: Vec<usize> = Vec::new();
        let mut lv: usize = 0;
        let mut more = true;
        while more
            invariant
                n == self.bones@.len(),
                n == bs.len(),
                levels@.len() == n,
                todo@.len() == n,
                lv <= n,
                more || lv == n,
                forall|j: int|
                    0 <= j < n ==> levels@[j] == level(bs, (#[trigger] bs[j]).id) && levels@[j] <= n
                        && todo@[j] == needs_relink(bs[j], scene@.nodes),
                forall|k: int|
                    0 <= k < out@.len() ==> 0 <= #[trigger] out@[k] < n && todo@[out@[k] as int] && (
                    levels@[out@[k] as int] < lv || (!more && levels@[out@[k] as int] == lv)),
                forall|j: int|
                    0 <= j < n && #[trigger] todo@[j] && (levels@[j] < lv || (!more && levels@[j] == lv))
                        ==> out@.contains(j as usize),
                steps_rise(levels@, out@),
            decreases n - lv + (if more { 1int } else { 0int }),
        {
            let mut j: usize = 0;
            while j < n
                invariant
                    j <= n,
                    n == bs.len(),
                    n <= usize::MAX,
                    levels@.len() == n,
                    todo@.len() == n,
                    lv <= n,
                    forall|k: int|
                        0 <= k < out@.len() ==> 0 <= #[trigger] out@[k] < n && todo@[out@[k] as int]
                            && (levels@[out@[k] as int] < lv || (levels@[out@[k] as int] == lv
                            && out@[k] < j)),
                    forall|i: int|
                        0 <= i < n && #[trigger] todo@[i] && (levels@[i] < lv || (levels@[i] == lv && i
                            < j)) ==> out@.contains(i as usize),
                    steps_rise(levels@, out@),
                decreases n - j,
            {
                if todo[j] && levels[j] == lv {
                    let ghost o = out@;
                    out.push(j);
                    assert forall|i: int|
                        0 <= i < n && #[trigger] todo@[i] && (levels@[i] < lv || (levels@[i] == lv && i
                            < j + 1)) implies out@.contains(i as usize) by {
                        if i == j {
                            assert(out@[o.len() as int] == j);
                        } else {
                            assert(o.contains(i as usize));
                            let k = choose|k: int| 0 <= k < o.len() && o[k] == i as usize;
                            assert(out@[k] == i as usize);
                        }
                    }
                    assert forall|k: int| 0 <= k < out@.len() implies 0 <= #[trigger] out@[k] < n
                        && todo@[out@[k] as int] && (levels@[out@[k] as int] < lv || (
                    levels@[out@[k] as int] == lv && out@[k] < j + 1)) by {
                        if k < o.len() {
                            assert(out@[k] == o[k]);
                        }
                    }
                    assert forall|k: int, m: int| 0 <= k < m < out@.len() implies step_before(
                        levels@,
                        #[trigger] out@[k],
                        #[trigger] out@[m],
                    ) by {
                        assert(out@[k] == o[k]);
                        if m < o.len() {
                            assert(out@[m] == o[m]);
                        }
                    }
                }
                j = j + 1;
            }
            if lv == n {
                more = false;
            } else {
                lv = lv + 1;
            }
        }
        proof {
            assert forall|i: int| 0 <= i < bs.len() implies (out@.contains(i as usize)
                <==> needs_relink(#[trigger] bs[i], scene@.nodes)) by {
                assert(todo@[i] == needs_relink(bs[i], scene@.nodes));
                assert(levels@[i] <= n);
                if out@.contains(i as usize) {
                    let k = choose|k: int| 0 <= k < out@.len() && out@[k] == i as usize;
                    assert(todo@[out@[k] as int]);
                }
            }
            assert forall|k: int, m: int| 0 <= k < m < out@.len() implies {
                let a = bs[#[trigger] out@[k] as int].id;
                let b = bs[#[trigger] out@[m] as int].id;
                level(bs, a) < level(bs, b) || (level(bs, a) == level(bs, b) && out@[k] < out@[m])
            } by {
                assert(step_before(levels@, out@[k], out@[m]));
                assert(levels@[out@[k] as int] == level(bs, bs[out@[k] as int].id));
                assert(levels@[out@[m] as int] == level(bs, bs[out@[m] as int].id));
            }
        }
        out
    }

    /// Hangs the nodes of the bones at `steps` under their logical parents; each
    /// gets the local transform that the host computed to keep it in place.
    pub fn relink_joint_parents(&self, scene: &mut Scene, steps: &Vec<usize>, locals: &Vec<Transform>)
        requires
            old(scene).wf(),
            steps@.len() == locals@.len(),
            forall|k: int| 0 <= k < steps@.len() ==> 0 <= #[trigger] steps@[k] < self@.bones.len(),
        ensures
            final(scene).wf(),
            final(scene)@ == (SceneView {
                nodes: relinked(
                    self@.bones,
                    old(scene)@.nodes,
                    steps@,
                    locals@,
                    steps@.len(),
                ),
                ..old(scene)@
            }),
    {
        let ghost bs = self@.bones;
        let ghost s0 = scene@;
        let mut k: usize = 0;
        while k < steps.len()
            invariant
                k <= steps@.len(),
                steps@.len() == locals@.len(),
                scene.wf(),
                bs == self@.bones,
                forall|m: int| 0 <= m < steps@.len() ==> 0 <= #[trigger] steps@[m] < bs.len(),
                scene@ == (SceneView {
                    nodes: relinked(bs, s0.nodes, steps@, locals@, k as nat),
                    ..s0
                }),
            decreases steps.len() - k,
        {
            assert(0 <= steps@[k as int] < bs.len());
            let b = &self.bones[steps[k]];
            assert(b@ == bs[steps@[k as int] as int]);
            if let Some(lp) = b.parent {
                scene.set_parent(b.id.node, Some(lp.node));
                scene.set_local(b.id.node, locals[k]);
            }
            k = k + 1;
        }
    }

    /// A model was loaded into the scene from `path`, its root node `root`.
    pub fn model_loaded(&mut self, scene: &Scene, path: String, root: NodeHandle)
        requires
            old(self).wf(),
            scene.wf(),
            nodes_acyclic(scene@.nodes),
        ensures
            final(self).wf(),
            skeleton_of(scene@, final(self)@.bones),
            final(self)@ == (RigView {
                source_path: Some(path@),
                model_root: Some(root),
                bones: final(self)@.bones,
                selected: old(self)@.selected.intersect(
                    Set::new(|id: BoneId| has_bone(final(self)@.bones, id)),
                ),
                selection: final(self)@.selection,
                ..old(self)@
            }),
            match old(self)@.selection {
                Some(a) => if has_bone(final(self)@.bones, a) {
                    final(self)@.selection == Some(a)
                } else {
                    picked(final(self)@.selection, final(self)@.selected)
                },
                None => final(self)@.selection is None,
            },
    {
        self.source_path = Some(path);
        self.model_root = Some(root);
        self.rebuild_bones(scene);
    }

    /// The model is in place: its pose is the bind pose, and posing begins.
    pub fn finish_load(&mut self, scene: &Scene)
        requires
            old(self).wf(),
            scene.wf(),
        ensures
            final(self).wf(),
            final(self)@ == (RigView {
                bind_locals: captured(old(self)@.bones, scene@.nodes),
                mode: AppMode::Pose,
                tool: Tool::Rotate,
                ..old(self)@
            }),
    {
        self.capture_bind_pose(scene);
        self.mode = AppMode::Pose;
        self.tool = Tool::Rotate;
    }
}

/// Place `a` comes before place `b`: lower level, or same level and lower place.
pub open spec fn step_before(levels: Seq<usize>, a: usize, b: usize) -> bool {
    levels[a as int] < levels[b as int] || (levels[a as int] == levels[b as int] && a < b)
}

pub open spec fn steps_rise(levels: Seq<usize>, steps: Seq<usize>) -> bool {
    forall|k: int, m: int|
        0 <= k < m < steps.len() ==> step_before(levels, #[trigger] steps[k], #[trigger] steps[m])
}

} // verus!
