//! Pulling a chain of bones by its end, and solving the configured IK chains:
//! which bones take part, what is restored first, and in what order joints
//! turn. The turning itself is the host's.

use vstd::prelude::*;
use crate::bones::{parent_of, BoneId, BoneView};
use crate::geom::{Quat, Transform, Vec3};
use crate::pull_laws::law_restored;
use crate::rig::{AppMode, IkView, RigDocument, RigView};
use crate::scene::{has_node, node_get, with_local, NodeView, Scene, SceneView};

verus! {

/// Effector and ancestors that an IK pull moves.
pub const IK_DEPTH: usize = 5;

/// Effector and ancestors that a soft pull moves.
pub const SOFT_DEPTH: usize = 32;

/// How often an IK pull turns every joint.
pub const IK_SWEEPS: usize = 16;

/// How often a soft pull turns every joint.
pub const SOFT_SWEEPS: usize = 20;

/// `id` and the bones above it, at most `n` in all, the highest first.
pub open spec fn chain_up(bs: Seq<BoneView>, id: BoneId, n: nat) -> Seq<BoneId>
    decreases n,
{
    if n == 0 {
        Seq::empty()
    } else {
        match parent_of(bs, id) {
            Some(p) => chain_up(bs, p, (n - 1) as nat).push(id),
            None => seq![id],
        }
    }
}

/// A chain is no longer than asked for, it ends in the bone that is pulled
/// unless no bone was asked for, every other bone in it is the parent of the
/// next, and if it is shorter then nothing is above it.
pub proof fn law_chain_up(bs: Seq<BoneView>, id: BoneId, n: nat)
    ensures
        chain_up(bs, id, n).len() <= n,
        n >= 1 ==> chain_up(bs, id, n).len() >= 1 && chain_up(bs, id, n).last() == id,
        forall|i: int|
            0 <= i < chain_up(bs, id, n).len() - 1 ==> parent_of(
                bs,
                #[trigger] chain_up(bs, id, n)[i + 1],
            ) == Some(chain_up(bs, id, n)[i]),
        chain_up(bs, id, n).len() < n ==> parent_of(bs, chain_up(bs, id, n)[0]) is None,
    decreases n,
{
    if n > 0 && parent_of(bs, id) is Some {
        let p = parent_of(bs, id)->0;
        let t = chain_up(bs, p, (n - 1) as nat);
        let s = chain_up(bs, id, n);
        law_chain_up(bs, p, (n - 1) as nat);
        assert forall|i: int| 0 <= i < s.len() - 1 implies parent_of(bs, #[trigger] s[i + 1])
            == Some(s[i]) by {
            if i + 1 < t.len() {
                assert(t[i + 1] == s[i + 1]);
            } else {
                assert(t.last() == s[i]);
            }
        }
        if s.len() < n {
            assert(s[0] == t[0]);
        }
    }
}

/// What a pull starts from.
pub struct PullStart {
    /// Root-of-chain → … → effector.
    pub chain: Vec<BoneId>,
    /// Rotation of each bone when it was grabbed.
    pub start_locals: Vec<Quat>,
    /// Local translation of chain root at grab (restored each frame).
    pub start_root_translation: Vec3,
}

/// All of `ids` have nodes.
pub open spec fn all_nodes(nodes: Seq<NodeView>, ids: Seq<BoneId>) -> bool {
    forall|i: int| 0 <= i < ids.len() ==> has_node(nodes, (#[trigger] ids[i]).node)
}

/// The rotations of `ids`.
pub open spec fn rotations(nodes: Seq<NodeView>, ids: Seq<BoneId>) -> Seq<Quat> {
    ids.map_values(|id: BoneId| (node_get(nodes, id.node)->0).local.rotation)
}

/// A pull on `bone` over at most `n` bones can start: there is more than one
/// bone, and all have nodes.
pub open spec fn can_pull(bs: Seq<BoneView>, nodes: Seq<NodeView>, bone: BoneId, n: nat) -> bool {
    chain_up(bs, bone, n).len() >= 2 && all_nodes(nodes, chain_up(bs, bone, n))
}

/// The nodes with the rotations of the first `k` bones of a chain restored.
pub open spec fn unturned(nodes: Seq<NodeView>, chain: Seq<BoneId>, turns: Seq<Quat>, k: int) -> Seq<
    NodeView,
>
    decreases k,
{
    if k <= 0 {
        nodes
    } else {
        rotated(unturned(nodes, chain, turns, k - 1), chain[k - 1], turns[k - 1])
    }
}

/// The nodes with bone `id` turned to `q`.
pub open spec fn rotated(nodes: Seq<NodeView>, id: BoneId, q: Quat) -> Seq<NodeView> {
    match node_get(nodes, id.node) {
        Some(n) => with_local(nodes, id.node, Transform { rotation: q, ..n.local }),
        None => nodes,
    }
}

/// The nodes with bone `id` moved to `t`.
pub open spec fn shifted(nodes: Seq<NodeView>, id: BoneId, t: Vec3) -> Seq<NodeView> {
    match node_get(nodes, id.node) {
        Some(n) => with_local(nodes, id.node, Transform { translation: t, ..n.local }),
        None => nodes,
    }
}

/// One sweep over a chain of `n` bones: every joint from the one before the
/// effector up to the root.
pub open spec fn sweep(n: nat) -> Seq<int> {
    Seq::new((n - 1) as nat, |k: int| n - 2 - k)
}

/// `times` sweeps.
pub open spec fn sweeps(n: nat, times: nat) -> Seq<int>
    decreases times,
{
    if times == 0 {
        Seq::empty()
    } else {
        sweeps(n, (times - 1) as nat) + sweep(n)
    }
}

/// The joints that a pull on a chain of `n` bones turns, in order.
pub fn pull_joints(n: usize, times: usize) -> (r: Vec<usize>)
    requires
        n >= 1,
    ensures
        r@.map_values(|i: usize| i as int) == sweeps(n as nat, times as nat),
        forall|k: int| 0 <= k < r@.len() ==> (#[trigger] r@[k]) < n - 1,
{
    let ghost f = |i: usize| i as int;
    let mut out: Vec<usize> = Vec::new();
    let mut t: usize = 0;
    assert(out@.map_values(f) =~= Seq::empty());
    while t < times
        invariant
            t <= times,
            n >= 1,
            f == (|i: usize| i as int),
            out@.map_values(f) == sweeps(n as nat, t as nat),
            forall|k: int| 0 <= k < out@.len() ==> (#[trigger] out@[k]) < n - 1,
        decreases times - t,
    {
        let ghost base = out@.map_values(f);
        let mut i: usize = n - 1;
        assert(base + sweep(n as nat).take(0) =~= base);
        while i > 0
            invariant
                i <= n - 1,
                n >= 1,
                f == (|i: usize| i as int),
                out@.map_values(f) == base + sweep(n as nat).take(n - 1 - i),
                forall|k: int| 0 <= k < out@.len() ==> (#[trigger] out@[k]) < n - 1,
            decreases i,
        {
            let ghost o = out@;
            i = i - 1;
            out.push(i);
            assert(o.push(i).map_values(f) =~= o.map_values(f).push(i as int));
            assert(sweep(n as nat).take(n - 1 - i) =~= sweep(n as nat).take(n - 2 - i).push(
                i as int,
            ));
            assert(out@.map_values(f) =~= base + sweep(n as nat).take(n - 1 - i));
        }
        assert(sweep(n as nat).take(n - 1) =~= sweep(n as nat));
        t = t + 1;
    }
    out
}

impl RigDocument {
    /// Ancestors of `effector` including itself, root first. Caps at `max_len`.
    pub fn build_chain(&self, effector: BoneId, max_len: usize) -> (r: Vec<BoneId>)
        requires
            self.wf(),
        ensures
            r@ == chain_up(self@.bones, effector, max_len as nat),
    {
        let ghost bs = self@.bones;
        let ghost want = chain_up(bs, effector, max_len as nat);
        let mut up: Vec<BoneId> = Vec::new();
        let mut cur = Some(effector);
        let mut n = max_len;
        assert(up@.reverse() =~= Seq::empty());
        assert(chain_up(bs, effector, n as nat) + up@.reverse() =~= want);
        while n > 0 && cur.is_some()
            invariant
                self.wf(),
                bs == self@.bones,
                match cur {
                    Some(id) => chain_up(bs, id, n as nat) + up@.reverse() == want,
                    None => up@.reverse() == want,
                },
            decreases n,
        {
            let id = cur.unwrap();
            let ghost o = up@;
            up.push(id);
            assert(up@.reverse() =~= seq![id] + o.reverse());
            cur = match self.bone(id) {
                Some(b) => b.parent,
                None => None,
            };
            assert(cur == parent_of(bs, id));
            n = n - 1;
            proof {
                match cur {
                    Some(p) => {
                        assert(chain_up(bs, p, n as nat) + up@.reverse() =~= chain_up(
                            bs,
                            id,
                            (n + 1) as nat,
                        ) + o.reverse());
                    },
                    None => {
                        assert(up@.reverse() =~= chain_up(bs, id, (n + 1) as nat) + o.reverse());
                    },
                }
            }
        }
        assert(up@.reverse() =~= want);
        flipped(&up)
    }

    /// What a pull on `bone` over at most `depth` bones starts from; nothing
    /// where there is no chain to pull.
    pub fn begin_pull(&self, scene: &Scene, bone: BoneId, depth: usize) -> (r: Option<PullStart>)
        requires
            self.wf(),
            scene.wf(),
        ensures
            match r {
                Some(p) => {
                    let chain = chain_up(self@.bones, bone, depth as nat);
                    &&& can_pull(self@.bones, scene@.nodes, bone, depth as nat)
                    &&& p.chain@ == chain
                    &&& p.start_locals@ == rotations(scene@.nodes, chain)
                    &&& p.start_root_translation == (node_get(
                        scene@.nodes,
                        chain[0].node,
                    )->0).local.translation
                },
                None => !can_pull(self@.bones, scene@.nodes, bone, depth as nat),
            },
    {
        let ghost nodes = scene@.nodes;
        let chain = self.build_chain(bone, depth);
        if chain.len() < 2 {
            return None;
        }
        let mut turns: Vec<Quat> = Vec::new();
        let mut i: usize = 0;
        while i < chain.len()
            invariant
                i <= chain@.len(),
                scene.wf(),
                nodes == scene@.nodes,
                chain@ == chain_up(self@.bones, bone, depth as nat),
                turns@.len() == i,
                forall|j: int| 0 <= j < i ==> has_node(nodes, (#[trigger] chain@[j]).node),
                forall|j: int| 0 <= j < i ==> turns@[j] == rotations(nodes, chain@)[j],
            decreases chain.len() - i,
        {
            match scene.find_node(chain[i].node) {
                Some(k) => {
                    assert(nodes[k as int].local == scene.nodes@[k as int].local);
                    turns.push(scene.nodes[k].local.rotation);
                },
                None => {
                    assert(!has_node(nodes, chain@[i as int].node));
                    return None;
                },
            }
            i = i + 1;
        }
        assert(turns@ =~= rotations(nodes, chain@));
        assert(has_node(nodes, chain@[0].node));
        match scene.find_node(chain[0].node) {
            Some(k) => {
                assert(nodes[k as int].local == scene.nodes@[k as int].local);
                let start_root_translation = scene.nodes[k].local.translation;
                Some(PullStart { chain, start_locals: turns, start_root_translation })
            },
            None => None,
        }
    }
}

/// The list from back to front.
fn flipped(v: &Vec<BoneId>) -> (r: Vec<BoneId>)
    ensures
        r@ == v@.reverse(),
{
    let mut out: Vec<BoneId> = Vec::new();
    let mut i = v.len();
    while i > 0
        invariant
            i <= v@.len(),
            out@ == v@.reverse().take(v@.len() - i),
        decreases i,
    {
        i = i - 1;
        out.push(v[i]);
        assert(v@.reverse().take(v@.len() - i) =~= v@.reverse().take(v@.len() - i - 1).push(
            v@[i as int],
        ));
    }
    assert(v@.reverse().take(v@.len() as int) =~= v@.reverse());
    out
}

impl Scene {
    /// Turns bone `id` to `q`, where it has a node.
    fn turn(&mut self, id: BoneId, q: Quat)
        requires
            old(self).wf(),
        ensures
            final(self).wf(),
            final(self)@ == (SceneView { nodes: rotated(old(self)@.nodes, id, q), ..old(self)@ }),
    {
        if let Some(i) = self.find_node(id.node) {
            assert(self@.nodes[i as int].local == self.nodes@[i as int].local);
            let mut local = self.nodes[i].local;
            local.rotation = q;
            self.set_local(id.node, local);
        }
    }

    /// Puts the bones of a pull back to where it started.
    pub fn restore_chain_pose(&mut self, start: &PullStart)
        requires
            old(self).wf(),
            start.chain@.len() >= 1,
            start.chain@.len() == start.start_locals@.len(),
        ensures
            final(self).wf(),
            final(self)@ == (SceneView {
                nodes: shifted(
                    unturned(
                        old(self)@.nodes,
                        start.chain@,
                        start.start_locals@,
                        start.chain@.len() as int,
                    ),
                    start.chain@[0],
                    start.start_root_translation,
                ),
                ..old(self)@
            }),
            start.chain@.no_duplicates() ==> forall|i: int, k: int|
                0 <= i < old(self)@.nodes.len() && 0 <= k < start.chain@.len() && start.chain@[k].node
                    == old(self)@.nodes[i].handle ==> (#[trigger] final(self)@.nodes[i]).local.rotation
                    == #[trigger] start.start_locals@[k],
            start.chain@.no_duplicates() ==> forall|i: int|
                0 <= i < old(self)@.nodes.len() ==> (#[trigger] final(self)@.nodes[i]).local.translation == (if old(
                    self,
                )@.nodes[i].handle == start.chain@[0].node {
                    start.start_root_translation
                } else {
                    old(self)@.nodes[i].local.translation
                }),
            start.chain@.no_duplicates() ==> forall|i: int|
                0 <= i < old(self)@.nodes.len() && !start.chain@.contains(BoneId { node: old(self)@.nodes[i].handle })
                    ==> #[trigger] final(self)@.nodes[i] == old(self)@.nodes[i],
    {
        let ghost n0 = self@.nodes;
        let mut k: usize = 0;
        while k < start.chain.len()
            invariant
                k <= start.chain@.len(),
                start.chain@.len() == start.start_locals@.len(),
                self.wf(),
                self@ == (SceneView {
                    nodes: unturned(n0, start.chain@, start.start_locals@, k as int),
                    ..old(self)@
                }),
            decreases start.chain.len() - k,
        {
            self.turn(start.chain[k], start.start_locals[k]);
            k = k + 1;
        }
        let root = start.chain[0];
        if let Some(i) = self.find_node(root.node) {
            assert(self@.nodes[i as int].local == self.nodes@[i as int].local);
            let mut local = self.nodes[i].local;
            local.translation = start.start_root_translation;
            self.set_local(root.node, local);
        }
        proof {
            let chain = start.chain@;
            let turns = start.start_locals@;
            let at = start.start_root_translation;
            if chain.no_duplicates() {
                assert forall|i: int, k: int|
                    0 <= i < n0.len() && 0 <= k < chain.len() && chain[k].node == n0[i].handle implies (
                #[trigger] self@.nodes[i]).local.rotation == #[trigger] turns[k] by {
                    law_restored(n0, chain, turns, at, i, k);
                }
                assert forall|i: int| 0 <= i < n0.len() implies (#[trigger] self@.nodes[i]).local.translation == (
                if n0[i].handle == chain[0].node {
                    at
                } else {
                    n0[i].local.translation
                }) by {
                    law_restored(n0, chain, turns, at, i, 0);
                }
                assert forall|i: int|
                    0 <= i < n0.len() && !chain.contains(BoneId { node: n0[i].handle }) implies #[trigger] self@.nodes[i]
                    == n0[i] by {
                    law_restored(n0, chain, turns, at, i, 0);
                    assert forall|j: int| 0 <= j < chain.len() implies (#[trigger] chain[j]).node != n0[i].handle by {
                        assert(chain.contains(chain[j]));
                    }
                }
            }
        }
    }
}

/// The bind rotations of `ids`, where all are known.
pub open spec fn bind_turns(binds: Map<u64, Transform>, ids: Seq<BoneId>) -> Option<Seq<Quat>> {
    if forall|i: int| 0 <= i < ids.len() ==> binds.contains_key((#[trigger] ids[i]).node.key_of()) {
        Some(ids.map_values(|id: BoneId| binds[id.node.key_of()].rotation))
    } else {
        None
    }
}

/// One chain for the host to solve.
pub struct IkJob {
    /// Place of the chain.
    pub chain: usize,
    /// Bind rotations of its bones and its tip; without them it starts from
    /// the pose as it is.
    pub bind_rotations: Option<Vec<Quat>>,
}

/// The places of the chains to solve among the first `n`.
pub open spec fn ik_live(cs: Seq<IkView>, n: int) -> Seq<int>
    decreases n,
{
    if n <= 0 {
        Seq::empty()
    } else if cs[n - 1].enabled {
        ik_live(cs, n - 1).push(n - 1)
    } else {
        ik_live(cs, n - 1)
    }
}

pub open spec fn job_chains(jobs: Seq<IkJob>) -> Seq<int> {
    jobs.map_values(|j: IkJob| j.chain as int)
}

/// Job `j` is right for its chain.
pub open spec fn job_ok(r: RigView, j: IkJob) -> bool {
    let c = r.ik_chains[j.chain as int];
    match (j.bind_rotations, bind_turns(r.bind_locals, c.bones.push(c.tip))) {
        (Some(a), Some(b)) => a@ == b,
        (None, None) => true,
        _ => false,
    }
}

impl RigDocument {
    /// The bind rotations of the bones and the tip of the chain at place `i`.
    fn chain_binds(&self, i: usize) -> (r: Option<Vec<Quat>>)
        requires
            i < self.ik_chains@.len(),
        ensures
            job_ok(self@, (IkJob { chain: i, bind_rotations: r })),
    {
        broadcast use vstd::std_specs::hash::group_hash_axioms;

        let c = &self.ik_chains[i];
        let ghost ids = c.bones@.push(c.tip);
        assert(self@.ik_chains[i as int] == c@);
        let n = c.bones.len();
        let mut out: Vec<Quat> = Vec::new();
        let mut k: usize = 0;
        while k < n
            invariant
                k <= n,
                n == c.bones@.len(),
                ids == c.bones@.push(c.tip),
                i < self.ik_chains@.len(),
                self@.ik_chains[i as int] == c@,
                out@.len() == k,
                forall|j: int|
                    0 <= j < k ==> self@.bind_locals.contains_key((#[trigger] ids[j]).node.key_of()),
                forall|j: int|
                    0 <= j < k ==> out@[j] == self@.bind_locals[ids[j].node.key_of()].rotation,
            decreases n - k,
        {
            assert(ids[k as int] == c.bones@[k as int]);
            match self.bind_locals.get(&c.bones[k].node.key()) {
                Some(b) => {
                    out.push(b.rotation);
                },
                None => {
                    assert(!self@.bind_locals.contains_key(ids[k as int].node.key_of()));
                    return None;
                },
            }
            k = k + 1;
        }
        assert(ids[n as int] == c.tip);
        match self.bind_locals.get(&c.tip.node.key()) {
            Some(b) => {
                out.push(b.rotation);
            },
            None => {
                assert(!self@.bind_locals.contains_key(ids[n as int].node.key_of()));
                return None;
            },
        }
        assert(out@ =~= ids.map_values(
            |id: BoneId| self@.bind_locals[id.node.key_of()].rotation,
        ));
        Some(out)
    }

    /// Run all enabled chains (Pose): what to solve, in order.
    pub fn evaluate_ik_chains(&self) -> (r: Vec<IkJob>)
        requires
            self.wf(),
        ensures
            job_chains(r@) == (if self@.mode == AppMode::Pose {
                ik_live(self@.ik_chains, self@.ik_chains.len() as int)
            } else {
                Seq::empty()
            }),
            forall|i: int| 0 <= i < r@.len() ==> job_ok(self@, #[trigger] r@[i]),
    {
        let ghost cs = self@.ik_chains;
        let mut out: Vec<IkJob> = Vec::new();
        assert(job_chains(out@) =~= Seq::empty());
        if self.mode != AppMode::Pose {
            return out;
        }
        let mut i: usize = 0;
        while i < self.ik_chains.len()
            invariant
                i <= self.ik_chains@.len(),
                cs == self@.ik_chains,
                job_chains(out@) == ik_live(cs, i as int),
                forall|k: int| 0 <= k < out@.len() ==> job_ok(self@, #[trigger] out@[k]),
            decreases self.ik_chains.len() - i,
        {
            assert(cs[i as int] == self.ik_chains@[i as int]@);
            if self.ik_chains[i].enabled {
                let ghost o = out@;
                let job = IkJob { chain: i, bind_rotations: self.chain_binds(i) };
                out.push(job);
                assert(job_chains(out@) =~= job_chains(o).push(i as int));
                assert forall|k: int| 0 <= k < out@.len() implies job_ok(self@, #[trigger] out@[k]) by {
                    if k < o.len() {
                        assert(out@[k] == o[k]);
                    }
                }
            }
            i = i + 1;
        }
        out
    }

    /// The lines drawn for IK: from tip to target and from the middle bone to
    /// the pole of every enabled chain.
    pub fn ik_helpers(&self) -> (r: Vec<IkHelper>)
        requires
            self.wf(),
        ensures
            r@ == (if self@.show_skeleton {
                self@.ik_chains.filter(|c: IkView| c.enabled).map_values(
                    |c: IkView| helper_of(c),
                )
            } else {
                Seq::empty()
            }),
    {
        let ghost cs = self@.ik_chains;
        let ghost p = |c: IkView| c.enabled;
        let ghost q = |c: IkView| helper_of(c);
        let mut out: Vec<IkHelper> = Vec::new();
        if !self.show_skeleton {
            return out;
        }
        proof {
            crate::lists::lemma_filter_ends(cs, p);
        }
        assert(Seq::<IkView>::empty().map_values(q) =~= out@);
        let mut i: usize = 0;
        while i < self.ik_chains.len()
            invariant
                i <= self.ik_chains@.len(),
                self.wf(),
                cs == self@.ik_chains,
                p == (|c: IkView| c.enabled),
                q == (|c: IkView| helper_of(c)),
                out@ == cs.take(i as int).filter(p).map_values(q),
            decreases self.ik_chains.len() - i,
        {
            let c = &self.ik_chains[i];
            let ghost f = cs.take(i as int).filter(p);
            assert(cs[i as int] == c@);
            assert(cs[i as int].bones.len() >= 1);
            proof {
                crate::lists::lemma_filter_step(cs, p, i as int);
            }
            if c.enabled {
                let mid = c.bones[c.bones.len() / 2];
                out.push(IkHelper { tip: c.tip, target: c.target, mid, pole: c.pole });
                assert(f.push(c@).map_values(q) =~= f.map_values(q).push(q(c@)));
            }
            i = i + 1;
        }
        out
    }
}

/// Between which bones the lines of an IK chain are drawn.
#[derive(Clone, Copy, Debug, PartialEq, Eq, Structural)]
pub struct IkHelper {
    pub tip: BoneId,
    pub target: BoneId,
    pub mid: BoneId,
    pub pole: BoneId,
}

pub open spec fn helper_of(c: IkView) -> IkHelper {
    IkHelper {
        tip: c.tip,
        target: c.target,
        mid: c.bones[(c.bones.len() / 2) as int],
        pole: c.pole,
    }
}

} // verus!
