//! Secondary motion as the library sees it: which chains take part in a step
//! and in what order, what is restored before, what rides on what, and which
//! particles can be grabbed. The particle dynamics are the host's.

use vstd::prelude::*;
use crate::bones::BoneId;
use crate::driver::lists_bone;
use crate::geom::{scalar, scalar_of, Scalar, Transform, Vec3, BITS_ONE};
use crate::rig::{soft_ok, soft_view, AppMode, BoneCollider, RigDocument, RigView, SoftChain, SoftView};
use crate::scene::{scene_ok, NodeView, Scene, SceneView};
use crate::soft_laws::law_pulled;

verus! {

/// Steps that one frame of soft motion is cut into.
pub const SUBSTEPS: usize = 4;

/// `c` after it was let go: at rest where it is, its spring slackened.
pub open spec fn let_go(c: SoftView) -> SoftView {
    SoftView { prev_pos: c.curr_pos, grab_relax: scalar_of(BITS_ONE), ..c }
}

/// The chains after chain `id` was let go.
pub open spec fn grab_released(cs: Seq<SoftView>, id: u32) -> Seq<SoftView> {
    cs.map_values(
        |c: SoftView|
            if c.id == id {
                let_go(c)
            } else {
                c
            },
    )
}

/// An enabled chain holds `bone`.
pub open spec fn soft_held(cs: Seq<SoftView>, bone: BoneId) -> bool {
    exists|i: int| 0 <= i < cs.len() && (#[trigger] cs[i]).enabled && cs[i].bones.contains(bone)
}

/// `n` turned back to its bind rotation where an enabled chain moves it.
pub open spec fn turned_back(r: RigView, n: NodeView) -> NodeView {
    if soft_held(r.soft_chains, BoneId { node: n.handle }) && r.bind_locals.contains_key(
        n.handle.key_of(),
    ) {
        NodeView {
            local: Transform {
                rotation: r.bind_locals[n.handle.key_of()].rotation,
                ..n.local
            },
            ..n
        }
    } else {
        n
    }
}

/// One piece of the host's work in a frame of soft motion; chains go by place.
#[derive(Clone, Copy, Debug, PartialEq, Eq, Structural)]
pub enum SoftOp {
    /// Take the animated pose of the chain as rest.
    Prepare(usize),
    Integrate(usize),
    /// Satisfy the constraints, pulling towards the cursor if `pulled`.
    Constrain { chain: usize, pulled: bool },
    /// Push capsules apart.
    Collide,
    /// Take all velocity out of the chain that is held.
    Hold(usize),
    /// Turn the bones after the particles.
    Write(usize),
}

/// The places of the enabled chains among the first `n`.
pub open spec fn live_chains(cs: Seq<SoftView>, n: int) -> Seq<int>
    decreases n,
{
    if n <= 0 {
        Seq::empty()
    } else if cs[n - 1].enabled {
        live_chains(cs, n - 1).push(n - 1)
    } else {
        live_chains(cs, n - 1)
    }
}

/// The chain with id `id` stands at place `i`.
pub open spec fn chain_at(cs: Seq<SoftView>, id: u32, i: int) -> bool {
    0 <= i < cs.len() && cs[i].id == id
}

/// Where a held chain is kept still.
pub open spec fn held_ops(cs: Seq<SoftView>, grab: Option<u32>) -> Seq<SoftOp> {
    match grab {
        Some(id) => if exists|i: int| chain_at(cs, id, i) {
            seq![SoftOp::Hold((choose|i: int| chain_at(cs, id, i)) as usize)]
        } else {
            Seq::empty()
        },
        None => Seq::empty(),
    }
}

/// One substep: all chains move, then all are constrained, then capsules are
/// pushed apart, then a held chain is kept still.
pub open spec fn soft_substep(cs: Seq<SoftView>, grab: Option<u32>) -> Seq<SoftOp> {
    let live = live_chains(cs, cs.len() as int);
    live.map_values(|i: int| SoftOp::Integrate(i as usize)) + live.map_values(
        |i: int| SoftOp::Constrain { chain: i as usize, pulled: grab == Some(cs[i].id) },
    ) + seq![SoftOp::Collide] + held_ops(cs, grab)
}

/// A whole frame: prepare, the substeps, write back.
pub open spec fn soft_frame(cs: Seq<SoftView>, grab: Option<u32>) -> Seq<SoftOp> {
    let live = live_chains(cs, cs.len() as int);
    let step = soft_substep(cs, grab);
    live.map_values(|i: int| SoftOp::Prepare(i as usize)) + step + step + step + step
        + live.map_values(|i: int| SoftOp::Write(i as usize))
}

/// The work of a frame keeps to the enabled chains: nothing is prepared, moved
/// or written back that is off, and every enabled chain is.
pub proof fn law_soft_frame(cs: Seq<SoftView>, grab: Option<u32>, i: int)
    requires
        0 <= i < cs.len() <= usize::MAX,
    ensures
        soft_frame(cs, grab).contains(SoftOp::Write(i as usize)) <==> cs[i].enabled,
        soft_frame(cs, grab).contains(SoftOp::Integrate(i as usize)) <==> cs[i].enabled,
        soft_frame(cs, grab).contains(SoftOp::Prepare(i as usize)) <==> cs[i].enabled,
{
    let live = live_chains(cs, cs.len() as int);
    let step = soft_substep(cs, grab);
    let a = live.map_values(|i: int| SoftOp::Prepare(i as usize));
    let b = live.map_values(|i: int| SoftOp::Integrate(i as usize));
    let c = live.map_values(
        |i: int| SoftOp::Constrain { chain: i as usize, pulled: grab == Some(cs[i].id) },
    );
    let z = live.map_values(|i: int| SoftOp::Write(i as usize));
    let f = soft_frame(cs, grab);
    lemma_live(cs, cs.len() as int);
    assert(live.contains(i) <==> cs[i].enabled);
    if live.contains(i) {
        let k = choose|k: int| 0 <= k < live.len() && live[k] == i;
        assert(a[k] == SoftOp::Prepare(i as usize));
        assert(b[k] == SoftOp::Integrate(i as usize));
        assert(z[k] == SoftOp::Write(i as usize));
        assert(f[k] == a[k]);
        assert(f[a.len() + k] == b[k]);
        assert(f[a.len() + 4 * step.len() + k] == z[k]);
    }
    assert forall|x: SoftOp| #[trigger] f.contains(x) implies a.contains(x) || b.contains(x) || c.contains(x)
        || z.contains(x) || x == SoftOp::Collide || held_ops(cs, grab).contains(x) by {
        let k = choose|k: int| 0 <= k < f.len() && f[k] == x;
        let m = step.len() as int;
        let l = live.len() as int;
        if k < l {
            assert(a[k] == x);
        } else if k >= l + 4 * m {
            assert(z[k - l - 4 * m] == x);
        } else {
            let j = if k < l + m {
                k - l
            } else if k < l + 2 * m {
                k - l - m
            } else if k < l + 3 * m {
                k - l - 2 * m
            } else {
                k - l - 3 * m
            };
            assert(step[j] == x);
            if j < l {
                assert(b[j] == x);
            } else if j < 2 * l {
                assert(c[j - l] == x);
            } else if j > 2 * l {
                assert(held_ops(cs, grab)[j - 2 * l - 1] == x);
            }
        }
    }
    assert forall|k: int| 0 <= k < live.len() implies 0 <= #[trigger] live[k] < cs.len() by {
        assert(live.contains(live[k]));
    }
    if f.contains(SoftOp::Write(i as usize)) {
        let k = choose|k: int| 0 <= k < z.len() && z[k] == SoftOp::Write(i as usize);
        assert(live[k] == i);
    }
    if f.contains(SoftOp::Integrate(i as usize)) {
        let k = choose|k: int| 0 <= k < b.len() && b[k] == SoftOp::Integrate(i as usize);
        assert(live[k] == i);
    }
    if f.contains(SoftOp::Prepare(i as usize)) {
        let k = choose|k: int| 0 <= k < a.len() && a[k] == SoftOp::Prepare(i as usize);
        assert(live[k] == i);
    }
}

/// The live places are the places of enabled chains.
pub proof fn lemma_live(cs: Seq<SoftView>, n: int)
    requires
        0 <= n <= cs.len(),
    ensures
        forall|i: int| #[trigger] live_chains(cs, n).contains(i) <==> 0 <= i < n && cs[i].enabled,
        live_chains(cs, n).len() <= n,
    decreases n,
{
    if n > 0 {
        lemma_live(cs, n - 1);
        let s = live_chains(cs, n - 1);
        assert forall|i: int| #[trigger] live_chains(cs, n).contains(i) <==> 0 <= i < n && cs[i].enabled by {
            if cs[n - 1].enabled {
                let t = s.push(n - 1);
                assert(t[s.len() as int] == n - 1);
                if s.contains(i) {
                    let k = choose|k: int| 0 <= k < s.len() && s[k] == i;
                    assert(t[k] == i);
                }
                if t.contains(i) && i != n - 1 {
                    let k = choose|k: int| 0 <= k < t.len() && t[k] == i;
                    assert(s[k] == i);
                }
            }
        }
    }
}

/// The first place of `bone` in the chain is `b`, and a particle stands there.
pub open spec fn rides(c: SoftView, bone: BoneId, b: int) -> bool {
    &&& c.enabled
    &&& 0 <= b < c.bones.len()
    &&& c.bones[b] == bone
    &&& forall|k: int| 0 <= k < b ==> c.bones[k] != bone
    &&& b < c.curr_pos.len()
}

/// The capsule on `bone` rides on bone `at.1` of chain `at.0`, the first chain
/// it can ride on, or on none.
pub open spec fn capsule_rides(cs: Seq<SoftView>, bone: BoneId, at: Option<(usize, usize)>) -> bool {
    match at {
        Some((c, b)) => {
            &&& c < cs.len()
            &&& rides(cs[c as int], bone, b as int)
            &&& forall|j: int, k: int| 0 <= j < c ==> !#[trigger] rides(cs[j], bone, k)
        },
        None => forall|j: int, k: int| 0 <= j < cs.len() ==> !#[trigger] rides(cs[j], bone, k),
    }
}

/// A capsule of the frame: an enabled collider and what it rides on.
#[derive(Clone, Copy, Debug)]
pub struct CapsulePlace {
    pub collider: BoneCollider,
    /// Chain and bone, by place; a capsule without stands on its bone.
    pub soft: Option<(usize, usize)>,
}

/// A particle that can be grabbed.
#[derive(Clone, Copy, Debug, PartialEq, Eq, Structural)]
pub struct SoftCandidate {
    pub chain_id: u32,
    /// Place among the particles of the chain; the root is not for grabbing.
    pub particle: usize,
    /// Bone to select while grabbing (tip particle → last bone).
    pub bone: BoneId,
    /// The simulated position; without, the joint of `bone`, or the point past
    /// it if `past_tip`.
    pub pos: Option<Vec3>,
    pub past_tip: bool,
}

/// Particle `i` of chain `c`.
pub open spec fn candidate(c: SoftView, i: int) -> SoftCandidate {
    let n = c.bones.len();
    SoftCandidate {
        chain_id: c.id,
        particle: i as usize,
        bone: if i < n {
            c.bones[i]
        } else {
            c.bones[n - 1]
        },
        pos: if c.initialized && c.curr_pos.len() == n + 1 {
            Some(c.curr_pos[i])
        } else {
            None
        },
        past_tip: i >= n,
    }
}

/// The particles of chain `c` that can be grabbed, from the root on.
pub open spec fn chain_candidates(c: SoftView) -> Seq<SoftCandidate> {
    if c.enabled {
        Seq::new(c.bones.len(), |j: int| candidate(c, j + 1))
    } else {
        Seq::empty()
    }
}

/// All particles that can be grabbed, chain by chain.
pub open spec fn candidates(cs: Seq<SoftView>) -> Seq<SoftCandidate>
    decreases cs.len(),
{
    if cs.len() == 0 {
        Seq::empty()
    } else {
        candidates(cs.drop_last()) + chain_candidates(cs.last())
    }
}

impl SoftChain {
    /// Place of `bone` in the chain if a particle stands there and the chain is on.
    fn riding(&self, bone: BoneId) -> (r: Option<usize>)
        ensures
            match r {
                Some(b) => rides(self@, bone, b as int),
                None => forall|k: int| !#[trigger] rides(self@, bone, k),
            },
    {
        if !self.enabled {
            return None;
        }
        let mut b: usize = 0;
        while b < self.bones.len()
            invariant
                b <= self.bones@.len(),
                forall|k: int| 0 <= k < b ==> self.bones@[k] != bone,
                self.enabled,
            decreases self.bones.len() - b,
        {
            if self.bones[b] == bone {
                if b < self.curr_pos.len() {
                    return Some(b);
                }
                assert forall|k: int| !#[trigger] rides(self@, bone, k) by {
                    if rides(self@, bone, k) && k > b {
                        assert(self@.bones[b as int] != bone);
                    }
                }
                return None;
            }
            b = b + 1;
        }
        None
    }

    /// The particles of the chain that can be grabbed, from the root on.
    fn grabbable(&self) -> (r: Vec<SoftCandidate>)
        requires
            self.bones@.len() >= 1,
        ensures
            r@ == chain_candidates(self@),
    {
        let mut out: Vec<SoftCandidate> = Vec::new();
        if !self.enabled {
            return out;
        }
        let n = self.bones.len();
        let sim = self.initialized && self.curr_pos.len() > n && self.curr_pos.len() - 1 == n;
        let mut j: usize = 0;
        while j < n
            invariant
                j <= n,
                n == self.bones@.len(),
                n >= 1,
                self.enabled,
                sim == (self.initialized && self.curr_pos@.len() == n + 1),
                out@.len() == j,
                forall|k: int| 0 <= k < j ==> out@[k] == candidate(self@, k + 1),
            decreases n - j,
        {
            let i: usize = j + 1;
            let bone = if i < n {
                self.bones[i]
            } else {
                self.bones[n - 1]
            };
            let pos = if sim {
                Some(self.curr_pos[i])
            } else {
                None
            };
            out.push(
                SoftCandidate { chain_id: self.id, particle: i, bone, pos, past_tip: i >= n },
            );
            j = i;
        }
        assert(out@ =~= chain_candidates(self@));
        out
    }
}

/// An enabled chain lists `bone`.
fn is_held(chains: &Vec<SoftChain>, bone: BoneId) -> (r: bool)
    ensures
        r == soft_held(soft_view(chains@), bone),
{
    let ghost cs = soft_view(chains@);
    let mut i: usize = 0;
    while i < chains.len()
        invariant
            i <= chains@.len(),
            cs == soft_view(chains@),
            forall|j: int| 0 <= j < i ==> !((#[trigger] cs[j]).enabled && cs[j].bones.contains(bone)),
        decreases chains.len() - i,
    {
        assert(cs[i as int] == chains@[i as int]@);
        if chains[i].enabled && lists_bone(&chains[i].bones, bone) {
            return true;
        }
        i = i + 1;
    }
    false
}

/// Appends what `ops` lists to `out`.
fn extend_ops(out: &mut Vec<SoftOp>, ops: &Vec<SoftOp>)
    ensures
        final(out)@ == old(out)@ + ops@,
{
    let mut i: usize = 0;
    assert(ops@.take(0) =~= Seq::empty());
    while i < ops.len()
        invariant
            i <= ops@.len(),
            out@ == old(out)@ + ops@.take(i as int),
        decreases ops.len() - i,
    {
        assert(ops@.take(i as int + 1) =~= ops@.take(i as int).push(ops@[i as int]));
        out.push(ops[i]);
        i = i + 1;
    }
    assert(ops@.take(i as int) =~= ops@);
}

impl RigDocument {
    /// Kill grab-induced velocity so release doesn't shoot the chain.
    pub fn release_soft_grab(&mut self, chain_id: u32)
        requires
            old(self).wf(),
        ensures
            final(self).wf(),
            final(self)@ == (RigView {
                soft_chains: grab_released(old(self)@.soft_chains, chain_id),
                ..old(self)@
            }),
    {
        let ghost cs = self@.soft_chains;
        let ghost want = grab_released(cs, chain_id);
        let n = self.soft_chains.len();
        let mut i: usize = 0;
        while i < n
            invariant
                i <= n,
                n == self.soft_chains@.len(),
                n == cs.len(),
                want == grab_released(cs, chain_id),
                self@ == (RigView { soft_chains: self@.soft_chains, ..old(self)@ }),
                self.bone_index == old(self).bone_index,
                self.selected == old(self).selected,
                forall|j: int| 0 <= j < i ==> self@.soft_chains[j] == want[j],
                forall|j: int| i <= j < n ==> self@.soft_chains[j] == cs[j],
            decreases n - i,
        {
            let ghost was = self@.soft_chains;
            assert(was[i as int] == cs[i as int]);
            if self.soft_chains[i].id == chain_id {
                let rest = copy_points(&self.soft_chains[i].curr_pos);
                self.soft_chains[i].prev_pos = rest;
                self.soft_chains[i].grab_relax = scalar(BITS_ONE);
            }
            assert(forall|j: int| 0 <= j < n && j != i ==> self@.soft_chains[j] == was[j]);
            assert(self@.soft_chains[i as int] =~= want[i as int]);
            i = i + 1;
        }
        assert(self@.soft_chains =~= want);
        proof {
            assert(soft_ok(want, self@.next_soft_serial)) by {
                assert forall|i: int| 0 <= i < want.len() implies (#[trigger] want[i]).id == cs[i].id
                    && want[i].bones == cs[i].bones && want[i].lengths == cs[i].lengths by {}
                assert forall|i: int, j: int| 0 <= i < j < want.len() implies (#[trigger] want[i]).id
                    != (#[trigger] want[j]).id by {
                    assert(cs[i].id != cs[j].id);
                }
            }
        }
    }

    /// Turns the bones of enabled chains back to bind before a step (Pose only);
    /// whether there is a step at all.
    pub fn restore_soft_binds(&self, scene: &mut Scene) -> (r: bool)
        requires
            self.wf(),
            old(scene).wf(),
        ensures
            final(scene).wf(),
            r == (self@.mode == AppMode::Pose),
            r ==> final(scene)@ == (SceneView {
                nodes: old(scene)@.nodes.map_values(|n: NodeView| turned_back(self@, n)),
                ..old(scene)@
            }),
            !r ==> final(scene)@ == old(scene)@,
    {
        broadcast use vstd::std_specs::hash::group_hash_axioms;

        if self.mode != AppMode::Pose {
            return false;
        }
        let ghost s0 = scene@;
        let ghost want = s0.nodes.map_values(|n: NodeView| turned_back(self@, n));
        let n = scene.nodes.len();
        let mut i: usize = 0;
        while i < n
            invariant
                i <= n,
                n == scene.nodes@.len(),
                n == s0.nodes.len(),
                self.wf(),
                scene_ok(s0),
                want == s0.nodes.map_values(|n: NodeView| turned_back(self@, n)),
                scene@ == (SceneView { nodes: scene@.nodes, ..s0 }),
                forall|j: int| 0 <= j < i ==> scene@.nodes[j] == want[j],
                forall|j: int| i <= j < n ==> scene@.nodes[j] == s0.nodes[j],
            decreases n - i,
        {
            let ghost was = scene@.nodes;
            assert(was[i as int] == s0.nodes[i as int]);
            let handle = scene.nodes[i].handle;
            assert(handle == s0.nodes[i as int].handle);
            if is_held(&self.soft_chains, BoneId { node: handle }) {
                match self.bind_locals.get(&handle.key()) {
                    Some(bind) => {
                        let mut local = scene.nodes[i].local;
                        local.rotation = bind.rotation;
                        scene.nodes[i].local = local;
                    },
                    None => {},
                }
            }
            assert(forall|j: int| 0 <= j < n && j != i ==> scene@.nodes[j] == was[j]);
            assert(scene@.nodes[i as int] =~= want[i as int]);
            i = i + 1;
        }
        assert(scene@.nodes =~= want);
        assert(forall|j: int| 0 <= j < n ==> want[j].handle == s0.nodes[j].handle);
        true
    }

    /// The host's work for one frame of soft motion, in order; `grab` is the
    /// chain that is being held.
    pub fn evaluate_soft_chains(&self, grab: Option<u32>) -> (r: Vec<SoftOp>)
        requires
            self.wf(),
        ensures
            r@ == (if self@.mode == AppMode::Pose {
                soft_frame(self@.soft_chains, grab)
            } else {
                Seq::empty()
            }),
            self@.mode == AppMode::Pose ==> forall|i: int|
                0 <= i < self@.soft_chains.len() && (#[trigger] self@.soft_chains[i]).enabled ==> {
                    let pulled = grab == Some(self@.soft_chains[i].id);
                    r@.contains(SoftOp::Constrain { chain: i as usize, pulled }) && !r@.contains(
                        SoftOp::Constrain { chain: i as usize, pulled: !pulled },
                    )
                },
    {
        let mut out: Vec<SoftOp> = Vec::new();
        if self.mode != AppMode::Pose {
            return out;
        }
        let ghost cs = self@.soft_chains;
        let ghost live = live_chains(cs, cs.len() as int);
        let ghost step = soft_substep(cs, grab);
        let ghost fp = |i: int| SoftOp::Prepare(i as usize);
        let ghost fw = |i: int| SoftOp::Write(i as usize);
        let ghost fi = |i: int| SoftOp::Integrate(i as usize);
        let ghost fc = |i: int|
            SoftOp::Constrain { chain: i as usize, pulled: grab == Some(cs[i].id) };
        let mut round: Vec<SoftOp> = Vec::new();
        let mut limits: Vec<SoftOp> = Vec::new();
        let mut write: Vec<SoftOp> = Vec::new();
        let mut held: Option<usize> = None;
        let n = self.soft_chains.len();
        let mut i: usize = 0;
        assert(live_chains(cs, 0) =~= Seq::empty());
        while i < n
            invariant
                i <= n,
                n == self.soft_chains@.len(),
                self.wf(),
                cs == self@.soft_chains,
                fp == (|i: int| SoftOp::Prepare(i as usize)),
                fw == (|i: int| SoftOp::Write(i as usize)),
                fi == (|i: int| SoftOp::Integrate(i as usize)),
                fc == (|i: int|
                    SoftOp::Constrain { chain: i as usize, pulled: grab == Some(cs[i].id) }),
                out@ == live_chains(cs, i as int).map_values(fp),
                round@ == live_chains(cs, i as int).map_values(fi),
                limits@ == live_chains(cs, i as int).map_values(fc),
                write@ == live_chains(cs, i as int).map_values(fw),
                match held {
                    Some(h) => h < i && grab == Some(cs[h as int].id),
                    None => forall|j: int| 0 <= j < i ==> grab != Some((#[trigger] cs[j]).id),
                },
            decreases n - i,
        {
            assert(cs[i as int] == self.soft_chains@[i as int]@);
            let id = self.soft_chains[i].id;
            let pulled = match grab {
                Some(g) => g == id,
                None => false,
            };
            if pulled && held.is_none() {
                held = Some(i);
            }
            let ghost l = live_chains(cs, i as int);
            if self.soft_chains[i].enabled {
                out.push(SoftOp::Prepare(i));
                round.push(SoftOp::Integrate(i));
                limits.push(SoftOp::Constrain { chain: i, pulled });
                write.push(SoftOp::Write(i));
                proof {
                    assert(live_chains(cs, i as int + 1) == l.push(i as int));
                    assert(l.push(i as int).map_values(fp) =~= l.map_values(fp).push(fp(i as int)));
                    assert(l.push(i as int).map_values(fi) =~= l.map_values(fi).push(fi(i as int)));
                    assert(l.push(i as int).map_values(fc) =~= l.map_values(fc).push(fc(i as int)));
                    assert(l.push(i as int).map_values(fw) =~= l.map_values(fw).push(fw(i as int)));
                }
            }
            i = i + 1;
        }
        extend_ops(&mut round, &limits);
        round.push(SoftOp::Collide);
        if let Some(h) = held {
            round.push(SoftOp::Hold(h));
        }
        proof {
            match held {
                Some(h) => {
                    let id = grab->0;
                    assert(chain_at(cs, id, h as int));
                    let k = choose|k: int| chain_at(cs, id, k);
                    assert(k == h) by {
                        if k < h {
                            assert(cs[k].id != cs[h as int].id);
                        } else if h < k {
                            assert(cs[h as int].id != cs[k].id);
                        }
                    }
                    assert(held_ops(cs, grab) =~= seq![SoftOp::Hold(h)]);
                },
                None => {
                    match grab {
                        Some(id) => {
                            assert forall|k: int| !chain_at(cs, id, k) by {}
                        },
                        None => {},
                    }
                    assert(held_ops(cs, grab) =~= Seq::empty());
                },
            }
            assert(round@ =~= live.map_values(fi) + live.map_values(fc) + seq![SoftOp::Collide]
                + held_ops(cs, grab));
            assert(round@ == step);
        }
        let mut k: usize = 0;
        let ghost head = out@;
        while k < SUBSTEPS
            invariant
                k <= SUBSTEPS,
                round@ == step,
                k == 0 ==> out@ == head,
                k == 1 ==> out@ == head + step,
                k == 2 ==> out@ == head + step + step,
                k == 3 ==> out@ == head + step + step + step,
                k == 4 ==> out@ == head + step + step + step + step,
            decreases SUBSTEPS - k,
        {
            extend_ops(&mut out, &round);
            k = k + 1;
        }
        extend_ops(&mut out, &write);
        proof {
            assert forall|i: int| 0 <= i < cs.len() && (#[trigger] cs[i]).enabled implies {
                let pulled = grab == Some(cs[i].id);
                out@.contains(SoftOp::Constrain { chain: i as usize, pulled }) && !out@.contains(
                    SoftOp::Constrain { chain: i as usize, pulled: !pulled },
                )
            } by {
                law_pulled(cs, grab, i);
            }
        }
        out
    }

    /// The capsules of the frame: every enabled collider, with what it rides on.
    pub fn capsule_places(&self) -> (r: Vec<CapsulePlace>)
        requires
            self.wf(),
        ensures
            r@.map_values(|p: CapsulePlace| p.collider) == self@.colliders.filter(
                |c: BoneCollider| c.enabled,
            ),
            forall|i: int|
                0 <= i < r@.len() ==> capsule_rides(
                    self@.soft_chains,
                    (#[trigger] r@[i]).collider.bone,
                    r@[i].soft,
                ),
    {
        let ghost p = |c: BoneCollider| c.enabled;
        let ghost q = |p: CapsulePlace| p.collider;
        let mut out: Vec<CapsulePlace> = Vec::new();
        proof {
            crate::lists::lemma_filter_ends(self.colliders@, p);
        }
        assert(out@.map_values(q) =~= Seq::empty());
        let mut i: usize = 0;
        while i < self.colliders.len()
            invariant
                i <= self.colliders@.len(),
                self.wf(),
                p == (|c: BoneCollider| c.enabled),
                q == (|p: CapsulePlace| p.collider),
                out@.map_values(q) == self.colliders@.take(i as int).filter(p),
                forall|k: int|
                    0 <= k < out@.len() ==> capsule_rides(
                        self@.soft_chains,
                        (#[trigger] out@[k]).collider.bone,
                        out@[k].soft,
                    ),
            decreases self.colliders.len() - i,
        {
            let col = self.colliders[i];
            proof {
                crate::lists::lemma_filter_step(self.colliders@, p, i as int);
            }
            if col.enabled {
                let soft = self.capsule_ride(col.bone);
                let ghost o = out@;
                let place = CapsulePlace { collider: col, soft };
                out.push(place);
                assert(o.push(place).map_values(q) =~= o.map_values(q).push(col));
            }
            i = i + 1;
        }
        out
    }

    /// What a capsule on `bone` rides on.
    fn capsule_ride(&self, bone: BoneId) -> (r: Option<(usize, usize)>)
        ensures
            capsule_rides(self@.soft_chains, bone, r),
    {
        let ghost cs = self@.soft_chains;
        let mut c: usize = 0;
        while c < self.soft_chains.len()
            invariant
                c <= self.soft_chains@.len(),
                cs == self@.soft_chains,
                forall|j: int, k: int| 0 <= j < c ==> !#[trigger] rides(cs[j], bone, k),
            decreases self.soft_chains.len() - c,
        {
            assert(cs[c as int] == self.soft_chains@[c as int]@);
            if let Some(b) = self.soft_chains[c].riding(bone) {
                return Some((c, b));
            }
            c = c + 1;
        }
        None
    }

    /// The particles that a click can grab, chain by chain from the root on.
    pub fn soft_candidates(&self) -> (r: Vec<SoftCandidate>)
        requires
            self.wf(),
        ensures
            r@ == candidates(self@.soft_chains),
    {
        let ghost cs = self@.soft_chains;
        let mut out: Vec<SoftCandidate> = Vec::new();
        let mut i: usize = 0;
        assert(cs.take(0) =~= Seq::empty());
        while i < self.soft_chains.len()
            invariant
                i <= self.soft_chains@.len(),
                self.wf(),
                cs == self@.soft_chains,
                out@ == candidates(cs.take(i as int)),
            decreases self.soft_chains.len() - i,
        {
            assert(cs[i as int] == self.soft_chains@[i as int]@);
            assert(cs[i as int].bones.len() >= 2);
            proof {
                assert(cs.take(i as int + 1).drop_last() =~= cs.take(i as int));
                assert(cs.take(i as int + 1).last() == cs[i as int]);
            }
            let mut more = self.soft_chains[i].grabbable();
            out.append(&mut more);
            i = i + 1;
        }
        assert(cs.take(i as int) =~= cs);
        out
    }

    /// Which candidate a ray hits first, given the distance of each hit.
    pub fn pick_soft_particle(&self, hits: &Vec<Option<Scalar>>) -> (r: Option<SoftCandidate>)
        requires
            self.wf(),
            hits@.len() == candidates(self@.soft_chains).len(),
        ensures
            r == (match crate::order::best_place(hits@) {
                Some(k) => Some(candidates(self@.soft_chains)[k]),
                None => None,
            }),
    {
        let all = self.soft_candidates();
        match crate::order::nearest_place(hits) {
            Some(k) => Some(all[k]),
            None => None,
        }
    }

    /// The colliders to draw, each with whether its bone is the active one.
    pub fn drawn_colliders(&self) -> (r: Vec<(BoneCollider, bool)>)
        ensures
            r@ == (if self@.show_colliders {
                self@.colliders.filter(|c: BoneCollider| c.enabled).map_values(
                    |c: BoneCollider| (c, self@.selection == Some(c.bone)),
                )
            } else {
                Seq::empty()
            }),
    {
        let ghost p = |c: BoneCollider| c.enabled;
        let ghost q = |c: BoneCollider| (c, self@.selection == Some(c.bone));
        let mut out: Vec<(BoneCollider, bool)> = Vec::new();
        if !self.show_colliders {
            return out;
        }
        proof {
            crate::lists::lemma_filter_ends(self.colliders@, p);
        }
        assert(Seq::<BoneCollider>::empty().map_values(q) =~= out@);
        let mut i: usize = 0;
        while i < self.colliders.len()
            invariant
                i <= self.colliders@.len(),
                p == (|c: BoneCollider| c.enabled),
                q == (|c: BoneCollider| (c, self@.selection == Some(c.bone))),
                out@ == self.colliders@.take(i as int).filter(p).map_values(q),
            decreases self.colliders.len() - i,
        {
            let col = self.colliders[i];
            let ghost f = self.colliders@.take(i as int).filter(p);
            proof {
                crate::lists::lemma_filter_step(self.colliders@, p, i as int);
            }
            if col.enabled {
                let active = match self.selection {
                    Some(s) => s == col.bone,
                    None => false,
                };
                out.push((col, active));
                assert(f.push(col).map_values(q) =~= f.map_values(q).push(q(col)));
            }
            i = i + 1;
        }
        out
    }

    /// The soft chains to draw, by place: those that are on and have particles.
    pub fn drawn_chains(&self) -> (r: Vec<usize>)
        ensures
            forall|i: usize| #[trigger] r@.contains(i) <==> drawn(self@, i as int),
            forall|j: int, k: int| 0 <= j < k < r@.len() ==> r@[j] < r@[k],
    {
        let mut out: Vec<usize> = Vec::new();
        if self.mode != AppMode::Pose {
            return out;
        }
        let mut i: usize = 0;
        while i < self.soft_chains.len()
            invariant
                i <= self.soft_chains@.len(),
                self@.mode == AppMode::Pose,
                forall|x: usize| #[trigger] out@.contains(x) <==> x < i && drawn(self@, x as int),
                forall|j: int, k: int| 0 <= j < k < out@.len() ==> out@[j] < out@[k],
            decreases self.soft_chains.len() - i,
        {
            assert(self@.soft_chains[i as int] == self.soft_chains@[i as int]@);
            let ghost o = out@;
            if self.soft_chains[i].enabled && self.soft_chains[i].curr_pos.len() >= 2 {
                assert forall|k: int| 0 <= k < o.len() implies o[k] < i by {
                    assert(o.contains(o[k]));
                }
                out.push(i);
                assert(out@[o.len() as int] == i);
                assert forall|x: usize| #[trigger] out@.contains(x) <==> o.contains(x) || x == i by {
                    if o.contains(x) {
                        let k = choose|k: int| 0 <= k < o.len() && o[k] == x;
                        assert(out@[k] == x);
                    }
                    if out@.contains(x) && x != i {
                        let k = choose|k: int| 0 <= k < out@.len() && out@[k] == x;
                        assert(o[k] == x);
                    }
                }
            }
            i = i + 1;
        }
        out
    }
}

/// Chain `i` is shown in the viewport.
pub open spec fn drawn(r: RigView, i: int) -> bool {
    r.mode == AppMode::Pose && 0 <= i < r.soft_chains.len() && r.soft_chains[i].enabled
        && r.soft_chains[i].curr_pos.len() >= 2
}

fn copy_points(v: &Vec<Vec3>) -> (r: Vec<Vec3>)
    ensures
        r@ == v@,
{
    let mut out: Vec<Vec3> = Vec::new();
    let mut i: usize = 0;
    while i < v.len()
        invariant
            i <= v@.len(),
            out@ == v@.take(i as int),
        decreases v.len() - i,
    {
        out.push(v[i]);
        assert(v@.take(i as int + 1) =~= v@.take(i as int).push(v@[i as int]));
        i = i + 1;
    }
    assert(v@.take(i as int) =~= v@);
    out
}

} // verus!
