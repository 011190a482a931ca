//! What a frame of soft motion does to which chain, and what a grab does.

use vstd::prelude::*;
use crate::bones::BoneId;
use crate::rig::{AppMode, RigView, SoftView};
use crate::scene::NodeView;
use crate::soft_sim::{
    candidate, candidates, capsule_rides, chain_at, chain_candidates, drawn, grab_released, held_ops, lemma_live,
    live_chains, soft_frame, soft_held, soft_substep, turned_back, SoftCandidate, SoftOp,
};

verus! {

/// The live chains are in the order in which they stand.
proof fn lemma_live_rises(cs: Seq<SoftView>, n: int)
    requires
        0 <= n <= cs.len(),
    ensures
        forall|a: int, b: int|
            0 <= a < b < live_chains(cs, n).len() ==> #[trigger] live_chains(cs, n)[a]
                < #[trigger] live_chains(cs, n)[b],
    decreases n,
{
    if n > 0 {
        lemma_live_rises(cs, n - 1);
        lemma_live(cs, n - 1);
        let s = live_chains(cs, n - 1);
        assert forall|a: int, b: int| 0 <= a < b < live_chains(cs, n).len() implies #[trigger] live_chains(
            cs,
            n,
        )[a] < #[trigger] live_chains(cs, n)[b] by {
            if b == s.len() {
                assert(s.contains(s[a]));
            }
        }
    }
}

/// `live` lists the enabled chains, each once and in the order in which they stand.
pub open spec fn lists_enabled(cs: Seq<SoftView>, live: Seq<int>) -> bool {
    &&& forall|i: int| #[trigger] live.contains(i) <==> 0 <= i < cs.len() && cs[i].enabled
    &&& forall|a: int, b: int| 0 <= a < b < live.len() ==> #[trigger] live[a] < #[trigger] live[b]
}

/// Work on chains goes through all enabled ones in the order in which they stand.
pub proof fn law_live(cs: Seq<SoftView>)
    ensures
        lists_enabled(cs, live_chains(cs, cs.len() as int)),
{
    lemma_live(cs, cs.len() as int);
    lemma_live_rises(cs, cs.len() as int);
}

/// The grab holds a chain of the rig.
pub open spec fn grab_holds(cs: Seq<SoftView>, grab: Option<u32>) -> bool {
    grab matches Some(id) && exists|i: int| 0 <= i < cs.len() && (#[trigger] cs[i]).id == id
}

/// How a frame is laid out: all enabled chains are prepared, then four times
/// over all are moved, all constrained, capsules pushed apart and a chain that
/// is held kept still, and in the end all are written back.
pub proof fn law_soft_schedule(cs: Seq<SoftView>, grab: Option<u32>, s: int, k: int)
    requires
        cs.len() <= usize::MAX,
        0 <= s < 4,
        0 <= k < live_chains(cs, cs.len() as int).len(),
    ensures
        ({
            let f = soft_frame(cs, grab);
            let live = live_chains(cs, cs.len() as int);
            let m = live.len() as int;
            let step = 2 * m + 1 + (if grab_holds(cs, grab) {
                1int
            } else {
                0
            });
            let at = m + s * step;
            &&& f.len() == 2 * m + 4 * step
            &&& f[k] == SoftOp::Prepare(live[k] as usize)
            &&& f[at + k] == SoftOp::Integrate(live[k] as usize)
            &&& f[at + m + k] is Constrain && f[at + m + k]->chain == live[k]
            &&& f[at + 2 * m] == SoftOp::Collide
            &&& grab_holds(cs, grab) ==> f[at + 2 * m + 1] is Hold
            &&& f[m + 4 * step + k] == SoftOp::Write(live[k] as usize)
        }),
{
    let live = live_chains(cs, cs.len() as int);
    law_live(cs);
    assert(live.contains(live[k]));
    let step = soft_substep(cs, grab);
    let f = soft_frame(cs, grab);
    let m = live.len() as int;
    let l = step.len() as int;
    match grab {
        Some(id) => {
            if exists|i: int| chain_at(cs, id, i) {
                let i = choose|i: int| chain_at(cs, id, i);
                assert(0 <= i < cs.len() && cs[i].id == id);
            }
            if grab_holds(cs, grab) {
                let i = choose|i: int| 0 <= i < cs.len() && (#[trigger] cs[i]).id == id;
                assert(chain_at(cs, id, i));
            }
        },
        None => {},
    }
    assert(step[2 * m] == SoftOp::Collide);
    assert(step[k] == SoftOp::Integrate(live[k] as usize));
    assert(step[m + k] is Constrain);
    assert(s * l == 0 || s * l == l || s * l == 2 * l || s * l == 3 * l) by {
        if s == 0 {
        } else if s == 1 {
        } else if s == 2 {
        } else {
            assert(s == 3);
        }
    }
    assert(forall|j: int| 0 <= j < l ==> f[m + s * l + j] == step[j]) by {
        assert forall|j: int| 0 <= j < l implies f[m + s * l + j] == step[j] by {
            if s == 0 {
            } else if s == 1 {
            } else if s == 2 {
            } else {
                assert(s == 3);
            }
        }
    }
    assert(f[m + s * l + k] == step[k]);
    assert(f[m + s * l + (m + k)] == step[m + k]);
    assert(f[m + s * l + 2 * m] == step[2 * m]);
    if grab_holds(cs, grab) {
        assert(f[m + s * l + (2 * m + 1)] == step[2 * m + 1]);
    }
}

/// A chain is pulled towards the cursor when its constraints are satisfied if
/// and only if it is on and the grab names it; every other chain that is on is
/// constrained without a pull, and one that is off not at all.
pub proof fn law_pulled(cs: Seq<SoftView>, grab: Option<u32>, i: int)
    requires
        0 <= i < cs.len() <= usize::MAX,
    ensures
        soft_frame(cs, grab).contains(SoftOp::Constrain { chain: i as usize, pulled: true }) <==> (
        cs[i].enabled && grab == Some(cs[i].id)),
        soft_frame(cs, grab).contains(SoftOp::Constrain { chain: i as usize, pulled: false }) <==> (
        cs[i].enabled && grab != Some(cs[i].id)),
{
    let live = live_chains(cs, cs.len() as int);
    let step = soft_substep(cs, grab);
    let f = soft_frame(cs, grab);
    let l = live.len() as int;
    let m = step.len() as int;
    lemma_live(cs, cs.len() as int);
    let yes = SoftOp::Constrain { chain: i as usize, pulled: true };
    let no = SoftOp::Constrain { chain: i as usize, pulled: false };
    assert(live.contains(i) <==> cs[i].enabled);
    if live.contains(i) {
        let k = choose|k: int| 0 <= k < live.len() && live[k] == i;
        assert(f[l + l + k] == step[l + k]);
    }
    assert forall|x: SoftOp| #[trigger] f.contains(x) && x is Constrain implies exists|k: int|
        0 <= k < l && #[trigger] step[l + k] == x by {
        let k = choose|k: int| 0 <= k < f.len() && f[k] == x;
        let j = if k < l + m {
            k - l
        } else if k < l + 2 * m {
            k - l - m
        } else if k < l + 3 * m {
            k - l - 2 * m
        } else {
            k - l - 3 * m
        };
        assert(l <= k < l + 4 * m);
        assert(step[j] == x);
        assert(l <= j < 2 * l);
        assert(step[l + (j - l)] == x);
    }
    assert forall|k: int| 0 <= k < l implies 0 <= #[trigger] live[k] < cs.len() by {
        assert(live.contains(live[k]));
    }
    if f.contains(yes) {
        let k = choose|k: int| 0 <= k < l && #[trigger] step[l + k] == yes;
        assert(live[k] == i);
        assert(live.contains(live[k]));
    }
    if f.contains(no) {
        let k = choose|k: int| 0 <= k < l && #[trigger] step[l + k] == no;
        assert(live[k] == i);
        assert(live.contains(live[k]));
    }
}

/// The chain that is kept still is the one that the grab names.
pub proof fn law_held(cs: Seq<SoftView>, grab: Option<u32>, i: int)
    requires
        0 <= i < cs.len() <= usize::MAX,
        forall|a: int, b: int| 0 <= a < b < cs.len() ==> (#[trigger] cs[a]).id != (#[trigger] cs[b]).id,
    ensures
        soft_frame(cs, grab).contains(SoftOp::Hold(i as usize)) <==> grab == Some(cs[i].id),
{
    let live = live_chains(cs, cs.len() as int);
    let step = soft_substep(cs, grab);
    let f = soft_frame(cs, grab);
    let l = live.len() as int;
    let m = step.len() as int;
    let x = SoftOp::Hold(i as usize);
    if grab == Some(cs[i].id) {
        let id = cs[i].id;
        assert(chain_at(cs, id, i));
        let c = choose|c: int| chain_at(cs, id, c);
        assert(c == i) by {
            if c < i {
                assert(cs[c].id != cs[i].id);
            } else if i < c {
                assert(cs[i].id != cs[c].id);
            }
        }
        assert(held_ops(cs, grab)[0] == x);
        assert(step[2 * l + 1] == x);
        assert(f[l + (2 * l + 1)] == x);
    }
    if f.contains(x) {
        let k = choose|k: int| 0 <= k < f.len() && f[k] == x;
        assert(l <= k < l + 4 * m);
        let j = if k < l + m {
            k - l
        } else if k < l + 2 * m {
            k - l - m
        } else if k < l + 3 * m {
            k - l - 2 * m
        } else {
            k - l - 3 * m
        };
        assert(step[j] == x);
        assert(j > 2 * l);
        assert(held_ops(cs, grab)[j - 2 * l - 1] == x);
        let id = grab->0;
        let c = choose|c: int| chain_at(cs, id, c);
        assert(c as usize == i as usize);
    }
}

/// Letting go of a chain leaves it at rest where it is, its spring slackened;
/// nothing else of it changes, and no other chain does.
pub proof fn law_let_go(cs: Seq<SoftView>, id: u32, i: int)
    requires
        0 <= i < cs.len(),
    ensures
        grab_released(cs, id).len() == cs.len(),
        cs[i].id != id ==> grab_released(cs, id)[i] == cs[i],
        cs[i].id == id ==> {
            let c = grab_released(cs, id)[i];
            &&& c.prev_pos == cs[i].curr_pos && c.curr_pos == cs[i].curr_pos
            &&& c.grab_relax.bits == 0x3F80_0000
            &&& c == (SoftView { prev_pos: c.prev_pos, grab_relax: c.grab_relax, ..cs[i] })
        },
{
}

/// Before a step, a bone of an enabled chain stands turned as it is bound, where
/// it is; every other node stays as it is.
pub proof fn law_turned_back(r: RigView, n: NodeView, i: int)
    ensures
        0 <= i < r.soft_chains.len() && r.soft_chains[i].enabled && r.soft_chains[i].bones.contains(
            BoneId { node: n.handle },
        ) && r.bind_locals.contains_key(n.handle.key_of()) ==> {
            let t = turned_back(r, n);
            &&& t.local.rotation == r.bind_locals[n.handle.key_of()].rotation
            &&& t.local.translation == n.local.translation && t.local.scale == n.local.scale
            &&& t == (NodeView { local: t.local, ..n })
        },
        (forall|j: int|
            0 <= j < r.soft_chains.len() ==> !((#[trigger] r.soft_chains[j]).enabled
                && r.soft_chains[j].bones.contains(BoneId { node: n.handle }))) ==> turned_back(r, n)
            == n,
        !r.bind_locals.contains_key(n.handle.key_of()) ==> turned_back(r, n) == n,
{
}

/// `x` is particle `p` of chain `c`: every particle but the root, under the bone
/// that begins there, the one past the tip under the last bone; where the chain
/// is simulated it is where the simulation has it.
pub open spec fn is_particle(c: SoftView, p: int, x: SoftCandidate) -> bool {
    let n = c.bones.len();
    &&& c.enabled
    &&& 1 <= p <= n
    &&& x.chain_id == c.id && x.particle == p
    &&& p < n ==> x.bone == c.bones[p] && !x.past_tip
    &&& p == n ==> x.bone == c.bones[n - 1] && x.past_tip
    &&& x.pos is Some <==> c.initialized && c.curr_pos.len() == n + 1
    &&& x.pos matches Some(v) ==> v == c.curr_pos[p]
}

/// What can be grabbed are the particles of the enabled chains, all of them and
/// nothing else.
pub proof fn law_candidates(cs: Seq<SoftView>, x: SoftCandidate)
    requires
        forall|i: int| 0 <= i < cs.len() ==> 1 <= (#[trigger] cs[i]).bones.len() < usize::MAX,
    ensures
        candidates(cs).contains(x) <==> exists|i: int, p: int|
            0 <= i < cs.len() && #[trigger] is_particle(cs[i], p, x),
    decreases cs.len(),
{
    if cs.len() > 0 {
        let t = cs.drop_last();
        let c = cs.last();
        let a = candidates(t);
        let b = chain_candidates(c);
        law_candidates(t, x);
        assert(cs[cs.len() - 1].bones.len() >= 1);
        assert((a + b).contains(x) <==> a.contains(x) || b.contains(x)) by {
            if a.contains(x) {
                let k = choose|k: int| 0 <= k < a.len() && a[k] == x;
                assert((a + b)[k] == x);
            }
            if b.contains(x) {
                let k = choose|k: int| 0 <= k < b.len() && b[k] == x;
                assert((a + b)[a.len() + k] == x);
            }
            if (a + b).contains(x) {
                let k = choose|k: int| 0 <= k < (a + b).len() && (a + b)[k] == x;
                if k < a.len() {
                    assert(a[k] == x);
                } else {
                    assert(b[k - a.len()] == x);
                }
            }
        }
        assert(b.contains(x) <==> exists|p: int| is_particle(c, p, x)) by {
            if b.contains(x) {
                let k = choose|k: int| 0 <= k < b.len() && b[k] == x;
                assert(is_particle(c, k + 1, x));
            }
            if exists|p: int| is_particle(c, p, x) {
                let p = choose|p: int| is_particle(c, p, x);
                assert(b[p - 1] == x);
            }
        }
        if a.contains(x) {
            let (i, p) = choose|i: int, p: int| 0 <= i < t.len() && #[trigger] is_particle(t[i], p, x);
            assert(is_particle(cs[i], p, x));
        }
        if b.contains(x) {
            let p = choose|p: int| is_particle(c, p, x);
            assert(is_particle(cs[cs.len() - 1], p, x));
        }
        if exists|i: int, p: int| 0 <= i < cs.len() && #[trigger] is_particle(cs[i], p, x) {
            let (i, p) = choose|i: int, p: int| 0 <= i < cs.len() && #[trigger] is_particle(cs[i], p, x);
            if i < t.len() {
                assert(is_particle(t[i], p, x));
            } else {
                assert(is_particle(c, p, x));
            }
        }
    }
}

/// A capsule rides on a particle of an enabled chain that lists its bone; where
/// no enabled chain lists the bone it rides on none.
pub proof fn law_capsule_ride(cs: Seq<SoftView>, bone: BoneId, at: Option<(usize, usize)>, i: int)
    requires
        capsule_rides(cs, bone, at),
    ensures
        at matches Some((c, b)) ==> {
            &&& c < cs.len() && cs[c as int].enabled
            &&& b < cs[c as int].bones.len() && cs[c as int].bones[b as int] == bone
            &&& b < cs[c as int].curr_pos.len()
        },
        at is None && 0 <= i < cs.len() && cs[i].enabled && cs[i].bones.len() <= cs[i].curr_pos.len()
            ==> !cs[i].bones.contains(bone),
        at matches Some((c, b)) ==> 0 <= i < c && cs[i].enabled && cs[i].bones.len()
            <= cs[i].curr_pos.len() ==> !cs[i].bones.contains(bone),
{
    let c = cs[i];
    if 0 <= i < cs.len() && c.enabled && c.bones.contains(bone) && c.bones.len() <= c.curr_pos.len() {
        let k = lemma_first_at(c.bones, bone, 0);
        assert(crate::soft_sim::rides(cs[i], bone, k));
    }
}

proof fn lemma_first_at(s: Seq<BoneId>, b: BoneId, from: int) -> (k: int)
    requires
        0 <= from <= s.len(),
        s.contains(b),
        forall|j: int| 0 <= j < from ==> s[j] != b,
    ensures
        0 <= k < s.len(),
        s[k] == b,
        forall|j: int| 0 <= j < k ==> s[j] != b,
    decreases s.len() - from,
{
    if from == s.len() {
        let k = choose|k: int| 0 <= k < s.len() && s[k] == b;
        assert(s[k] != b);
        0
    } else if s[from] == b {
        from
    } else {
        lemma_first_at(s, b, from + 1)
    }
}

/// A soft chain is shown in Pose mode, if it is on and has somewhere to be shown.
pub proof fn law_drawn(r: RigView, i: int)
    ensures
        r.mode != AppMode::Pose ==> !drawn(r, i),
        0 <= i < r.soft_chains.len() && !r.soft_chains[i].enabled ==> !drawn(r, i),
        0 <= i < r.soft_chains.len() && r.soft_chains[i].curr_pos.len() < 2 ==> !drawn(r, i),
        r.mode == AppMode::Pose && 0 <= i < r.soft_chains.len() && r.soft_chains[i].enabled
            && r.soft_chains[i].curr_pos.len() >= 2 ==> drawn(r, i),
{
}

/// A bone is held where it is a joint of a chain that is on.
pub proof fn law_soft_held(cs: Seq<SoftView>, bone: BoneId, i: int)
    ensures
        0 <= i < cs.len() && cs[i].enabled && cs[i].bones.contains(bone) ==> soft_held(cs, bone),
        (forall|j: int| 0 <= j < cs.len() ==> !(#[trigger] cs[j]).enabled) ==> !soft_held(cs, bone),
        (forall|j: int| 0 <= j < cs.len() ==> !(#[trigger] cs[j]).bones.contains(bone)) ==> !soft_held(cs, bone),
{
}

/// A particle is where the simulation has it, once it runs; it hangs on its own
/// joint, and the one past the tip on the last.
pub proof fn law_candidate(c: SoftView, i: int)
    requires
        0 < c.bones.len() <= usize::MAX,
        0 <= i <= c.bones.len(),
    ensures
        candidate(c, i).chain_id == c.id && candidate(c, i).particle == i,
        i < c.bones.len() ==> candidate(c, i).bone == c.bones[i] && !candidate(c, i).past_tip,
        i == c.bones.len() ==> candidate(c, i).bone == c.bones.last() && candidate(c, i).past_tip,
        c.initialized && c.curr_pos.len() == c.bones.len() + 1 ==> candidate(c, i).pos == Some(c.curr_pos[i]),
        !c.initialized || c.curr_pos.len() != c.bones.len() + 1 ==> candidate(c, i).pos is None,
{
}

} // verus!
