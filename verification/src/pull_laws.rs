//! What a pull on a chain of bones gives back when it starts anew, in what order
//! joints turn, and what the configured chains are solved from.

use vstd::prelude::*;
use crate::bones::BoneId;
use crate::geom::{Quat, Vec3};
use crate::pull::{
    bind_turns, helper_of, ik_live, job_ok, rotated, rotations, shifted, sweep, sweeps, unturned, IkJob,
};
use crate::rig::{IkView, RigView};
use crate::scene::{node_at, node_get, NodeView};

verus! {

/// No two nodes share a handle.
pub open spec fn handles_apart(nodes: Seq<NodeView>) -> bool {
    forall|i: int, j: int|
        0 <= i < j < nodes.len() ==> (#[trigger] nodes[i]).handle != (#[trigger] nodes[j]).handle
}

proof fn lemma_get(nodes: Seq<NodeView>, i: int)
    requires
        handles_apart(nodes),
        0 <= i < nodes.len(),
    ensures
        node_get(nodes, nodes[i].handle) == Some(nodes[i]),
{
    let h = nodes[i].handle;
    assert(node_at(nodes, h, i));
    let k = choose|k: int| node_at(nodes, h, k);
    assert(k == i) by {
        if k < i {
            assert(nodes[k].handle != nodes[i].handle);
        } else if i < k {
            assert(nodes[i].handle != nodes[k].handle);
        }
    }
}

/// Turning a bone turns its node and nothing else.
pub proof fn law_turned(nodes: Seq<NodeView>, id: BoneId, q: Quat, i: int)
    requires
        handles_apart(nodes),
        0 <= i < nodes.len(),
    ensures
        rotated(nodes, id, q).len() == nodes.len(),
        handles_apart(rotated(nodes, id, q)),
        nodes[i].handle != id.node ==> rotated(nodes, id, q)[i] == nodes[i],
        nodes[i].handle == id.node ==> {
            let n = rotated(nodes, id, q)[i];
            &&& n.local.rotation == q
            &&& n.local.translation == nodes[i].local.translation
            &&& n.local.scale == nodes[i].local.scale
            &&& n == (NodeView { local: n.local, ..nodes[i] })
        },
{
    lemma_get(nodes, i);
    let out = rotated(nodes, id, q);
    assert forall|a: int, b: int| 0 <= a < b < out.len() implies (#[trigger] out[a]).handle != (
    #[trigger] out[b]).handle by {
        assert(nodes[a].handle != nodes[b].handle);
    }
}

proof fn lemma_unturned(nodes: Seq<NodeView>, chain: Seq<BoneId>, turns: Seq<Quat>, m: int, i: int)
    requires
        handles_apart(nodes),
        0 <= m <= chain.len() == turns.len(),
        0 <= i < nodes.len(),
        forall|a: int, b: int| 0 <= a < b < chain.len() ==> #[trigger] chain[a] != #[trigger] chain[b],
    ensures
        ({
            let out = unturned(nodes, chain, turns, m);
            &&& out.len() == nodes.len() && handles_apart(out)
            &&& out[i].local.translation == nodes[i].local.translation
            &&& out[i].local.scale == nodes[i].local.scale
            &&& out[i] == (NodeView { local: out[i].local, ..nodes[i] })
            &&& forall|k: int|
                0 <= k < m && (#[trigger] chain[k]).node == nodes[i].handle ==> out[i].local.rotation
                    == turns[k]
            &&& (forall|k: int| 0 <= k < m ==> (#[trigger] chain[k]).node != nodes[i].handle) ==> out[i]
                == nodes[i]
        }),
    decreases m,
{
    if m > 0 {
        lemma_unturned(nodes, chain, turns, m - 1, i);
        let was = unturned(nodes, chain, turns, m - 1);
        law_turned(was, chain[m - 1], turns[m - 1], i);
        let out = unturned(nodes, chain, turns, m);
        assert forall|k: int| 0 <= k < m && (#[trigger] chain[k]).node == nodes[i].handle implies out[i].local.rotation
            == turns[k] by {
            if k < m - 1 {
                assert(chain[k] != chain[m - 1]);
                assert(chain[m - 1].node != chain[k].node) by {
                    if chain[m - 1].node == chain[k].node {
                        assert(chain[m - 1] == chain[k]);
                    }
                }
            }
        }
        if forall|k: int| 0 <= k < m ==> (#[trigger] chain[k]).node != nodes[i].handle {
            assert(chain[m - 1].node != nodes[i].handle);
        }
    }
}

/// A pull that starts anew puts every bone of its chain back to the rotation
/// that was remembered for it, and the first one back to where it was; the
/// rest of those bones, and all other nodes, stay.
pub proof fn law_restored(
    nodes: Seq<NodeView>,
    chain: Seq<BoneId>,
    turns: Seq<Quat>,
    at: Vec3,
    i: int,
    k: int,
)
    requires
        handles_apart(nodes),
        1 <= chain.len() == turns.len(),
        0 <= i < nodes.len(),
        forall|a: int, b: int| 0 <= a < b < chain.len() ==> #[trigger] chain[a] != #[trigger] chain[b],
    ensures
        ({
            let out = shifted(unturned(nodes, chain, turns, chain.len() as int), chain[0], at);
            &&& out.len() == nodes.len()
            &&& out[i] == (NodeView { local: out[i].local, ..nodes[i] })
            &&& out[i].local.scale == nodes[i].local.scale
            &&& 0 <= k < chain.len() && chain[k].node == nodes[i].handle ==> out[i].local.rotation
                == turns[k]
            &&& chain[0].node == nodes[i].handle ==> out[i].local.translation == at
            &&& chain[0].node != nodes[i].handle ==> out[i].local.translation
                == nodes[i].local.translation
            &&& (forall|j: int| 0 <= j < chain.len() ==> (#[trigger] chain[j]).node != nodes[i].handle)
                ==> out[i] == nodes[i]
        }),
{
    let was = unturned(nodes, chain, turns, chain.len() as int);
    lemma_unturned(nodes, chain, turns, chain.len() as int, i);
    lemma_get(was, i);
    assert(was[i].handle == nodes[i].handle);
    if 0 <= k < chain.len() && chain[k].node == nodes[i].handle {
        assert(was[i].local.rotation == turns[k]);
    }
}

/// Whatever a drag did to a chain, starting anew gives every bone of it the
/// rotation that it had when it was grabbed.
pub proof fn law_grab_remembered(
    then: Seq<NodeView>,
    now: Seq<NodeView>,
    chain: Seq<BoneId>,
    at: Vec3,
    i: int,
    k: int,
)
    requires
        handles_apart(then),
        then.len() == now.len(),
        forall|j: int| 0 <= j < now.len() ==> (#[trigger] now[j]).handle == then[j].handle,
        1 <= chain.len(),
        forall|a: int, b: int| 0 <= a < b < chain.len() ==> #[trigger] chain[a] != #[trigger] chain[b],
        0 <= i < now.len(),
        0 <= k < chain.len(),
        chain[k].node == then[i].handle,
    ensures
        shifted(unturned(now, chain, rotations(then, chain), chain.len() as int), chain[0], at)[i].local.rotation
            == then[i].local.rotation,
{
    assert(handles_apart(now)) by {
        assert forall|a: int, b: int| 0 <= a < b < now.len() implies (#[trigger] now[a]).handle != (
        #[trigger] now[b]).handle by {
            assert(then[a].handle != then[b].handle);
        }
    }
    assert(now[i].handle == then[i].handle);
    law_restored(now, chain, rotations(then, chain), at, i, k);
    lemma_get(then, i);
}

/// A sweep turns every joint but the end once, from the end up to the root.
pub proof fn law_sweep(n: nat, k: int)
    requires
        n >= 1,
    ensures
        sweep(n).len() == n - 1,
        0 <= k < n - 1 ==> sweep(n)[k] == n - 2 - k,
{
}

/// Sweep follows sweep, each like the first.
pub proof fn law_sweeps(n: nat, times: nat, i: int)
    requires
        n >= 1,
    ensures
        sweeps(n, times).len() == times * (n - 1),
        0 <= i < n - 1 && times >= 1 ==> sweeps(n, times)[i] == n - 2 - i,
        0 <= i && i + (n - 1) < sweeps(n, times).len() ==> sweeps(n, times)[i + (n - 1)] == sweeps(
            n,
            times,
        )[i],
    decreases times,
{
    if times > 0 {
        let t = (times - 1) as nat;
        law_sweeps(n, t, i);
        assert(times * (n - 1) == t * (n - 1) + (n - 1)) by (nonlinear_arith)
            requires
                times == t + 1,
        ;
        let a = sweeps(n, t);
        let p = n - 1;
        if t > 0 {
            let b = sweeps(n, (t - 1) as nat);
            assert(a == b + sweep(n));
            assert(a.len() >= p);
            if 0 <= i && i + p < sweeps(n, times).len() && i + p >= a.len() {
                assert(i >= b.len());
                assert(a[i] == sweep(n)[i - b.len()]);
            }
        } else {
            assert(a.len() == 0);
            assert(sweeps(n, times) =~= sweep(n));
        }
    } else {
        assert(times * (n - 1) == 0) by (nonlinear_arith)
            requires
                times == 0,
        ;
    }
}

/// The chains to solve are the enabled ones, each once and in the order in which
/// they stand.
pub proof fn law_ik_live(cs: Seq<IkView>, n: int)
    requires
        0 <= n <= cs.len(),
    ensures
        forall|i: int| #[trigger] ik_live(cs, n).contains(i) <==> 0 <= i < n && cs[i].enabled,
        forall|a: int, b: int|
            0 <= a < b < ik_live(cs, n).len() ==> #[trigger] ik_live(cs, n)[a] < #[trigger] ik_live(cs, n)[b],
    decreases n,
{
    if n > 0 {
        law_ik_live(cs, n - 1);
        let s = ik_live(cs, n - 1);
        let all = ik_live(cs, n);
        assert forall|i: int| #[trigger] all.contains(i) <==> 0 <= i < n && cs[i].enabled by {
            if cs[n - 1].enabled {
                assert(all[s.len() as int] == n - 1);
                if s.contains(i) {
                    let k = choose|k: int| 0 <= k < s.len() && s[k] == i;
                    assert(all[k] == i);
                }
                if all.contains(i) && i != n - 1 {
                    let k = choose|k: int| 0 <= k < all.len() && all[k] == i;
                    assert(s[k] == i);
                }
            }
        }
        assert forall|a: int, b: int| 0 <= a < b < all.len() implies #[trigger] all[a] < #[trigger] all[b] by {
            if b == s.len() {
                assert(s.contains(s[a]));
            }
        }
    }
}

/// A chain is solved from the bind rotations of its bones and, last, its tip, if
/// all of them are bound; otherwise from the pose as it is.
pub proof fn law_ik_start(r: RigView, j: IkJob, k: int)
    requires
        job_ok(r, j),
        j.chain < r.ik_chains.len(),
    ensures
        ({
            let c = r.ik_chains[j.chain as int];
            let n = c.bones.len();
            &&& j.bind_rotations matches Some(qs) ==> {
                &&& qs@.len() == n + 1
                &&& 0 <= k < n ==> r.bind_locals.contains_key(c.bones[k].node.key_of()) && qs@[k]
                    == r.bind_locals[c.bones[k].node.key_of()].rotation
                &&& r.bind_locals.contains_key(c.tip.node.key_of()) && qs@[n as int]
                    == r.bind_locals[c.tip.node.key_of()].rotation
            }
            &&& j.bind_rotations is None ==> !r.bind_locals.contains_key(c.tip.node.key_of()) || exists|i: int|
                0 <= i < n && !r.bind_locals.contains_key((#[trigger] c.bones[i]).node.key_of())
        }),
{
    let c = r.ik_chains[j.chain as int];
    let n = c.bones.len();
    let ids = c.bones.push(c.tip);
    if j.bind_rotations is Some {
        assert(ids[n as int] == c.tip);
        assert(r.bind_locals.contains_key(ids[n as int].node.key_of()));
        if 0 <= k < n {
            assert(ids[k] == c.bones[k]);
            assert(r.bind_locals.contains_key(ids[k].node.key_of()));
        }
    } else {
        assert(bind_turns(r.bind_locals, ids) is None);
        let i = choose|i: int|
            0 <= i < ids.len() && !r.bind_locals.contains_key((#[trigger] ids[i]).node.key_of());
        if i < n {
            assert(ids[i] == c.bones[i]);
            assert(!r.bind_locals.contains_key(c.bones[i].node.key_of()));
        }
    }
}

/// The lines of an IK chain run from its tip to its target and from its middle
/// bone to its pole.
pub proof fn law_ik_helper(c: IkView)
    requires
        c.bones.len() >= 1,
    ensures
        helper_of(c).tip == c.tip,
        helper_of(c).target == c.target,
        helper_of(c).pole == c.pole,
        exists|i: int|
            0 <= i < c.bones.len() && helper_of(c).mid == #[trigger] c.bones[i] && (c.bones.len() == 2 * i
                || c.bones.len() == 2 * i + 1),
{
    let i = (c.bones.len() / 2) as int;
    assert(helper_of(c).mid == c.bones[i]);
}

} // verus!
