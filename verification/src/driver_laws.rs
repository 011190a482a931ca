//! What holds of driver graphs however they are edited.

use vstd::prelude::*;
use crate::driver::{
    clone_step, cloned, connected, dnode_find, ends_at, fresh_driver, id_used, ids_ok,
    lemma_dnode_find, node_id, nodes_ok, spawned, without_ids, DriverNodeView, DriverView,
    NodeLinkView, NodeSpaceView,
};
use crate::geom::Vec2;
use crate::kinds::DriverNodeKind;
use crate::lists::{kept_at, lemma_filter_contains, lemma_kept};
use crate::text::{decimal_of, lemma_decimal_injective};

verus! {

/// Different serial numbers give different node ids.
pub proof fn law_node_ids_distinct(a: nat, b: nat)
    requires
        node_id(a) == node_id(b),
    ensures
        a == b,
{
    let x = decimal_of(a);
    let y = decimal_of(b);
    assert(x =~= ("n"@ + x).skip("n"@.len() as int));
    assert(y =~= ("n"@ + y).skip("n"@.len() as int));
    lemma_decimal_injective(a, b);
}

/// A fresh driver has proper node ids.
pub proof fn law_fresh_driver_ids(id: u32, name: Seq<char>, space: NodeSpaceView)
    ensures
        ids_ok(fresh_driver(id, name, space)),
{
}

/// Spawning gives an id that no node had, and ids stay distinct.
pub proof fn law_spawn_ids(d: DriverView, kind: DriverNodeKind, pos: Vec2)
    requires
        ids_ok(d),
        d.next_node_serial < u64::MAX,
    ensures
        ids_ok(spawned(d, kind, pos)),
        forall|i: int|
            0 <= i < d.nodes.len() ==> (#[trigger] d.nodes[i]).id != node_id(
                d.next_node_serial as nat,
            ),
{
    let e = spawned(d, kind, pos);
    lemma_push_ids(d.nodes, d.next_node_serial as nat, e.nodes.last());
}

/// One more node under the next serial keeps ids proper.
proof fn lemma_push_ids(nodes: Seq<DriverNodeView>, serial: nat, n: DriverNodeView)
    requires
        nodes_ok(nodes, serial),
        n.id == node_id(serial),
    ensures
        nodes_ok(nodes.push(n), serial + 1),
        forall|i: int| 0 <= i < nodes.len() ==> (#[trigger] nodes[i]).id != n.id,
{
    let ns = nodes.push(n);
    assert forall|i: int| 0 <= i < nodes.len() implies (#[trigger] nodes[i]).id != n.id by {
        let m = choose|m: nat| m < serial && #[trigger] node_id(m) == nodes[i].id;
        if nodes[i].id == n.id {
            law_node_ids_distinct(m, serial);
        }
    }
    assert forall|i: int| 0 <= i < ns.len() implies id_used((#[trigger] ns[i]).id, serial + 1) by {
        if i < nodes.len() {
            assert(nodes[i] == ns[i]);
            let m = choose|m: nat| m < serial && #[trigger] node_id(m) == nodes[i].id;
            assert(m < serial + 1 && node_id(m) == ns[i].id);
        } else {
            assert(node_id(serial) == ns[i].id);
        }
    }
    assert forall|i: int, j: int| 0 <= i < j < ns.len() implies (#[trigger] ns[i]).id != (
    #[trigger] ns[j]).id by {
        assert(ns[i] == nodes[i]);
        if j < nodes.len() {
            assert(ns[j] == nodes[j]);
        }
    }
}

/// Deleting nodes keeps ids proper.
pub proof fn law_delete_ids(d: DriverView, ids: Seq<Seq<char>>)
    requires
        ids_ok(d),
    ensures
        nodes_ok(without_ids(d.nodes, ids), d.next_node_serial as nat),
{
    let keep = |n: DriverNodeView| !ids.contains(n.id);
    let serial = d.next_node_serial as nat;
    let f = without_ids(d.nodes, ids);
    assert(f == d.nodes.filter(keep));
    lemma_kept(d.nodes, keep);
    assert forall|i: int| 0 <= i < f.len() implies id_used((#[trigger] f[i]).id, serial) by {
        let k = kept_at(d.nodes, keep, i);
        assert(d.nodes[k] == f[i]);
        let m = choose|m: nat| m < serial && #[trigger] node_id(m) == d.nodes[k].id;
        assert(node_id(m) == f[i].id);
    }
    assert forall|i: int, j: int| 0 <= i < j < f.len() implies (#[trigger] f[i]).id != (
    #[trigger] f[j]).id by {
        let a = kept_at(d.nodes, keep, i);
        let b = kept_at(d.nodes, keep, j);
        assert(a < b);
        assert(d.nodes[a].id != d.nodes[b].id);
    }
}

/// Duplicating nodes keeps ids proper.
pub proof fn law_clone_ids(d: DriverView, ids: Seq<Seq<char>>, shift: spec_fn(Vec2) -> Vec2)
    requires
        ids_ok(d),
    ensures
        nodes_ok(cloned(d, ids, shift).nodes, cloned(d, ids, shift).serial as nat),
        d.next_node_serial <= cloned(d, ids, shift).serial <= d.next_node_serial + ids.len(),
    decreases ids.len(),
{
    if ids.len() > 0 {
        law_clone_ids(d, ids.drop_last(), shift);
        let c = cloned(d, ids.drop_last(), shift);
        let e = clone_step(c, ids.last(), shift);
        lemma_dnode_find(c.nodes, ids.last());
        if dnode_find(c.nodes, ids.last()) is Some {
            lemma_push_ids(c.nodes, c.serial as nat, e.nodes.last());
            assert(e.nodes =~= c.nodes.push(e.nodes.last()));
            assert(e.serial as nat == c.serial as nat + 1);
        }
    }
}

/// An input takes one link: after connecting, exactly the new link ends there,
/// and all links to other inputs are still there.
pub proof fn law_one_link_per_input(
    d: DriverView,
    from_at: int,
    from_port: Seq<char>,
    to: Seq<char>,
    to_port: Seq<char>,
)
    ensures
        ({
            let after = connected(d, from_at, from_port, to, to_port).space.links;
            &&& after.len() > 0
            &&& ends_at(after.last(), to, to_port)
            &&& forall|i: int|
                0 <= i < after.len() - 1 ==> !ends_at(#[trigger] after[i], to, to_port)
            &&& forall|l: NodeLinkView|
                !ends_at(l, to, to_port) ==> (#[trigger] after.contains(l)
                    <==> d.space.links.contains(l))
        }),
{
    let p = |l: NodeLinkView| !ends_at(l, to, to_port);
    let f = d.space.links.filter(p);
    let after = connected(d, from_at, from_port, to, to_port).space.links;
    lemma_kept(d.space.links, p);
    assert forall|i: int| 0 <= i < after.len() - 1 implies !ends_at(
        #[trigger] after[i],
        to,
        to_port,
    ) by {
        assert(after[i] == f[i]);
        assert(0 <= kept_at(d.space.links, p, i));
        assert(p(f[i]));
    }
    assert forall|l: NodeLinkView| !ends_at(l, to, to_port) implies (#[trigger] after.contains(l)
        <==> d.space.links.contains(l)) by {
        lemma_filter_contains(d.space.links, p, l);
        if after.contains(l) {
            let i = choose|i: int| 0 <= i < after.len() && after[i] == l;
            assert(f[i] == l);
        }
        if f.contains(l) {
            let i = choose|i: int| 0 <= i < f.len() && f[i] == l;
            assert(after[i] == l);
        }
    }
}

/// Link ids stay distinct and below the next one.
pub open spec fn link_ids_ok(s: NodeSpaceView) -> bool {
    &&& forall|i: int| 0 <= i < s.links.len() ==> (#[trigger] s.links[i]).id < s.next_link_id
    &&& forall|i: int, j: int|
        0 <= i < j < s.links.len() ==> (#[trigger] s.links[i]).id != (#[trigger] s.links[j]).id
}

/// Connecting keeps link ids distinct.
pub proof fn law_connect_link_ids(
    d: DriverView,
    from_at: int,
    from_port: Seq<char>,
    to: Seq<char>,
    to_port: Seq<char>,
)
    requires
        link_ids_ok(d.space),
        d.space.next_link_id < u64::MAX,
    ensures
        link_ids_ok(connected(d, from_at, from_port, to, to_port).space),
{
    let p = |l: NodeLinkView| !ends_at(l, to, to_port);
    let old_links = d.space.links;
    let f = old_links.filter(p);
    let s = connected(d, from_at, from_port, to, to_port).space;
    lemma_kept(old_links, p);
    assert forall|i: int| 0 <= i < s.links.len() implies (#[trigger] s.links[i]).id
        < s.next_link_id by {
        if i < f.len() {
            assert(old_links[kept_at(old_links, p, i)] == s.links[i]);
        }
    }
    assert forall|i: int, j: int| 0 <= i < j < s.links.len() implies (#[trigger] s.links[i]).id != (
    #[trigger] s.links[j]).id by {
        assert(old_links[kept_at(old_links, p, i)] == s.links[i]);
        if j < f.len() {
            assert(kept_at(old_links, p, i) < kept_at(old_links, p, j));
            assert(old_links[kept_at(old_links, p, j)] == s.links[j]);
        }
    }
}

} // verus!
