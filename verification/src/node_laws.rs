//! What editing a driver graph does to its nodes and links.

use vstd::prelude::*;
use crate::bones::BoneId;
use crate::driver::{
    bone_forgotten, clone_step, connected, default_floats, dnode_find, fresh_driver, fresh_node,
    shape_dropped, spawned, unknown_node, without_ids, writes_morph, Cloning, DriverNodeView,
    DriverView, NodeLinkView, NodeSpaceView,
};
use crate::geom::Vec2;
use crate::kinds::{DriverNodeKind, DriverSpace};
use crate::lists::lemma_filter_contains;
use crate::scene::MeshHandle;

verus! {

/// A fresh node reads and drives nothing yet, reads bones as offsets from bind,
/// and shows nothing.
pub proof fn law_fresh_node(id: Seq<char>, kind: DriverNodeKind, pos: Vec2)
    ensures
        ({
            let n = fresh_node(id, kind, pos);
            &&& n.id == id && n.kind == kind && n.pos == pos && n.title == kind.title_of()
            &&& n.bone is None && n.mesh is None && n.shape == 0 && n.space == DriverSpace::BindOffset
            &&& n.preview.len() == 0 && n.floats.len() == 4
        }),
{
}

/// What fresh nodes start with: a Remap from 0 to 90, a Map Range from 0..90 to
/// 0..45, a Clamp to 0..1, a weight of 0.35; everything else starts at zero.
pub proof fn law_start_numbers(kind: DriverNodeKind, i: int)
    requires
        0 <= i < 4,
    ensures
        default_floats(kind).len() == 4,
        kind == DriverNodeKind::Remap ==> default_floats(kind)[0].bits == 0 && default_floats(kind)[1].bits
            == 0x42B4_0000,
        kind == DriverNodeKind::MapRange ==> default_floats(kind)[0].bits == 0 && default_floats(kind)[1].bits
            == 0x42B4_0000 && default_floats(kind)[2].bits == 0 && default_floats(kind)[3].bits == 0x4234_0000,
        kind == DriverNodeKind::Clamp ==> default_floats(kind)[0].bits == 0 && default_floats(kind)[1].bits
            == 0x3F80_0000,
        kind == DriverNodeKind::QuatScale ==> default_floats(kind)[0].bits == 0x3EB3_3333,
        kind != DriverNodeKind::Remap && kind != DriverNodeKind::MapRange && kind != DriverNodeKind::Clamp && kind
            != DriverNodeKind::QuatScale ==> default_floats(kind)[i].bits == 0,
{
}

/// Spawning adds one node at the end and takes the next number; nothing else
/// changes.
pub proof fn law_spawned(d: DriverView, kind: DriverNodeKind, pos: Vec2)
    requires
        d.next_node_serial < u64::MAX,
    ensures
        ({
            let out = spawned(d, kind, pos);
            &&& out.nodes.len() == d.nodes.len() + 1
            &&& out.nodes.drop_last() == d.nodes
            &&& out.nodes.last().kind == kind && out.nodes.last().pos == pos
            &&& out.nodes.last().id == "n"@ + crate::text::decimal_of(d.next_node_serial as nat)
            &&& out.next_node_serial == d.next_node_serial + 1
            &&& out.space == d.space && out.enabled == d.enabled && out.id == d.id && out.name == d.name
        }),
{
    assert(spawned(d, kind, pos).nodes.drop_last() =~= d.nodes);
}

/// A fresh driver is on and empty.
pub proof fn law_fresh_driver(id: u32, name: Seq<char>, space: NodeSpaceView)
    ensures
        ({
            let d = fresh_driver(id, name, space);
            &&& d.id == id && d.name == name && d.enabled && d.nodes.len() == 0 && d.next_node_serial == 1
            &&& d.space.links == space.links && d.space.next_link_id == space.next_link_id
            &&& d.space.pan.x.bits == 0x41A0_0000 && d.space.pan.y.bits == 0x41A0_0000
        }),
{
}

/// A node is found where it first stands, and only if it is there.
pub proof fn law_find(nodes: Seq<DriverNodeView>, id: Seq<char>, i: int)
    ensures
        0 <= i < nodes.len() && nodes[i].id == id && (forall|j: int|
            0 <= j < i ==> (#[trigger] nodes[j]).id != id) ==> dnode_find(nodes, id) == Some(i),
        (forall|j: int| 0 <= j < nodes.len() ==> (#[trigger] nodes[j]).id != id) ==> dnode_find(nodes, id) is None,
        dnode_find(nodes, id) matches Some(k) ==> 0 <= k < nodes.len() && nodes[k].id == id,
    decreases nodes.len(),
{
    if nodes.len() > 0 {
        let t = nodes.drop_last();
        law_find(t, id, i);
        assert(forall|j: int| 0 <= j < t.len() ==> #[trigger] t[j] == nodes[j]);
        if i == nodes.len() - 1 && forall|j: int| 0 <= j < i ==> (#[trigger] nodes[j]).id != id {
            assert forall|j: int| 0 <= j < t.len() implies (#[trigger] t[j]).id != id by {
                assert(nodes[j].id != id);
            }
        }
        if forall|j: int| 0 <= j < nodes.len() ==> (#[trigger] nodes[j]).id != id {
            assert forall|j: int| 0 <= j < t.len() implies (#[trigger] t[j]).id != id by {
                assert(nodes[j].id != id);
            }
        }
    }
}

/// Deleting nodes takes those that are named and leaves the others.
pub proof fn law_deleted(nodes: Seq<DriverNodeView>, ids: Seq<Seq<char>>, n: DriverNodeView)
    ensures
        without_ids(nodes, ids).contains(n) <==> nodes.contains(n) && !ids.contains(n.id),
{
    lemma_filter_contains(nodes, |n: DriverNodeView| !ids.contains(n.id), n);
}

/// Linking leaves exactly one link into the input, from the output that was
/// named and of its type; all links into other inputs stay, and so do the nodes.
pub proof fn law_connected(
    d: DriverView,
    at: int,
    from_port: Seq<char>,
    to: Seq<char>,
    to_port: Seq<char>,
    l: NodeLinkView,
)
    requires
        0 <= at < d.nodes.len(),
        d.space.next_link_id < u64::MAX,
    ensures
        ({
            let out = connected(d, at, from_port, to, to_port);
            let new = out.space.links.last();
            &&& out.space.links.len() > 0
            &&& new.from_node == d.nodes[at].id && new.from_port == from_port
            &&& new.to_node == to && new.to_port == to_port
            &&& new.id == d.space.next_link_id && out.space.next_link_id == d.space.next_link_id + 1
            &&& new.ty == d.nodes[at].kind.port_type_of(from_port)
            &&& out.space.links.drop_last().contains(l) <==> d.space.links.contains(l) && !(l.to_node == to
                && l.to_port == to_port)
            &&& out.nodes == d.nodes && out.enabled == d.enabled && out.next_node_serial == d.next_node_serial
        }),
{
    let p = |l: NodeLinkView| !crate::driver::ends_at(l, to, to_port);
    let out = connected(d, at, from_port, to, to_port);
    assert(out.space.links.drop_last() =~= d.space.links.filter(p));
    lemma_filter_contains(d.space.links, p, l);
}

/// A copy of a node is like it but for its id, its place and what it shows; the
/// node that was copied, and all others, stay.
pub proof fn law_copied(c: Cloning, id: Seq<char>, shift: spec_fn(Vec2) -> Vec2, i: int)
    requires
        c.serial >= 0,
    ensures
        ({
            let out = clone_step(c, id, shift);
            &&& dnode_find(c.nodes, id) is None ==> out == c
            &&& dnode_find(c.nodes, id) == Some(i) && 0 <= i < c.nodes.len() ==> {
                let m = out.nodes.last();
                &&& out.nodes.len() == c.nodes.len() + 1 && out.nodes.drop_last() == c.nodes
                &&& m.id == "n"@ + crate::text::decimal_of(c.serial as nat) && out.serial == c.serial + 1
                &&& m.pos == shift(c.nodes[i].pos) && m.preview.len() == 0
                &&& m.kind == c.nodes[i].kind && m.bone == c.nodes[i].bone && m.space == c.nodes[i].space
                &&& m.mesh == c.nodes[i].mesh && m.shape == c.nodes[i].shape && m.floats == c.nodes[i].floats
                &&& m.title == c.nodes[i].title
                &&& out.pairs.last().0 == id && out.pairs.last().1 == m.id && out.pairs.drop_last() == c.pairs
            }
        }),
{
    let out = clone_step(c, id, shift);
    if dnode_find(c.nodes, id) == Some(i) && 0 <= i < c.nodes.len() {
        assert(out.nodes.drop_last() =~= c.nodes);
        assert(out.pairs.drop_last() =~= c.pairs);
    }
}

/// When a shape key goes, nodes that drove it drive nothing, and those that
/// drove a later one of the mesh follow it; every other node stays.
pub proof fn law_shape_dropped(n: DriverNodeView, mesh: MeshHandle, index: usize)
    ensures
        ({
            let out = shape_dropped(n, mesh, index);
            let on = n.kind == DriverNodeKind::MorphSet && n.mesh == Some(mesh);
            &&& on && n.shape == index ==> out.mesh is None
            &&& on && n.shape > index ==> out.mesh == n.mesh && out.shape == n.shape - 1
            &&& on && n.shape < index ==> out == n
            &&& !on ==> out == n
            &&& out == (DriverNodeView { mesh: out.mesh, shape: out.shape, ..n })
        }),
{
}

/// Nodes forget bones that are gone, and nothing else.
pub proof fn law_bone_forgotten(n: DriverNodeView, kill: Set<BoneId>, b: BoneId)
    ensures
        n.bone == Some(b) && kill.contains(b) ==> bone_forgotten(n, kill).bone is None,
        n.bone == Some(b) && !kill.contains(b) ==> bone_forgotten(n, kill).bone == Some(b),
        n.bone is None ==> bone_forgotten(n, kill).bone is None,
        bone_forgotten(n, kill) == (DriverNodeView { bone: bone_forgotten(n, kill).bone, ..n }),
{
}

/// A shape key is driven if and only if a driver that is on has a node for it.
pub proof fn law_writes_morph(d: DriverView, mesh: MeshHandle, shape: usize, i: int)
    ensures
        d.enabled && 0 <= i < d.nodes.len() && d.nodes[i].kind == DriverNodeKind::MorphSet && d.nodes[i].mesh
            == Some(mesh) && d.nodes[i].shape == shape ==> writes_morph(d, mesh, shape),
        !d.enabled ==> !writes_morph(d, mesh, shape),
        (forall|k: int|
            0 <= k < d.nodes.len() ==> !((#[trigger] d.nodes[k]).kind == DriverNodeKind::MorphSet && d.nodes[k].mesh
                == Some(mesh) && d.nodes[k].shape == shape)) ==> !writes_morph(d, mesh, shape),
{
}

/// The complaint names the node.
pub proof fn law_unknown_node(a: Seq<char>, b: Seq<char>)
    requires
        unknown_node(a) == unknown_node(b),
    ensures
        a == b,
{
    let p = "unknown node '"@.len() as int;
    let q = "'"@.len() as int;
    let s = unknown_node(a);
    let t = unknown_node(b);
    assert(s.subrange(p, s.len() - q) =~= a);
    assert(t.subrange(p, t.len() - q) =~= b);
}

} // verus!
