//! What stands at the ports of a driver graph is of the type that the ports
//! declare, whatever the host computes.

use vstd::prelude::*;
use crate::bones::BoneView;
use crate::driver::{DriverNodeView, DriverVal, DriverView, NodeLinkView};
use crate::graph::{
    looked_up, node_bone, node_step, passed, port_key, rounds, settled, turns, Host, ROUNDS,
};
use crate::kinds::{DriverNodeKind, PortType};

verus! {

/// The type of port that carries `v`.
pub open spec fn val_type(v: DriverVal) -> PortType {
    match v {
        DriverVal::F(_) => PortType::Float,
        DriverVal::V3(_) => PortType::Vec3,
        DriverVal::Q(_) => PortType::Quat,
    }
}

/// Nodes of this kind write bones or shape keys and have no outputs.
pub open spec fn is_sink(kind: DriverNodeKind) -> bool {
    kind == DriverNodeKind::BoneSet || kind == DriverNodeKind::MorphSet
}

/// Node `n` has something to give: only one that reads a bone can have nothing.
pub open spec fn gives(h: Host, bs: Seq<BoneView>, n: DriverNodeView) -> bool {
    n.kind == DriverNodeKind::BoneGet ==> (node_bone(bs, n) matches Some(b) && (h.trs)(b, n.space) is Some)
}

/// Of one node, different ports keep their values under different names.
pub proof fn lemma_port_keys(id: Seq<char>, port: Seq<char>)
    ensures
        forall|q: Seq<char>| #[trigger] port_key(id, q) == port_key(id, port) ==> q == port,
{
    assert forall|q: Seq<char>| #[trigger] port_key(id, q) == port_key(id, port) implies q == port by {
        reveal_strlit(":");
        let at = id.len() as int + 1;
        assert(port_key(id, q).skip(at) =~= q);
        assert(port_key(id, port).skip(at) =~= port);
    }
}

/// Nothing is put at an output whose type a node does not declare. At every
/// other one stands a value of exactly the declared type once the node had its
/// turn, and sinks declare no output at all.
pub proof fn law_output_type(
    h: Host,
    bs: Seq<BoneView>,
    links: Seq<NodeLinkView>,
    res: Map<Seq<char>, DriverVal>,
    n: DriverNodeView,
    port: Seq<char>,
)
    ensures
        is_sink(n.kind) ==> n.kind.port_type_of(port) == PortType::Any,
        ({
            let out = node_step(h, bs, links, res, n);
            let k = port_key(n.id, port);
            !is_sink(n.kind) ==> {
                &&& n.kind.port_type_of(port) == PortType::Any || !gives(h, bs, n) ==> looked_up(
                    out,
                    k,
                ) == looked_up(res, k)
                &&& n.kind.port_type_of(port) != PortType::Any && gives(h, bs, n) ==> looked_up(
                    out,
                    k,
                ) is Some && val_type(looked_up(out, k)->0) == n.kind.port_type_of(port)
            }
        }),
{
    lemma_port_keys(n.id, port);
    if n.kind == DriverNodeKind::BoneGet {
        reveal_strlit("pos");
        reveal_strlit("rot");
        reveal_strlit("scale");
        assert("pos"@[0] != "rot"@[0] && "pos"@[0] != "scale"@[0] && "rot"@[0] != "scale"@[0]);
    } else if n.kind == DriverNodeKind::QuatToEuler || n.kind == DriverNodeKind::SplitVec3 {
        reveal_strlit("euler");
        reveal_strlit("x");
        reveal_strlit("y");
        reveal_strlit("z");
        assert("x"@[0] != "y"@[0] && "x"@[0] != "z"@[0] && "y"@[0] != "z"@[0]);
        assert("euler"@.len() == 5 && "x"@.len() == 1 && "y"@.len() == 1 && "z"@.len() == 1);
    }
}

/// A node changes values under its own names alone.
pub proof fn lemma_step_local(
    h: Host,
    bs: Seq<BoneView>,
    links: Seq<NodeLinkView>,
    res: Map<Seq<char>, DriverVal>,
    n: DriverNodeView,
    k: Seq<char>,
)
    requires
        forall|q: Seq<char>| k != #[trigger] port_key(n.id, q),
    ensures
        looked_up(node_step(h, bs, links, res, n), k) == looked_up(res, k),
{
    if is_sink(n.kind) {
        let a = passed(links, res, n, "pos"@);
        let b = passed(links, a, n, "rot"@);
        let c = passed(links, b, n, "scale"@);
        assert(looked_up(a, k) == looked_up(res, k));
        assert(looked_up(b, k) == looked_up(a, k));
        assert(looked_up(c, k) == looked_up(b, k));
    }
}

/// `id` can be told from the port behind it.
pub open spec fn plain_id(id: Seq<char>) -> bool {
    forall|i: int| 0 <= i < id.len() ==> #[trigger] id[i] != ':'
}

/// Ids are distinct, and can be told from the ports behind them.
pub open spec fn ids_tell(nodes: Seq<DriverNodeView>) -> bool {
    &&& forall|i: int| 0 <= i < nodes.len() ==> plain_id((#[trigger] nodes[i]).id)
    &&& forall|i: int, j: int|
        0 <= i < j < nodes.len() ==> (#[trigger] nodes[i]).id != (#[trigger] nodes[j]).id
}

pub proof fn lemma_ids_tell(a: Seq<char>, b: Seq<char>, p: Seq<char>, q: Seq<char>)
    requires
        plain_id(a),
        plain_id(b),
        port_key(a, p) == port_key(b, q),
    ensures
        a == b,
{
    reveal_strlit(":");
    let k = port_key(a, p);
    assert(k[a.len() as int] == ':');
    assert(port_key(b, q)[b.len() as int] == ':');
    if a.len() < b.len() {
        assert(k[a.len() as int] == b[a.len() as int]);
    } else if b.len() < a.len() {
        assert(k[b.len() as int] == a[b.len() as int]);
    } else {
        assert(k.take(a.len() as int) =~= a);
        assert(k.take(a.len() as int) =~= b);
    }
}

/// What stands at the ports of node `i`, if anything, is of the declared type.
pub open spec fn typed_at(
    res: Map<Seq<char>, DriverVal>,
    n: DriverNodeView,
    port: Seq<char>,
) -> bool {
    !is_sink(n.kind) ==> match looked_up(res, port_key(n.id, port)) {
        Some(v) => val_type(v) == n.kind.port_type_of(port),
        None => true,
    }
}

proof fn lemma_turns_typed(
    h: Host,
    bs: Seq<BoneView>,
    links: Seq<NodeLinkView>,
    res: Map<Seq<char>, DriverVal>,
    nodes: Seq<DriverNodeView>,
    m: nat,
    i: int,
    port: Seq<char>,
)
    requires
        ids_tell(nodes),
        m <= nodes.len(),
        0 <= i < nodes.len(),
        typed_at(res, nodes[i], port),
    ensures
        typed_at(turns(h, bs, links, res, nodes, m), nodes[i], port),
        i < m && !is_sink(nodes[i].kind) && nodes[i].kind.port_type_of(port) != PortType::Any && gives(
            h,
            bs,
            nodes[i],
        ) ==> looked_up(
            turns(h, bs, links, res, nodes, m),
            port_key(nodes[i].id, port),
        ) is Some,
    decreases m,
{
    if m > 0 {
        lemma_turns_typed(h, bs, links, res, nodes, (m - 1) as nat, i, port);
        let before = turns(h, bs, links, res, nodes, (m - 1) as nat);
        let n = nodes[m - 1];
        let k = port_key(nodes[i].id, port);
        if i == m - 1 {
            law_output_type(h, bs, links, before, n, port);
        } else {
            assert(n.id != nodes[i].id) by {
                if i < m - 1 {
                    assert(nodes[i].id != nodes[m - 1].id);
                } else {
                    assert(nodes[m - 1].id != nodes[i].id);
                }
            }
            assert forall|q: Seq<char>| k != #[trigger] port_key(n.id, q) by {
                if k == port_key(n.id, q) {
                    assert(plain_id(nodes[i].id) && plain_id(nodes[m - 1].id));
                    lemma_ids_tell(nodes[i].id, n.id, port, q);
                }
            }
            lemma_step_local(h, bs, links, before, n, k);
        }
    }
}

proof fn lemma_rounds_typed(
    h: Host,
    bs: Seq<BoneView>,
    links: Seq<NodeLinkView>,
    nodes: Seq<DriverNodeView>,
    r: nat,
    i: int,
    port: Seq<char>,
)
    requires
        ids_tell(nodes),
        0 <= i < nodes.len(),
    ensures
        typed_at(rounds(h, bs, links, nodes, r), nodes[i], port),
        r > 0 && !is_sink(nodes[i].kind) && nodes[i].kind.port_type_of(port) != PortType::Any && gives(
            h,
            bs,
            nodes[i],
        ) ==> looked_up(rounds(h, bs, links, nodes, r), port_key(nodes[i].id, port)) is Some,
    decreases r,
{
    if r > 0 {
        lemma_rounds_typed(h, bs, links, nodes, (r - 1) as nat, i, port);
        lemma_turns_typed(
            h,
            bs,
            links,
            rounds(h, bs, links, nodes, (r - 1) as nat),
            nodes,
            nodes.len(),
            i,
            port,
        );
    }
}

/// Once a driver has settled, what stands at an output of a node is of the type
/// that the output declares, and a value stands at every declared output of a
/// node that has something to give.
pub proof fn law_settled_types(
    h: Host,
    bs: Seq<BoneView>,
    d: DriverView,
    i: int,
    port: Seq<char>,
)
    requires
        ids_tell(d.nodes),
        0 <= i < d.nodes.len(),
        !is_sink(d.nodes[i].kind),
    ensures
        match looked_up(settled(h, bs, d), port_key(d.nodes[i].id, port)) {
            Some(v) => val_type(v) == d.nodes[i].kind.port_type_of(port),
            None => d.nodes[i].kind.port_type_of(port) == PortType::Any || !gives(h, bs, d.nodes[i]),
        },
{
    lemma_rounds_typed(h, bs, d.space.links, d.nodes, ROUNDS as nat, i, port);
}

} // verus!
