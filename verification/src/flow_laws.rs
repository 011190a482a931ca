//! What the nodes of a driver graph compute, kind by kind, and how values flow
//! along the links.

use vstd::prelude::*;
use crate::bones::{has_bone, BoneId, BoneView};
use crate::driver::{DriverNodeView, DriverVal, NodeLinkView};
use crate::geom::{Quat, Scalar, Transform, Vec3};
use crate::graph::{
    bone_op, bone_ops, input_of, looked_up, morph_op, morph_ops, node_step, passed, port_key,
    preview_of, BoneSetOp, Host, MathOp, MorphWrite,
};
use crate::graph_laws::{lemma_port_keys, lemma_step_local};
use crate::kinds::DriverNodeKind;
use crate::order::{less_than, nan};

verus! {

/// Link `i` is the first one into input `port` of `node`.
pub open spec fn first_into(links: Seq<NodeLinkView>, node: Seq<char>, port: Seq<char>, i: int) -> bool {
    &&& 0 <= i < links.len()
    &&& links[i].to_node == node && links[i].to_port == port
    &&& forall|j: int| 0 <= j < i ==> !((#[trigger] links[j]).to_node == node && links[j].to_port == port)
}

/// What arrives at an input is what stands at the output where the first link
/// into it begins; without a link, nothing arrives.
pub proof fn law_arrival(
    links: Seq<NodeLinkView>,
    res: Map<Seq<char>, DriverVal>,
    node: Seq<char>,
    port: Seq<char>,
    i: int,
)
    ensures
        first_into(links, node, port, i) ==> {
            let key = links[i].from_node + ":"@ + links[i].from_port;
            &&& res.contains_key(key) ==> input_of(links, res, node, port) == Some(res[key])
            &&& !res.contains_key(key) ==> input_of(links, res, node, port) is None
        },
        (forall|k: int|
            0 <= k < links.len() ==> !((#[trigger] links[k]).to_node == node && links[k].to_port == port))
            ==> input_of(links, res, node, port) is None,
    decreases links.len(),
{
    if links.len() > 0 {
        let t = links.skip(1);
        law_arrival(t, res, node, port, i - 1);
        if first_into(links, node, port, i) && i > 0 {
            assert(!(links[0].to_node == node && links[0].to_port == port));
            assert(t[i - 1] == links[i]);
            assert forall|j: int| 0 <= j < i - 1 implies !((#[trigger] t[j]).to_node == node
                && t[j].to_port == port) by {
                assert(t[j] == links[j + 1]);
            }
        }
        if forall|k: int|
            0 <= k < links.len() ==> !((#[trigger] links[k]).to_node == node && links[k].to_port == port) {
            assert(!(links[0].to_node == node && links[0].to_port == port));
            assert forall|k: int| 0 <= k < t.len() implies !((#[trigger] t[k]).to_node == node
                && t[k].to_port == port) by {
                assert(t[k] == links[k + 1]);
            }
        }
    }
}

/// `v` read as a number: a vector gives its first part, a rotation and nothing
/// give zero.
pub open spec fn as_number(v: Option<DriverVal>, x: Scalar) -> bool {
    match v {
        Some(DriverVal::F(y)) => x == y,
        Some(DriverVal::V3(w)) => x == w.x,
        Some(DriverVal::Q(_)) => x.bits == 0,
        None => x.bits == 0,
    }
}

/// `v` read as a vector: a number stands for all three parts, a rotation gives
/// its first three, nothing gives zero.
pub open spec fn as_vector(v: Option<DriverVal>, x: Vec3) -> bool {
    match v {
        Some(DriverVal::V3(w)) => x == w,
        Some(DriverVal::F(y)) => x.x == y && x.y == y && x.z == y,
        Some(DriverVal::Q(q)) => x.x == q.x && x.y == q.y && x.z == q.z,
        None => x.x.bits == 0 && x.y.bits == 0 && x.z.bits == 0,
    }
}

/// `v` read as a rotation: everything else is no rotation at all.
pub open spec fn as_turn(v: Option<DriverVal>, q: Quat) -> bool {
    match v {
        Some(DriverVal::Q(p)) => q == p,
        _ => q.x.bits == 0 && q.y.bits == 0 && q.z.bits == 0 && q.w.bits == 0x3F80_0000,
    }
}

/// `x` arrives at input `port` of `n` as a number.
pub open spec fn number_at(
    links: Seq<NodeLinkView>,
    res: Map<Seq<char>, DriverVal>,
    n: DriverNodeView,
    port: Seq<char>,
    x: Scalar,
) -> bool {
    as_number(input_of(links, res, n.id, port), x)
}

/// `v` arrives at input `port` of `n` as a vector.
pub open spec fn vector_at(
    links: Seq<NodeLinkView>,
    res: Map<Seq<char>, DriverVal>,
    n: DriverNodeView,
    port: Seq<char>,
    v: Vec3,
) -> bool {
    as_vector(input_of(links, res, n.id, port), v)
}

/// `q` arrives at input `port` of `n` as a rotation.
pub open spec fn turn_at(
    links: Seq<NodeLinkView>,
    res: Map<Seq<char>, DriverVal>,
    n: DriverNodeView,
    port: Seq<char>,
    q: Quat,
) -> bool {
    as_turn(input_of(links, res, n.id, port), q)
}

/// Output `port` of `n` holds the number `x`.
pub open spec fn holds_number(
    res: Map<Seq<char>, DriverVal>,
    n: DriverNodeView,
    port: Seq<char>,
    x: Scalar,
) -> bool {
    res.contains_key(n.id + ":"@ + port) && res[n.id + ":"@ + port] == DriverVal::F(x)
}

/// Output `port` of `n` holds the vector `v`.
pub open spec fn holds_vector(
    res: Map<Seq<char>, DriverVal>,
    n: DriverNodeView,
    port: Seq<char>,
    v: Vec3,
) -> bool {
    res.contains_key(n.id + ":"@ + port) && res[n.id + ":"@ + port] == DriverVal::V3(v)
}

/// Output `port` of `n` holds the rotation `q`.
pub open spec fn holds_turn(
    res: Map<Seq<char>, DriverVal>,
    n: DriverNodeView,
    port: Seq<char>,
    q: Quat,
) -> bool {
    res.contains_key(n.id + ":"@ + port) && res[n.id + ":"@ + port] == DriverVal::Q(q)
}

/// What the host answers with a number.
pub open spec fn answers_number(h: Host, op: MathOp, x: Scalar) -> bool {
    (h.math)(op) == DriverVal::F(x)
}

pub open spec fn answers_vector(h: Host, op: MathOp, v: Vec3) -> bool {
    (h.math)(op) == DriverVal::V3(v)
}

pub open spec fn answers_turn(h: Host, op: MathOp, q: Quat) -> bool {
    (h.math)(op) == DriverVal::Q(q)
}

/// A Float node holds its own number, a Vec3 node its own three.
pub proof fn law_constants(
    h: Host,
    bs: Seq<BoneView>,
    links: Seq<NodeLinkView>,
    res: Map<Seq<char>, DriverVal>,
    n: DriverNodeView,
)
    ensures
        n.kind == DriverNodeKind::Float ==> holds_number(
            node_step(h, bs, links, res, n),
            n,
            "value"@,
            n.floats[0],
        ),
        n.kind == DriverNodeKind::Vec3 ==> holds_vector(
            node_step(h, bs, links, res, n),
            n,
            "v"@,
            Vec3 { x: n.floats[0], y: n.floats[1], z: n.floats[2] },
        ),
{
}

/// A node of three angles holds the rotation that the host makes of them.
pub proof fn law_euler_to_quat(
    h: Host,
    bs: Seq<BoneView>,
    links: Seq<NodeLinkView>,
    res: Map<Seq<char>, DriverVal>,
    n: DriverNodeView,
    q: Quat,
)
    requires
        n.kind == DriverNodeKind::QuatEuler,
        answers_turn(
            h,
            MathOp::EulerToQuat(Vec3 { x: n.floats[0], y: n.floats[1], z: n.floats[2] }),
            q,
        ),
    ensures
        holds_turn(node_step(h, bs, links, res, n), n, "q"@, q),
{
}

/// Taking a rotation apart gives the host's angles, together and one by one.
pub proof fn law_quat_to_euler(
    h: Host,
    bs: Seq<BoneView>,
    links: Seq<NodeLinkView>,
    res: Map<Seq<char>, DriverVal>,
    n: DriverNodeView,
    q: Quat,
    e: Vec3,
)
    requires
        n.kind == DriverNodeKind::QuatToEuler,
        turn_at(links, res, n, "q"@, q),
        answers_vector(h, MathOp::QuatToEuler(q), e),
    ensures
        holds_vector(node_step(h, bs, links, res, n), n, "euler"@, e),
        holds_number(node_step(h, bs, links, res, n), n, "x"@, e.x),
        holds_number(node_step(h, bs, links, res, n), n, "y"@, e.y),
        holds_number(node_step(h, bs, links, res, n), n, "z"@, e.z),
{
    lemma_axis_ports(n.id);
}

/// The ports of parts keep their values under different names.
proof fn lemma_axis_ports(id: Seq<char>)
    ensures
        port_key(id, "x"@) != port_key(id, "y"@),
        port_key(id, "x"@) != port_key(id, "z"@),
        port_key(id, "y"@) != port_key(id, "z"@),
        port_key(id, "euler"@) != port_key(id, "x"@),
        port_key(id, "euler"@) != port_key(id, "y"@),
        port_key(id, "euler"@) != port_key(id, "z"@),
        port_key(id, "pos"@) != port_key(id, "rot"@),
        port_key(id, "pos"@) != port_key(id, "scale"@),
        port_key(id, "rot"@) != port_key(id, "scale"@),
        port_key(id, "in"@) != port_key(id, "pos"@),
        port_key(id, "in"@) != port_key(id, "rot"@),
        port_key(id, "in"@) != port_key(id, "scale"@),
{
    reveal_strlit("x");
    reveal_strlit("y");
    reveal_strlit("z");
    reveal_strlit("euler");
    reveal_strlit("pos");
    reveal_strlit("rot");
    reveal_strlit("scale");
    reveal_strlit("in");
    lemma_port_keys(id, "x"@);
    lemma_port_keys(id, "y"@);
    lemma_port_keys(id, "z"@);
    lemma_port_keys(id, "rot"@);
    lemma_port_keys(id, "scale"@);
    lemma_port_keys(id, "in"@);
    assert("x"@[0] == 'x' && "y"@[0] == 'y' && "z"@[0] == 'z' && "euler"@[0] == 'e');
    assert("pos"@[0] == 'p' && "rot"@[0] == 'r' && "scale"@[0] == 's' && "in"@[0] == 'i');
}

/// A Get Bone node holds where its bone is in the space it names; without a bone
/// of the rig, or where the host knows none, nothing changes.
pub proof fn law_bone_get(
    h: Host,
    bs: Seq<BoneView>,
    links: Seq<NodeLinkView>,
    res: Map<Seq<char>, DriverVal>,
    n: DriverNodeView,
    b: BoneId,
    t: Transform,
)
    requires
        n.kind == DriverNodeKind::BoneGet,
    ensures
        n.bone == Some(b) && has_bone(bs, b) && (h.trs)(b, n.space) == Some(t) ==> {
            let out = node_step(h, bs, links, res, n);
            &&& holds_vector(out, n, "pos"@, t.translation)
            &&& holds_turn(out, n, "rot"@, t.rotation)
            &&& holds_vector(out, n, "scale"@, t.scale)
        },
        n.bone is None ==> node_step(h, bs, links, res, n) == res,
        n.bone == Some(b) && (!has_bone(bs, b) || (h.trs)(b, n.space) is None) ==> node_step(
            h,
            bs,
            links,
            res,
            n,
        ) == res,
{
    lemma_axis_ports(n.id);
}

/// A Remap node holds the host's remapping of its input, over the span of its
/// own two numbers.
pub proof fn law_remap(
    h: Host,
    bs: Seq<BoneView>,
    links: Seq<NodeLinkView>,
    res: Map<Seq<char>, DriverVal>,
    n: DriverNodeView,
    raw: Scalar,
    x: Scalar,
)
    requires
        n.kind == DriverNodeKind::Remap,
        number_at(links, res, n, "in"@, raw),
        answers_number(h, MathOp::Remap { raw, from: n.floats[0], to: n.floats[1] }, x),
    ensures
        holds_number(node_step(h, bs, links, res, n), n, "out"@, x),
{
}

/// A Map Range node holds the host's mapping of its input, from the span of its
/// first two numbers to that of its last two.
pub proof fn law_map_range(
    h: Host,
    bs: Seq<BoneView>,
    links: Seq<NodeLinkView>,
    res: Map<Seq<char>, DriverVal>,
    n: DriverNodeView,
    raw: Scalar,
    x: Scalar,
)
    requires
        n.kind == DriverNodeKind::MapRange,
        number_at(links, res, n, "in"@, raw),
        answers_number(
            h,
            MathOp::MapRange {
                raw,
                in_from: n.floats[0],
                in_to: n.floats[1],
                out_from: n.floats[2],
                out_to: n.floats[3],
            },
            x,
        ),
    ensures
        holds_number(node_step(h, bs, links, res, n), n, "out"@, x),
{
}

/// A Clamp node hands on what lies between its two numbers, in whichever order
/// they stand, and the nearer bound of what does not.
pub proof fn law_clamp(
    h: Host,
    bs: Seq<BoneView>,
    links: Seq<NodeLinkView>,
    res: Map<Seq<char>, DriverVal>,
    n: DriverNodeView,
    raw: Scalar,
    low: Scalar,
    high: Scalar,
)
    requires
        n.kind == DriverNodeKind::Clamp,
        number_at(links, res, n, "in"@, raw),
        !nan(raw),
        !nan(low),
        !nan(high),
        less_than(low, high),
        (n.floats[0] == low && n.floats[1] == high) || (n.floats[0] == high && n.floats[1] == low),
    ensures
        less_than(raw, low) ==> holds_number(node_step(h, bs, links, res, n), n, "out"@, low),
        less_than(high, raw) ==> holds_number(node_step(h, bs, links, res, n), n, "out"@, high),
        !less_than(raw, low) && !less_than(high, raw) ==> holds_number(
            node_step(h, bs, links, res, n),
            n,
            "out"@,
            raw,
        ),
{
}

/// An Add node holds the host's sum of what arrives at its two inputs.
pub proof fn law_add(
    h: Host,
    bs: Seq<BoneView>,
    links: Seq<NodeLinkView>,
    res: Map<Seq<char>, DriverVal>,
    n: DriverNodeView,
    a: Scalar,
    b: Scalar,
    x: Scalar,
)
    requires
        n.kind == DriverNodeKind::Add,
        number_at(links, res, n, "a"@, a),
        number_at(links, res, n, "b"@, b),
        answers_number(h, MathOp::Add(a, b), x),
    ensures
        holds_number(node_step(h, bs, links, res, n), n, "out"@, x),
{
}

/// A Mul node holds the host's product of what arrives at its two inputs.
pub proof fn law_mul(
    h: Host,
    bs: Seq<BoneView>,
    links: Seq<NodeLinkView>,
    res: Map<Seq<char>, DriverVal>,
    n: DriverNodeView,
    a: Scalar,
    b: Scalar,
    x: Scalar,
)
    requires
        n.kind == DriverNodeKind::Mul,
        number_at(links, res, n, "a"@, a),
        number_at(links, res, n, "b"@, b),
        answers_number(h, MathOp::Mul(a, b), x),
    ensures
        holds_number(node_step(h, bs, links, res, n), n, "out"@, x),
{
}

/// Putting a vector together keeps each part in its place.
pub proof fn law_combine(
    h: Host,
    bs: Seq<BoneView>,
    links: Seq<NodeLinkView>,
    res: Map<Seq<char>, DriverVal>,
    n: DriverNodeView,
    v: Vec3,
)
    requires
        n.kind == DriverNodeKind::CombineVec3,
        number_at(links, res, n, "x"@, v.x),
        number_at(links, res, n, "y"@, v.y),
        number_at(links, res, n, "z"@, v.z),
    ensures
        holds_vector(node_step(h, bs, links, res, n), n, "out"@, v),
{
}

/// Taking a vector apart gives each part under its own name.
pub proof fn law_split(
    h: Host,
    bs: Seq<BoneView>,
    links: Seq<NodeLinkView>,
    res: Map<Seq<char>, DriverVal>,
    n: DriverNodeView,
    v: Vec3,
)
    requires
        n.kind == DriverNodeKind::SplitVec3,
        vector_at(links, res, n, "v"@, v),
    ensures
        holds_number(node_step(h, bs, links, res, n), n, "x"@, v.x),
        holds_number(node_step(h, bs, links, res, n), n, "y"@, v.y),
        holds_number(node_step(h, bs, links, res, n), n, "z"@, v.z),
{
    lemma_axis_ports(n.id);
}

/// A node that adds vectors holds the host's sum of what arrives.
pub proof fn law_vec_add(
    h: Host,
    bs: Seq<BoneView>,
    links: Seq<NodeLinkView>,
    res: Map<Seq<char>, DriverVal>,
    n: DriverNodeView,
    a: Vec3,
    b: Vec3,
    x: Vec3,
)
    requires
        n.kind == DriverNodeKind::Vec3Add,
        vector_at(links, res, n, "a"@, a),
        vector_at(links, res, n, "b"@, b),
        answers_vector(h, MathOp::Vec3Add(a, b), x),
    ensures
        holds_vector(node_step(h, bs, links, res, n), n, "out"@, x),
{
}

/// A node that scales a vector holds the host's answer for vector and factor.
pub proof fn law_vec_scale(
    h: Host,
    bs: Seq<BoneView>,
    links: Seq<NodeLinkView>,
    res: Map<Seq<char>, DriverVal>,
    n: DriverNodeView,
    v: Vec3,
    s: Scalar,
    x: Vec3,
)
    requires
        n.kind == DriverNodeKind::Vec3Scale,
        vector_at(links, res, n, "v"@, v),
        number_at(links, res, n, "s"@, s),
        answers_vector(h, MathOp::Vec3Scale(v, s), x),
    ensures
        holds_vector(node_step(h, bs, links, res, n), n, "out"@, x),
{
}

/// The length and the direction of a vector are the host's.
pub proof fn law_vec_length(
    h: Host,
    bs: Seq<BoneView>,
    links: Seq<NodeLinkView>,
    res: Map<Seq<char>, DriverVal>,
    n: DriverNodeView,
    v: Vec3,
    x: Scalar,
    d: Vec3,
)
    requires
        vector_at(links, res, n, "v"@, v),
    ensures
        n.kind == DriverNodeKind::Vec3Length && answers_number(h, MathOp::Vec3Length(v), x)
            ==> holds_number(node_step(h, bs, links, res, n), n, "out"@, x),
        n.kind == DriverNodeKind::Vec3Normalize && answers_vector(h, MathOp::Vec3Normalize(v), d)
            ==> holds_vector(node_step(h, bs, links, res, n), n, "out"@, d),
{
}

/// A node that multiplies rotations holds the host's product, first input first.
pub proof fn law_quat_mul(
    h: Host,
    bs: Seq<BoneView>,
    links: Seq<NodeLinkView>,
    res: Map<Seq<char>, DriverVal>,
    n: DriverNodeView,
    a: Quat,
    b: Quat,
    x: Quat,
)
    requires
        n.kind == DriverNodeKind::QuatMul,
        turn_at(links, res, n, "a"@, a),
        turn_at(links, res, n, "b"@, b),
        answers_turn(h, MathOp::QuatMul(a, b), x),
    ensures
        holds_turn(node_step(h, bs, links, res, n), n, "out"@, x),
{
}

/// The angle between two rotations is the host's.
pub proof fn law_quat_angle(
    h: Host,
    bs: Seq<BoneView>,
    links: Seq<NodeLinkView>,
    res: Map<Seq<char>, DriverVal>,
    n: DriverNodeView,
    a: Quat,
    b: Quat,
    x: Scalar,
)
    requires
        n.kind == DriverNodeKind::QuatAngle,
        turn_at(links, res, n, "a"@, a),
        turn_at(links, res, n, "b"@, b),
        answers_number(h, MathOp::QuatAngle(a, b), x),
    ensures
        holds_number(node_step(h, bs, links, res, n), n, "out"@, x),
{
}

/// A node that turns a vector holds the host's answer for rotation and vector.
pub proof fn law_rotate_vec(
    h: Host,
    bs: Seq<BoneView>,
    links: Seq<NodeLinkView>,
    res: Map<Seq<char>, DriverVal>,
    n: DriverNodeView,
    q: Quat,
    v: Vec3,
    x: Vec3,
)
    requires
        n.kind == DriverNodeKind::QuatRotateVec,
        turn_at(links, res, n, "q"@, q),
        vector_at(links, res, n, "v"@, v),
        answers_vector(h, MathOp::QuatRotateVec(q, v), x),
    ensures
        holds_vector(node_step(h, bs, links, res, n), n, "out"@, x),
{
}

/// A node that inverts a rotation holds the host's inverse of it.
pub proof fn law_quat_invert(
    h: Host,
    bs: Seq<BoneView>,
    links: Seq<NodeLinkView>,
    res: Map<Seq<char>, DriverVal>,
    n: DriverNodeView,
    q: Quat,
    x: Quat,
)
    requires
        n.kind == DriverNodeKind::QuatInvert,
        turn_at(links, res, n, "q"@, q),
        answers_turn(h, MathOp::QuatInvert(q), x),
    ensures
        holds_turn(node_step(h, bs, links, res, n), n, "out"@, x),
{
}

/// `t` is `raw` where that lies between zero and one, else the nearer of them.
pub open spec fn share_of(raw: Scalar, t: Scalar) -> bool {
    let zero = Scalar { bits: 0 };
    let one = Scalar { bits: 0x3F80_0000 };
    if less_than(raw, zero) {
        t == zero
    } else if less_than(one, raw) {
        t == one
    } else {
        t == raw
    }
}

/// A node that weakens a rotation asks the host for it with a weight between
/// zero and one: the one that arrives, or its own number where none does.
pub proof fn law_quat_scale(
    h: Host,
    bs: Seq<BoneView>,
    links: Seq<NodeLinkView>,
    res: Map<Seq<char>, DriverVal>,
    n: DriverNodeView,
    q: Quat,
    raw: Scalar,
    t: Scalar,
    x: Quat,
)
    requires
        n.kind == DriverNodeKind::QuatScale,
        turn_at(links, res, n, "q"@, q),
        input_of(links, res, n.id, "t"@) is Some ==> number_at(links, res, n, "t"@, raw),
        input_of(links, res, n.id, "t"@) is None ==> raw == n.floats[0],
        share_of(raw, t),
        answers_turn(h, MathOp::QuatScale(q, t), x),
    ensures
        holds_turn(node_step(h, bs, links, res, n), n, "out"@, x),
{
}

/// `port` is one where a sink takes a value.
pub open spec fn sink_port(port: Seq<char>) -> bool {
    port == "pos"@ || port == "rot"@ || port == "scale"@ || port == "in"@
}

/// A node that writes keeps what arrives at each of its inputs, unless it is
/// linked to itself; where nothing arrives, what it kept stays.
pub proof fn law_sink(
    h: Host,
    bs: Seq<BoneView>,
    links: Seq<NodeLinkView>,
    res: Map<Seq<char>, DriverVal>,
    n: DriverNodeView,
    port: Seq<char>,
)
    requires
        n.kind == DriverNodeKind::BoneSet || n.kind == DriverNodeKind::MorphSet,
        sink_port(port),
        from_others(links, n.id),
    ensures
        match input_of(links, res, n.id, port) {
            Some(v) => looked_up(node_step(h, bs, links, res, n), port_key(n.id, port)) == Some(v),
            None => looked_up(node_step(h, bs, links, res, n), port_key(n.id, port)) == looked_up(
                res,
                port_key(n.id, port),
            ),
        },
{
    lemma_axis_ports(n.id);
    let a = passed(links, res, n, "pos"@);
    let b = passed(links, a, n, "rot"@);
    let c = passed(links, b, n, "scale"@);
    let p = port;
    lemma_input_same(links, res, a, n.id, p);
    lemma_input_same(links, res, a, n.id, "rot"@);
    lemma_input_same(links, a, b, n.id, p);
    lemma_input_same(links, a, b, n.id, "scale"@);
    lemma_input_same(links, res, a, n.id, "scale"@);
    lemma_input_same(links, b, c, n.id, p);
    lemma_input_same(links, b, c, n.id, "in"@);
    lemma_input_same(links, a, b, n.id, "in"@);
    lemma_input_same(links, res, a, n.id, "in"@);
}

/// No link leads from node `id` to itself.
pub open spec fn from_others(links: Seq<NodeLinkView>, id: Seq<char>) -> bool {
    forall|i: int, q: Seq<char>|
        0 <= i < links.len() && links[i].to_node == id ==> port_key(
            (#[trigger] links[i]).from_node,
            links[i].from_port,
        ) != #[trigger] port_key(id, q)
}

/// Inputs do not change where only values of node `id` did.
proof fn lemma_input_same(
    links: Seq<NodeLinkView>,
    a: Map<Seq<char>, DriverVal>,
    b: Map<Seq<char>, DriverVal>,
    id: Seq<char>,
    port: Seq<char>,
)
    requires
        from_others(links, id),
        forall|k: Seq<char>|
            (forall|q: Seq<char>| k != #[trigger] port_key(id, q)) ==> #[trigger] looked_up(a, k)
                == looked_up(b, k),
    ensures
        input_of(links, a, id, port) == input_of(links, b, id, port),
    decreases links.len(),
{
    if links.len() > 0 {
        let t = links.skip(1);
        assert(from_others(t, id)) by {
            assert forall|i: int, q: Seq<char>| 0 <= i < t.len() && t[i].to_node == id implies port_key(
                (#[trigger] t[i]).from_node,
                t[i].from_port,
            ) != #[trigger] port_key(id, q) by {
                assert(t[i] == links[i + 1]);
            }
        }
        lemma_input_same(t, a, b, id, port);
        if links[0].to_node == id && links[0].to_port == port {
            let k = port_key(links[0].from_node, links[0].from_port);
            assert(forall|q: Seq<char>| k != #[trigger] port_key(id, q));
            assert(looked_up(a, k) == looked_up(b, k));
        }
    }
}

/// A node changes nothing but what stands at its own ports.
pub proof fn law_step_local(
    h: Host,
    bs: Seq<BoneView>,
    links: Seq<NodeLinkView>,
    res: Map<Seq<char>, DriverVal>,
    n: DriverNodeView,
    k: Seq<char>,
)
    requires
        forall|q: Seq<char>| k != #[trigger] port_key(n.id, q),
    ensures
        looked_up(node_step(h, bs, links, res, n), k) == looked_up(res, k),
{
    lemma_step_local(h, bs, links, res, n, k);
}

/// The value that stands at port `port` of `n`, if one does.
pub open spec fn standing(res: Map<Seq<char>, DriverVal>, n: DriverNodeView, port: Seq<char>) -> Option<
    DriverVal,
> {
    if res.contains_key(n.id + ":"@ + port) {
        Some(res[n.id + ":"@ + port])
    } else {
        None
    }
}

/// `n` is a Set Bone node that makes the write `op`: on its bone, in its space,
/// with what stands at its three inputs.
pub open spec fn makes_bone_write(
    bs: Seq<BoneView>,
    res: Map<Seq<char>, DriverVal>,
    n: DriverNodeView,
    op: BoneSetOp,
) -> bool {
    let pos = standing(res, n, "pos"@);
    let rot = standing(res, n, "rot"@);
    let scale = standing(res, n, "scale"@);
    &&& n.kind == DriverNodeKind::BoneSet
    &&& n.bone == Some(op.bone) && has_bone(bs, op.bone)
    &&& op.space == n.space
    &&& (op.pos is Some <==> pos is Some) && (op.pos matches Some(v) ==> as_vector(pos, v))
    &&& (op.rot is Some <==> rot is Some) && (op.rot matches Some(q) ==> as_turn(rot, q))
    &&& (op.scale is Some <==> scale is Some) && (op.scale matches Some(v) ==> as_vector(scale, v))
    &&& op.pos is Some || op.rot is Some || op.scale is Some
}

/// The bone writes of a graph are those of its Set Bone nodes, and no others.
pub proof fn law_bone_writes(
    bs: Seq<BoneView>,
    res: Map<Seq<char>, DriverVal>,
    nodes: Seq<DriverNodeView>,
    m: nat,
    op: BoneSetOp,
)
    requires
        m <= nodes.len(),
    ensures
        bone_ops(bs, res, nodes, m).contains(op) <==> exists|i: int|
            0 <= i < m && makes_bone_write(bs, res, #[trigger] nodes[i], op),
    decreases m,
{
    if m > 0 {
        law_bone_writes(bs, res, nodes, (m - 1) as nat, op);
        let n = nodes[m - 1];
        let before = bone_ops(bs, res, nodes, (m - 1) as nat);
        assert(makes_bone_write(bs, res, n, op) <==> bone_op(bs, res, n) == Some(op)) by {
            if makes_bone_write(bs, res, n, op) {
                assert(bone_op(bs, res, n) is Some);
            }
        }
        lemma_push_contains(before, bone_op(bs, res, n), op);
        if exists|i: int| 0 <= i < m - 1 && makes_bone_write(bs, res, #[trigger] nodes[i], op) {
            let i = choose|i: int| 0 <= i < m - 1 && makes_bone_write(bs, res, #[trigger] nodes[i], op);
            assert(0 <= i < m && makes_bone_write(bs, res, nodes[i], op));
        }
        if exists|i: int| 0 <= i < m && makes_bone_write(bs, res, #[trigger] nodes[i], op) {
            let i = choose|i: int| 0 <= i < m && makes_bone_write(bs, res, #[trigger] nodes[i], op);
            if i < m - 1 {
                assert(0 <= i < m - 1 && makes_bone_write(bs, res, nodes[i], op));
            }
        }
    }
}

proof fn lemma_push_contains<A>(s: Seq<A>, o: Option<A>, x: A)
    ensures
        ({
            let t = match o {
                Some(y) => s.push(y),
                None => s,
            };
            t.contains(x) <==> s.contains(x) || o == Some(x)
        }),
{
    match o {
        Some(y) => {
            let t = s.push(y);
            if s.contains(x) {
                let k = choose|k: int| 0 <= k < s.len() && s[k] == x;
                assert(t[k] == x);
            }
            if y == x {
                assert(t[s.len() as int] == x);
            }
            if t.contains(x) && y != x {
                let k = choose|k: int| 0 <= k < t.len() && t[k] == x;
                assert(s[k] == x);
            }
        },
        None => {},
    }
}

/// `n` is a Set Morph node that makes the write `w`: to its shape key, with what
/// stands at its input, kept between zero and one.
pub open spec fn makes_morph_write(
    res: Map<Seq<char>, DriverVal>,
    n: DriverNodeView,
    w: MorphWrite,
) -> bool {
    &&& n.kind == DriverNodeKind::MorphSet
    &&& n.mesh == Some(w.mesh)
    &&& w.shape == n.shape
    &&& standing(res, n, "in"@) is Some
    &&& exists|raw: Scalar|
        #[trigger] as_number(standing(res, n, "in"@), raw) && share_of(raw, w.weight)
}

/// The shape key writes of a graph are those of its Set Morph nodes, and no
/// others.
pub proof fn law_morph_writes(
    res: Map<Seq<char>, DriverVal>,
    nodes: Seq<DriverNodeView>,
    m: nat,
    w: MorphWrite,
)
    requires
        m <= nodes.len(),
    ensures
        morph_ops(res, nodes, m).contains(w) <==> exists|i: int|
            0 <= i < m && makes_morph_write(res, #[trigger] nodes[i], w),
    decreases m,
{
    if m > 0 {
        law_morph_writes(res, nodes, (m - 1) as nat, w);
        let n = nodes[m - 1];
        let before = morph_ops(res, nodes, (m - 1) as nat);
        assert(makes_morph_write(res, n, w) <==> morph_op(res, n) == Some(w)) by {
            let v = standing(res, n, "in"@);
            if v is Some {
                assert(as_number(v, v->0.to_f()));
            }
            if makes_morph_write(res, n, w) {
                let raw = choose|raw: Scalar| #[trigger] as_number(v, raw) && share_of(raw, w.weight);
                assert(raw == v->0.to_f());
            }
        }
        lemma_push_contains(before, morph_op(res, n), w);
        if exists|i: int| 0 <= i < m - 1 && makes_morph_write(res, #[trigger] nodes[i], w) {
            let i = choose|i: int| 0 <= i < m - 1 && makes_morph_write(res, #[trigger] nodes[i], w);
            assert(0 <= i < m && makes_morph_write(res, nodes[i], w));
        }
        if exists|i: int| 0 <= i < m && makes_morph_write(res, #[trigger] nodes[i], w) {
            let i = choose|i: int| 0 <= i < m && makes_morph_write(res, #[trigger] nodes[i], w);
            if i < m - 1 {
                assert(0 <= i < m - 1 && makes_morph_write(res, nodes[i], w));
            }
        }
    }
}

/// A node shows what stands at its main port, or nothing where nothing stands
/// there: a node that reads or writes a bone its rotation, one that drives a
/// shape key its input, one that takes a vector apart the vector, every node
/// with one result that result.
pub proof fn law_preview(h: Host, res: Map<Seq<char>, DriverVal>, n: DriverNodeView, port: Seq<char>, v: DriverVal)
    requires
        match n.kind {
            DriverNodeKind::Float => port == "value"@,
            DriverNodeKind::Vec3 => port == "v"@,
            DriverNodeKind::QuatEuler => port == "q"@,
            DriverNodeKind::QuatToEuler => port == "euler"@,
            DriverNodeKind::BoneGet | DriverNodeKind::BoneSet => port == "rot"@,
            DriverNodeKind::MorphSet => port == "in"@,
            DriverNodeKind::SplitVec3 => false,
            _ => port == "out"@,
        },
    ensures
        standing(res, n, port) == Some(v) ==> preview_of(h, res, n) == (h.show)(v),
        standing(res, n, port) is None ==> preview_of(h, res, n).len() == 0,
{
}

/// What a node that takes a vector apart shows are the three parts.
pub proof fn law_split_preview(h: Host, res: Map<Seq<char>, DriverVal>, n: DriverNodeView, v: Vec3)
    requires
        n.kind == DriverNodeKind::SplitVec3,
        holds_number(res, n, "x"@, v.x),
        holds_number(res, n, "y"@, v.y),
        holds_number(res, n, "z"@, v.z),
    ensures
        preview_of(h, res, n) == (h.show)(DriverVal::V3(v)),
{
}

} // verus!
