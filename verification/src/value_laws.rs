//! How the values of drivers are read, and how a driver works through its nodes.

use vstd::prelude::*;
use crate::bones::BoneView;
use crate::driver::{DriverNodeView, DriverVal, DriverView, NodeLinkView};
use crate::geom::{mat_identity, quat_identity, vec3_splat, Quat, Scalar, Vec3};
use crate::graph::{
    bone_op, f_of, looked_up, morph_op, node_bone, node_step, port_key, preview_port, q_of, rounds, settled, shape_weight,
    turns, v3_of, Host,
};
use crate::kinds::DriverNodeKind;
use crate::order::{less_than, nan};

verus! {

/// A number reads as itself; a vector reads as its first part; a rotation reads
/// as no number.
pub proof fn law_read_number(x: Scalar, v: Vec3, q: Quat)
    ensures
        DriverVal::F(x).to_f() == x,
        DriverVal::V3(v).to_f() == v.x,
        DriverVal::Q(q).to_f() == (Scalar { bits: 0 }),
        f_of(None) == (Scalar { bits: 0 }),
        f_of(Some(DriverVal::F(x))) == x,
{
}

/// A vector reads as itself; a number stands in all three places; a rotation
/// gives up its last part.
pub proof fn law_read_vector(x: Scalar, v: Vec3, q: Quat)
    ensures
        DriverVal::V3(v).to_v3() == v,
        DriverVal::F(x).to_v3() == (Vec3 { x, y: x, z: x }),
        DriverVal::Q(q).to_v3() == (Vec3 { x: q.x, y: q.y, z: q.z }),
        v3_of(None) == (Vec3 { x: Scalar { bits: 0 }, y: Scalar { bits: 0 }, z: Scalar { bits: 0 } }),
        v3_of(Some(DriverVal::V3(v))) == v,
        vec3_splat(x) == (Vec3 { x, y: x, z: x }),
{
}

/// A rotation reads as itself, anything else as no turn at all.
pub proof fn law_read_rotation(x: Scalar, v: Vec3, q: Quat)
    ensures
        DriverVal::Q(q).to_q() == q,
        ({
            let none = Quat {
                x: Scalar { bits: 0 },
                y: Scalar { bits: 0 },
                z: Scalar { bits: 0 },
                w: Scalar { bits: 0x3F80_0000 },
            };
            &&& DriverVal::F(x).to_q() == none
            &&& DriverVal::V3(v).to_q() == none
            &&& q_of(None) == none
            &&& quat_identity() == none
        }),
        q_of(Some(DriverVal::Q(q))) == q,
{
}

/// The matrix that changes nothing has ones on its diagonal and zeros elsewhere.
pub proof fn law_identity()
    ensures
        ({
            let m = mat_identity();
            let one = Scalar { bits: 0x3F80_0000 };
            let zero = Scalar { bits: 0 };
            &&& m.x_axis.x == one && m.y_axis.y == one && m.z_axis.z == one && m.w_axis.w == one
            &&& m.x_axis.y == zero && m.x_axis.z == zero && m.x_axis.w == zero
            &&& m.y_axis.x == zero && m.y_axis.z == zero && m.y_axis.w == zero
            &&& m.z_axis.x == zero && m.z_axis.y == zero && m.z_axis.w == zero
            &&& m.w_axis.x == zero && m.w_axis.y == zero && m.w_axis.z == zero
        }),
{
}

/// Each round gives every node one turn, in their order, and each turn starts
/// from what the last one left.
pub proof fn law_rounds(
    h: Host,
    bs: Seq<BoneView>,
    links: Seq<NodeLinkView>,
    res: Map<Seq<char>, DriverVal>,
    nodes: Seq<DriverNodeView>,
    k: nat,
    i: nat,
)
    requires
        i < nodes.len(),
    ensures
        rounds(h, bs, links, nodes, 0) == Map::<Seq<char>, DriverVal>::empty(),
        turns(h, bs, links, res, nodes, 0) == res,
        turns(h, bs, links, res, nodes, i + 1) == node_step(
            h,
            bs,
            links,
            turns(h, bs, links, res, nodes, i),
            nodes[i as int],
        ),
        rounds(h, bs, links, nodes, k + 1) == turns(h, bs, links, rounds(h, bs, links, nodes, k), nodes, nodes.len()),
{
}

/// Sixteen rounds settle a driver.
pub proof fn law_sixteen(h: Host, bs: Seq<BoneView>, d: DriverView)
    ensures
        settled(h, bs, d) == rounds(h, bs, d.space.links, d.nodes, 16),
{
}

/// A node that names a bone which is gone has none.
pub proof fn law_node_bone(bs: Seq<BoneView>, n: DriverNodeView, i: int)
    requires
        crate::bones::distinct(bs),
    ensures
        n.bone is None ==> node_bone(bs, n) is None,
        0 <= i < bs.len() && n.bone == Some(bs[i].id) ==> node_bone(bs, n) == n.bone,
        (forall|j: int| 0 <= j < bs.len() ==> n.bone != Some((#[trigger] bs[j]).id)) ==> node_bone(bs, n) is None,
{
    if 0 <= i < bs.len() {
        assert(crate::bones::bone_at(bs, bs[i].id, i));
    }
    if node_bone(bs, n) is Some {
        let b = n.bone->0;
        let j = choose|j: int| crate::bones::bone_at(bs, b, j);
        assert(bs[j].id == b);
    }
}

/// What a Set Bone node writes: the bone and space are its own, and each part is
/// the value at the port of that name; where no value is there nothing is written.
pub proof fn law_bone_op(bs: Seq<BoneView>, res: Map<Seq<char>, DriverVal>, n: DriverNodeView)
    ensures
        n.kind != DriverNodeKind::BoneSet ==> bone_op(bs, res, n) is None,
        node_bone(bs, n) is None ==> bone_op(bs, res, n) is None,
        bone_op(bs, res, n) matches Some(op) ==> {
            &&& Some(op.bone) == n.bone && op.space == n.space
            &&& (op.pos is Some <==> looked_up(res, port_key(n.id, "pos"@)) is Some)
            &&& (op.rot is Some <==> looked_up(res, port_key(n.id, "rot"@)) is Some)
            &&& (op.scale is Some <==> looked_up(res, port_key(n.id, "scale"@)) is Some)
            &&& looked_up(res, port_key(n.id, "pos"@)) matches Some(DriverVal::V3(v)) ==> op.pos == Some(v)
            &&& looked_up(res, port_key(n.id, "rot"@)) matches Some(DriverVal::Q(q)) ==> op.rot == Some(q)
            &&& looked_up(res, port_key(n.id, "scale"@)) matches Some(DriverVal::V3(v)) ==> op.scale == Some(v)
        },
        n.kind == DriverNodeKind::BoneSet && node_bone(bs, n) is Some && looked_up(res, port_key(n.id, "rot"@)) is Some
            ==> bone_op(bs, res, n) is Some,
        n.kind == DriverNodeKind::BoneSet && node_bone(bs, n) is Some && looked_up(res, port_key(n.id, "pos"@)) is Some
            ==> bone_op(bs, res, n) is Some,
        n.kind == DriverNodeKind::BoneSet && node_bone(bs, n) is Some && looked_up(
            res,
            port_key(n.id, "scale"@),
        ) is Some ==> bone_op(bs, res, n) is Some,
{
}

/// What a Set Morph node writes: mesh and shape key are its own, and it writes
/// where a value stands at its input.
pub proof fn law_morph_op(res: Map<Seq<char>, DriverVal>, n: DriverNodeView)
    ensures
        morph_op(res, n) is Some <==> n.kind == DriverNodeKind::MorphSet && n.mesh is Some && looked_up(
            res,
            port_key(n.id, "in"@),
        ) is Some,
        morph_op(res, n) matches Some(w) ==> Some(w.mesh) == n.mesh && w.shape == n.shape,
{
}

/// Where a node has a value to show, it stands at the port of that name.
pub proof fn law_preview_port(k: DriverNodeKind)
    ensures
        k == DriverNodeKind::Float ==> preview_port(k) == "value"@,
        k == DriverNodeKind::Vec3 ==> preview_port(k) == "v"@,
        k == DriverNodeKind::QuatEuler ==> preview_port(k) == "q"@,
        k == DriverNodeKind::QuatToEuler ==> preview_port(k) == "euler"@,
        k == DriverNodeKind::BoneGet || k == DriverNodeKind::BoneSet ==> preview_port(k) == "rot"@,
        k == DriverNodeKind::MorphSet ==> preview_port(k) == "in"@,
        k == DriverNodeKind::Add || k == DriverNodeKind::Mul || k == DriverNodeKind::Clamp || k == DriverNodeKind::Remap
            || k == DriverNodeKind::QuatMul ==> preview_port(k) == "out"@,
{
}

/// Weights are kept between nothing and one, and stay where they lie there.
pub proof fn law_shape_weight(w: Scalar)
    requires
        !nan(w),
    ensures
        ({
            let zero = Scalar { bits: 0 };
            let one = Scalar { bits: 0x3F80_0000 };
            &&& !less_than(shape_weight(w), zero) && !less_than(one, shape_weight(w))
            &&& !less_than(w, zero) && !less_than(one, w) ==> shape_weight(w) == w
            &&& less_than(w, zero) ==> shape_weight(w) == zero
            &&& less_than(one, w) ==> shape_weight(w) == one
        }),
{
}

} // verus!
