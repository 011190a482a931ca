//! Evaluating driver graphs. Values flow along links until they settle; the
//! arithmetic itself, reading poses and printing numbers are the host's, handed
//! in as functions.

use vstd::prelude::*;
use crate::bones::{has_bone, BoneId, BoneView};
use crate::driver::{
    ends_at, links_view, DriverNode, DriverNodeView, DriverVal, DriverView, NodeLink, NodeLinkView,
};
use crate::geom::{
    identity_quat, quat_identity, scalar, scalar_of, splat3, vec3_splat, Quat, Scalar, Transform,
    Vec3, BITS_ONE, BITS_ZERO,
};
use crate::kinds::{DriverNodeKind, DriverSpace};
use crate::order::{held_between, hold_between, larger, nan, smaller};
use crate::rig::RigDocument;
use crate::scene::MeshHandle;
use crate::text::{join, same_text};

verus! {

/// How often values are passed along the links.
pub const ROUNDS: usize = 16;

/// One piece of arithmetic for the host.
#[derive(Clone, Copy, Debug, PartialEq, Eq, Structural)]
pub enum MathOp {
    /// Euler degrees (x, y, z), applied in YXZ order, to a unit quaternion.
    EulerToQuat(Vec3),
    /// A quaternion, normalized first, to Euler degrees.
    QuatToEuler(Quat),
    /// `raw` from the span `from..to` to `0..1`.
    Remap { raw: Scalar, from: Scalar, to: Scalar },
    /// `raw` from one span to another.
    MapRange { raw: Scalar, in_from: Scalar, in_to: Scalar, out_from: Scalar, out_to: Scalar },
    Add(Scalar, Scalar),
    Mul(Scalar, Scalar),
    Vec3Add(Vec3, Vec3),
    Vec3Scale(Vec3, Scalar),
    Vec3Length(Vec3),
    Vec3Normalize(Vec3),
    QuatMul(Quat, Quat),
    QuatRotateVec(Quat, Vec3),
    QuatInvert(Quat),
    /// Influence `t` of a rotation, `t` being between 0 and 1.
    QuatScale(Quat, Scalar),
    /// Degrees between two quaternions.
    QuatAngle(Quat, Quat),
}

/// What the host computes, as mathematical functions.
pub struct Host {
    pub math: spec_fn(MathOp) -> DriverVal,
    pub trs: spec_fn(BoneId, DriverSpace) -> Option<Transform>,
    pub show: spec_fn(DriverVal) -> Seq<char>,
}

/// The functions handed in compute what `h` says.
pub open spec fn hosted<
    M: Fn(MathOp) -> DriverVal,
    T: Fn(BoneId, DriverSpace) -> Option<Transform>,
>(math: M, trs: T, h: Host) -> bool {
    &&& forall|op: MathOp, out: DriverVal| #[trigger] call_ensures(math, (op,), out) ==> out == (h.math)(op)
    &&& forall|b: BoneId, s: DriverSpace, out: Option<Transform>| #[trigger]
        call_ensures(trs, (b, s), out) ==> out == (h.trs)(b, s)
}

/// The function handed in prints as `h` says.
pub open spec fn shown<S: Fn(DriverVal) -> String>(show: S, h: Host) -> bool {
    forall|v: DriverVal, out: String| #[trigger] call_ensures(show, (v,), out) ==> out@ == (h.show)(v)
}

/// `raw` kept between `a` and `b`, whichever is lower.
pub open spec fn clamped(raw: Scalar, a: Scalar, b: Scalar) -> Scalar {
    held_between(raw, smaller(a, b), larger(a, b))
}

/// `raw` kept between `a` and `b`, whichever is lower.
fn keep_clamped(raw: Scalar, a: Scalar, b: Scalar) -> (r: Scalar)
    ensures
        r == clamped(raw, a, b),
{
    hold_between(raw, a.or_smaller(&b), a.or_larger(&b))
}

/// Every Clamp node of the driver has a bound that is a number.
pub open spec fn bounded(d: DriverView) -> bool {
    forall|i: int|
        0 <= i < d.nodes.len() && (#[trigger] d.nodes[i]).kind == DriverNodeKind::Clamp ==> !(nan(
            d.nodes[i].floats[0],
        ) && nan(d.nodes[i].floats[1]))
}

/// The name under which the value of a port is kept.
pub open spec fn port_key(node: Seq<char>, port: Seq<char>) -> Seq<char> {
    node + ":"@ + port
}

pub open spec fn looked_up(res: Map<Seq<char>, DriverVal>, key: Seq<char>) -> Option<DriverVal> {
    if res.contains_key(key) {
        Some(res[key])
    } else {
        None
    }
}

/// The value that arrives at an input: that of the output from which the first
/// link to it comes.
pub open spec fn input_of(
    links: Seq<NodeLinkView>,
    res: Map<Seq<char>, DriverVal>,
    node: Seq<char>,
    port: Seq<char>,
) -> Option<DriverVal>
    decreases links.len(),
{
    if links.len() == 0 {
        None
    } else if ends_at(links[0], node, port) {
        looked_up(res, port_key(links[0].from_node, links[0].from_port))
    } else {
        input_of(links.skip(1), res, node, port)
    }
}

pub open spec fn f_of(v: Option<DriverVal>) -> Scalar {
    match v {
        Some(v) => v.to_f(),
        None => scalar_of(BITS_ZERO),
    }
}

pub open spec fn v3_of(v: Option<DriverVal>) -> Vec3 {
    match v {
        Some(v) => v.to_v3(),
        None => vec3_splat(scalar_of(BITS_ZERO)),
    }
}

pub open spec fn q_of(v: Option<DriverVal>) -> Quat {
    match v {
        Some(v) => v.to_q(),
        None => quat_identity(),
    }
}

/// `res` with a value at output `port` of node `n`.
pub open spec fn put(
    res: Map<Seq<char>, DriverVal>,
    n: DriverNodeView,
    port: Seq<char>,
    v: DriverVal,
) -> Map<Seq<char>, DriverVal> {
    res.insert(port_key(n.id, port), v)
}

/// `res` with the value that arrives at input `port` of `n` kept there, if one does.
pub open spec fn passed(
    links: Seq<NodeLinkView>,
    res: Map<Seq<char>, DriverVal>,
    n: DriverNodeView,
    port: Seq<char>,
) -> Map<Seq<char>, DriverVal> {
    match input_of(links, res, n.id, port) {
        Some(v) => put(res, n, port, v),
        None => res,
    }
}

/// The bone that a node names, if it is one.
pub open spec fn node_bone(bs: Seq<BoneView>, n: DriverNodeView) -> Option<BoneId> {
    match n.bone {
        Some(b) => if has_bone(bs, b) {
            Some(b)
        } else {
            None
        },
        None => None,
    }
}

/// The values after node `n` had its turn.
pub open spec fn node_step(
    h: Host,
    bs: Seq<BoneView>,
    links: Seq<NodeLinkView>,
    res: Map<Seq<char>, DriverVal>,
    n: DriverNodeView,
) -> Map<Seq<char>, DriverVal> {
    let at = |port: Seq<char>| input_of(links, res, n.id, port);
    let num = |op: MathOp| DriverVal::F((h.math)(op).to_f());
    let vec = |op: MathOp| DriverVal::V3((h.math)(op).to_v3());
    let rot = |op: MathOp| DriverVal::Q((h.math)(op).to_q());
    let fl = n.floats;
    match n.kind {
        DriverNodeKind::Float => put(res, n, "value"@, DriverVal::F(fl[0])),
        DriverNodeKind::Vec3 => put(
            res,
            n,
            "v"@,
            DriverVal::V3(Vec3 { x: fl[0], y: fl[1], z: fl[2] }),
        ),
        DriverNodeKind::QuatEuler => put(
            res,
            n,
            "q"@,
            rot(MathOp::EulerToQuat(Vec3 { x: fl[0], y: fl[1], z: fl[2] })),
        ),
        DriverNodeKind::QuatToEuler => {
            let e = (h.math)(MathOp::QuatToEuler(q_of(at("q"@)))).to_v3();
            let a = put(res, n, "euler"@, DriverVal::V3(e));
            let b = put(a, n, "x"@, DriverVal::F(e.x));
            let c = put(b, n, "y"@, DriverVal::F(e.y));
            put(c, n, "z"@, DriverVal::F(e.z))
        },
        DriverNodeKind::BoneGet => match node_bone(bs, n) {
            None => res,
            Some(bone) => match (h.trs)(bone, n.space) {
                None => res,
                Some(t) => {
                    let a = put(res, n, "pos"@, DriverVal::V3(t.translation));
                    let b = put(a, n, "rot"@, DriverVal::Q(t.rotation));
                    put(b, n, "scale"@, DriverVal::V3(t.scale))
                },
            },
        },
        DriverNodeKind::Remap => put(
            res,
            n,
            "out"@,
            num(MathOp::Remap { raw: f_of(at("in"@)), from: fl[0], to: fl[1] }),
        ),
        DriverNodeKind::MapRange => put(
            res,
            n,
            "out"@,
            num(
                MathOp::MapRange {
                    raw: f_of(at("in"@)),
                    in_from: fl[0],
                    in_to: fl[1],
                    out_from: fl[2],
                    out_to: fl[3],
                },
            ),
        ),
        DriverNodeKind::Clamp => put(
            res,
            n,
            "out"@,
            DriverVal::F(clamped(f_of(at("in"@)), fl[0], fl[1])),
        ),
        DriverNodeKind::Add => put(res, n, "out"@, num(MathOp::Add(f_of(at("a"@)), f_of(at("b"@))))),
        DriverNodeKind::Mul => put(res, n, "out"@, num(MathOp::Mul(f_of(at("a"@)), f_of(at("b"@))))),
        DriverNodeKind::CombineVec3 => put(
            res,
            n,
            "out"@,
            DriverVal::V3(Vec3 { x: f_of(at("x"@)), y: f_of(at("y"@)), z: f_of(at("z"@)) }),
        ),
        DriverNodeKind::SplitVec3 => {
            let v = v3_of(at("v"@));
            let a = put(res, n, "x"@, DriverVal::F(v.x));
            let b = put(a, n, "y"@, DriverVal::F(v.y));
            put(b, n, "z"@, DriverVal::F(v.z))
        },
        DriverNodeKind::Vec3Add => put(
            res,
            n,
            "out"@,
            vec(MathOp::Vec3Add(v3_of(at("a"@)), v3_of(at("b"@)))),
        ),
        DriverNodeKind::Vec3Scale => put(
            res,
            n,
            "out"@,
            vec(MathOp::Vec3Scale(v3_of(at("v"@)), f_of(at("s"@)))),
        ),
        DriverNodeKind::Vec3Length => put(res, n, "out"@, num(MathOp::Vec3Length(v3_of(at("v"@))))),
        DriverNodeKind::Vec3Normalize => put(
            res,
            n,
            "out"@,
            vec(MathOp::Vec3Normalize(v3_of(at("v"@)))),
        ),
        DriverNodeKind::QuatMul => put(
            res,
            n,
            "out"@,
            rot(MathOp::QuatMul(q_of(at("a"@)), q_of(at("b"@)))),
        ),
        DriverNodeKind::QuatRotateVec => put(
            res,
            n,
            "out"@,
            vec(MathOp::QuatRotateVec(q_of(at("q"@)), v3_of(at("v"@)))),
        ),
        DriverNodeKind::QuatInvert => put(res, n, "out"@, rot(MathOp::QuatInvert(q_of(at("q"@))))),
        DriverNodeKind::QuatScale => {
            // Without a weight on the input, the node's own number counts.
            let t = match at("t"@) {
                Some(v) => v.to_f(),
                None => fl[0],
            };
            put(res, n, "out"@, rot(MathOp::QuatScale(q_of(at("q"@)), shape_weight(t))))
        },
        DriverNodeKind::QuatAngle => put(
            res,
            n,
            "out"@,
            num(MathOp::QuatAngle(q_of(at("a"@)), q_of(at("b"@)))),
        ),
        DriverNodeKind::BoneSet | DriverNodeKind::MorphSet => passed(
            links,
            passed(links, passed(links, passed(links, res, n, "pos"@), n, "rot"@), n, "scale"@),
            n,
            "in"@,
        ),
    }
}

/// The values after the first `i` nodes had a turn.
pub open spec fn turns(
    h: Host,
    bs: Seq<BoneView>,
    links: Seq<NodeLinkView>,
    res: Map<Seq<char>, DriverVal>,
    nodes: Seq<DriverNodeView>,
    i: nat,
) -> Map<Seq<char>, DriverVal>
    decreases i,
{
    if i == 0 {
        res
    } else {
        node_step(h, bs, links, turns(h, bs, links, res, nodes, (i - 1) as nat), nodes[i - 1])
    }
}

/// The values after `k` rounds over all nodes.
pub open spec fn rounds(
    h: Host,
    bs: Seq<BoneView>,
    links: Seq<NodeLinkView>,
    nodes: Seq<DriverNodeView>,
    k: nat,
) -> Map<Seq<char>, DriverVal>
    decreases k,
{
    if k == 0 {
        Map::empty()
    } else {
        turns(h, bs, links, rounds(h, bs, links, nodes, (k - 1) as nat), nodes, nodes.len())
    }
}

/// The settled values of a driver.
pub open spec fn settled(h: Host, bs: Seq<BoneView>, d: DriverView) -> Map<Seq<char>, DriverVal> {
    rounds(h, bs, d.space.links, d.nodes, ROUNDS as nat)
}

/// The port whose value a node shows.
pub open spec fn preview_port(kind: DriverNodeKind) -> Seq<char> {
    match kind {
        DriverNodeKind::Float => "value"@,
        DriverNodeKind::Vec3 => "v"@,
        DriverNodeKind::QuatEuler => "q"@,
        DriverNodeKind::QuatToEuler => "euler"@,
        DriverNodeKind::BoneGet | DriverNodeKind::BoneSet => "rot"@,
        DriverNodeKind::MorphSet => "in"@,
        _ => "out"@,
    }
}

/// What a node shows of its value.
pub open spec fn preview_of(
    h: Host,
    res: Map<Seq<char>, DriverVal>,
    n: DriverNodeView,
) -> Seq<char> {
    if n.kind == DriverNodeKind::SplitVec3 {
        (h.show)(
            DriverVal::V3(
                Vec3 {
                    x: f_of(looked_up(res, port_key(n.id, "x"@))),
                    y: f_of(looked_up(res, port_key(n.id, "y"@))),
                    z: f_of(looked_up(res, port_key(n.id, "z"@))),
                },
            ),
        )
    } else {
        match looked_up(res, port_key(n.id, preview_port(n.kind))) {
            Some(v) => (h.show)(v),
            None => Seq::empty(),
        }
    }
}

/// A bone to be written: what is `None` stays.
#[derive(Clone, Copy, Debug, PartialEq, Eq, Structural)]
pub struct BoneSetOp {
    pub bone: BoneId,
    pub space: DriverSpace,
    pub pos: Option<Vec3>,
    pub rot: Option<Quat>,
    pub scale: Option<Vec3>,
}

/// A shape key weight to be written.
#[derive(Clone, Copy, Debug, PartialEq, Eq, Structural)]
pub struct MorphWrite {
    pub mesh: MeshHandle,
    pub shape: usize,
    pub weight: Scalar,
}

pub open spec fn opt_v3(v: Option<DriverVal>) -> Option<Vec3> {
    match v {
        Some(v) => Some(v.to_v3()),
        None => None,
    }
}

pub open spec fn opt_q(v: Option<DriverVal>) -> Option<Quat> {
    match v {
        Some(v) => Some(v.to_q()),
        None => None,
    }
}

/// The bone that node `n` writes: a Set Bone node on a bone with at least one
/// value.
pub open spec fn bone_op(
    bs: Seq<BoneView>,
    res: Map<Seq<char>, DriverVal>,
    n: DriverNodeView,
) -> Option<BoneSetOp> {
    if n.kind != DriverNodeKind::BoneSet {
        None
    } else {
        match node_bone(bs, n) {
            None => None,
            Some(bone) => {
                let pos = opt_v3(looked_up(res, port_key(n.id, "pos"@)));
                let rot = opt_q(looked_up(res, port_key(n.id, "rot"@)));
                let scale = opt_v3(looked_up(res, port_key(n.id, "scale"@)));
                if pos is None && rot is None && scale is None {
                    None
                } else {
                    Some(BoneSetOp { bone, space: n.space, pos, rot, scale })
                }
            },
        }
    }
}

/// `w` kept between zero and one.
pub open spec fn shape_weight(w: Scalar) -> Scalar {
    held_between(w, scalar_of(BITS_ZERO), scalar_of(BITS_ONE))
}

/// `w` kept between zero and one.
pub fn keep_weight(w: Scalar) -> (r: Scalar)
    ensures
        r == shape_weight(w),
{
    hold_between(w, scalar(BITS_ZERO), scalar(BITS_ONE))
}

/// The shape key that node `n` writes: a Set Morph node on a mesh with a value.
pub open spec fn morph_op(res: Map<Seq<char>, DriverVal>, n: DriverNodeView) -> Option<MorphWrite> {
    if n.kind != DriverNodeKind::MorphSet {
        None
    } else {
        match (n.mesh, looked_up(res, port_key(n.id, "in"@))) {
            (Some(mesh), Some(v)) => Some(
                MorphWrite {
                    mesh,
                    shape: n.shape,
                    weight: shape_weight(v.to_f()),
                },
            ),
            _ => None,
        }
    }
}

/// The bones that the first `i` nodes write, in order.
pub open spec fn bone_ops(
    bs: Seq<BoneView>,
    res: Map<Seq<char>, DriverVal>,
    nodes: Seq<DriverNodeView>,
    i: nat,
) -> Seq<BoneSetOp>
    decreases i,
{
    if i == 0 {
        Seq::empty()
    } else {
        let before = bone_ops(bs, res, nodes, (i - 1) as nat);
        match bone_op(bs, res, nodes[i - 1]) {
            Some(op) => before.push(op),
            None => before,
        }
    }
}

/// The shape keys that the first `i` nodes write, in order.
pub open spec fn morph_ops(
    res: Map<Seq<char>, DriverVal>,
    nodes: Seq<DriverNodeView>,
    i: nat,
) -> Seq<MorphWrite>
    decreases i,
{
    if i == 0 {
        Seq::empty()
    } else {
        let before = morph_ops(res, nodes, (i - 1) as nat);
        match morph_op(res, nodes[i - 1]) {
            Some(op) => before.push(op),
            None => before,
        }
    }
}

/// The driver with the previews that its settled values give.
pub open spec fn previewed(h: Host, bs: Seq<BoneView>, d: DriverView) -> DriverView {
    let res = settled(h, bs, d);
    DriverView {
        nodes: d.nodes.map_values(
            |n: DriverNodeView| DriverNodeView { preview: preview_of(h, res, n), ..n },
        ),
        ..d
    }
}

/// Values by port key.
pub struct Values {
    pub keys: Vec<String>,
    pub vals: Vec<DriverVal>,
}

impl Values {
    pub open spec fn wf(self) -> bool {
        &&& self.keys@.len() == self.vals@.len()
        &&& forall|i: int, j: int|
            0 <= i < j < self.keys@.len() ==> (#[trigger] self.keys@[i])@ != (
            #[trigger] self.keys@[j])@
    }

    pub open spec fn at(self, key: Seq<char>, i: int) -> bool {
        0 <= i < self.keys@.len() && self.keys@[i]@ == key
    }
}

impl View for Values {
    type V = Map<Seq<char>, DriverVal>;

    open spec fn view(&self) -> Map<Seq<char>, DriverVal> {
        Map::new(
            |k: Seq<char>| exists|i: int| self.at(k, i),
            |k: Seq<char>| self.vals@[choose|i: int| self.at(k, i)],
        )
    }
}

impl Values {
    pub(crate) fn new() -> (r: Self)
        ensures
            r.wf(),
            r@ == Map::<Seq<char>, DriverVal>::empty(),
    {
        let r = Values { keys: Vec::new(), vals: Vec::new() };
        assert(r@ =~= Map::empty());
        r
    }

    fn find(&self, key: &str) -> (r: Option<usize>)
        requires
            self.wf(),
        ensures
            match r {
                Some(i) => self.at(key@, i as int) && self@.contains_key(key@) && self@[key@]
                    == self.vals@[i as int],
                None => !self@.contains_key(key@),
            },
    {
        let mut i: usize = 0;
        while i < self.keys.len()
            invariant
                i <= self.keys@.len(),
                self.wf(),
                forall|j: int| 0 <= j < i ==> (#[trigger] self.keys@[j])@ != key@,
            decreases self.keys.len() - i,
        {
            if same_text(&self.keys[i], key) {
                proof {
                    assert(self.at(key@, i as int));
                    let k = choose|k: int| self.at(key@, k);
                    assert(self.at(key@, k));
                    assert(k == i);
                }
                return Some(i);
            }
            i = i + 1;
        }
        None
    }

    pub(crate) fn get(&self, key: &str) -> (r: Option<DriverVal>)
        requires
            self.wf(),
        ensures
            r == looked_up(self@, key@),
    {
        match self.find(key) {
            Some(i) => Some(self.vals[i]),
            None => None,
        }
    }

    fn insert(&mut self, key: String, v: DriverVal)
        requires
            old(self).wf(),
        ensures
            final(self).wf(),
            final(self)@ == old(self)@.insert(key@, v),
    {
        let ghost before = *self;
        match self.find(&key) {
            Some(i) => {
                self.vals[i] = v;
                assert(self@ =~= before@.insert(key@, v)) by {
                    assert forall|k: Seq<char>| self@.contains_key(k) <==> before@.insert(
                        key@,
                        v,
                    ).contains_key(k) by {
                        if before@.contains_key(k) {
                            let m = choose|m: int| before.at(k, m);
                            assert(self.at(k, m));
                        }
                        if self@.contains_key(k) {
                            let m = choose|m: int| self.at(k, m);
                            assert(before.at(k, m));
                        }
                        assert(self.at(key@, i as int));
                    }
                    assert forall|k: Seq<char>| #[trigger] self@.contains_key(k) implies self@[k]
                        == before@.insert(key@, v)[k] by {
                        let m = choose|m: int| self.at(k, m);
                        assert(self.at(k, m));
                        let p = choose|p: int| before.at(k, p);
                        assert(before.at(k, m));
                        assert(before.at(k, p));
                        assert(m == p);
                        if k == key@ {
                            assert(m == i);
                        } else {
                            assert(m != i);
                        }
                    }
                }
            },
            None => {
                self.keys.push(key);
                self.vals.push(v);
                let ghost last = before.keys@.len() as int;
                proof {
                    assert forall|i: int, j: int| 0 <= i < j < self.keys@.len() implies (
                    #[trigger] self.keys@[i])@ != (#[trigger] self.keys@[j])@ by {
                        if j == last {
                            if before.keys@[i]@ == key@ {
                                assert(before.at(key@, i));
                            }
                        } else {
                            assert(before.keys@[i]@ != before.keys@[j]@);
                        }
                    }
                    assert(self@ =~= before@.insert(key@, v)) by {
                        assert forall|k: Seq<char>| self@.contains_key(k) <==> before@.insert(
                            key@,
                            v,
                        ).contains_key(k) by {
                            if before@.contains_key(k) {
                                let m = choose|m: int| before.at(k, m);
                                assert(self.at(k, m));
                            }
                            assert(self.at(key@, last));
                            if self@.contains_key(k) {
                                let m = choose|m: int| self.at(k, m);
                                if m < last {
                                    assert(before.at(k, m));
                                }
                            }
                        }
                        assert forall|k: Seq<char>| #[trigger] self@.contains_key(k) implies self@[k]
                            == before@.insert(key@, v)[k] by {
                            let m = choose|m: int| self.at(k, m);
                            assert(self.at(k, m));
                            if k == key@ {
                                assert(self.at(k, last));
                                assert(m == last);
                            } else {
                                assert(m < last);
                                let p = choose|p: int| before.at(k, p);
                                assert(before.at(k, m));
                                assert(before.at(k, p));
                                assert(m == p);
                            }
                        }
                    }
                }
            },
        }
    }

    /// Keeps a value at output `port` of node `n`.
    fn put(&mut self, n: &DriverNode, port: &str, v: DriverVal)
        requires
            old(self).wf(),
        ensures
            final(self).wf(),
            final(self)@ == put(old(self)@, n@, port@, v),
    {
        let key = key_of(&n.id, port);
        self.insert(key, v);
    }
}

fn key_of(node: &str, port: &str) -> (r: String)
    ensures
        r@ == port_key(node@, port@),
{
    join(&join(node, ":"), port)
}

/// The value that arrives at input `port` of `node`.
pub fn input_val(links: &Vec<NodeLink>, values: &Values, node: &str, port: &str) -> (r: Option<DriverVal>)
    requires
        values.wf(),
    ensures
        r == input_of(links_view(links@), values@, node@, port@),
{
    let ghost all = links_view(links@);
    let mut i: usize = 0;
    assert(all.skip(0) =~= all);
    while i < links.len()
        invariant
            i <= links@.len(),
            all == links_view(links@),
            values.wf(),
            input_of(all, values@, node@, port@) == input_of(all.skip(i as int), values@, node@, port@),
        decreases links.len() - i,
    {
        let l = &links[i];
        assert(all.skip(i as int)[0] == l@);
        assert(all.skip(i as int).skip(1) =~= all.skip(i as int + 1));
        if same_text(&l.to_node, node) && same_text(&l.to_port, port) {
            return values.get(&key_of(&l.from_node, &l.from_port));
        }
        i = i + 1;
    }
    None
}

fn num_or_zero(v: Option<DriverVal>) -> (r: Scalar)
    ensures
        r == f_of(v),
{
    match v {
        Some(v) => v.as_f(),
        None => scalar(BITS_ZERO),
    }
}

fn vec_or_zero(v: Option<DriverVal>) -> (r: Vec3)
    ensures
        r == v3_of(v),
{
    match v {
        Some(v) => v.as_v3(),
        None => splat3(scalar(BITS_ZERO)),
    }
}

fn quat_or_identity(v: Option<DriverVal>) -> (r: Quat)
    ensures
        r == q_of(v),
{
    match v {
        Some(v) => v.as_q(),
        None => identity_quat(),
    }
}

impl RigDocument {
    /// The bone that a node names, if it is one.
    pub(crate) fn bone_named(&self, n: &DriverNode) -> (r: Option<BoneId>)
        requires
            self.wf(),
        ensures
            r == node_bone(self@.bones, n@),
    {
        match n.bone {
            Some(b) => if self.bone(b).is_some() {
                Some(b)
            } else {
                None
            },
            None => None,
        }
    }

    /// Gives node `n` its turn.
    #[verifier::rlimit(40)]
    pub(crate) fn eval_node<
        M: Fn(MathOp) -> DriverVal,
        T: Fn(BoneId, DriverSpace) -> Option<Transform>,
    >(&self, math: &M, trs: &T, links: &Vec<NodeLink>, values: &mut Values, n: &DriverNode)
        requires
            self.wf(),
            old(values).wf(),
            forall|op: MathOp| call_requires(*math, (op,)),
            forall|b: BoneId, s: DriverSpace| call_requires(*trs, (b, s)),
        ensures
            final(values).wf(),
            forall|h: Host|
                hosted(*math, *trs, h) ==> final(values)@ == #[trigger] node_step(
                    h,
                    self@.bones,
                    links_view(links@),
                    old(values)@,
                    n@,
                ),
    {
        let id = n.id.as_str();
        match n.kind {
            DriverNodeKind::Float => {
                values.put(n, "value", DriverVal::F(n.floats[0]));
            },
            DriverNodeKind::Vec3 => {
                let v = Vec3 { x: n.floats[0], y: n.floats[1], z: n.floats[2] };
                values.put(n, "v", DriverVal::V3(v));
            },
            DriverNodeKind::QuatEuler => {
                let v = Vec3 { x: n.floats[0], y: n.floats[1], z: n.floats[2] };
                let q = (*math)(MathOp::EulerToQuat(v)).as_q();
                values.put(n, "q", DriverVal::Q(q));
            },
            DriverNodeKind::QuatToEuler => {
                let q = quat_or_identity(input_val(links, values, id, "q"));
                let e = (*math)(MathOp::QuatToEuler(q)).as_v3();
                values.put(n, "euler", DriverVal::V3(e));
                values.put(n, "x", DriverVal::F(e.x));
                values.put(n, "y", DriverVal::F(e.y));
                values.put(n, "z", DriverVal::F(e.z));
            },
            DriverNodeKind::BoneGet => {
                if let Some(bone) = self.bone_named(n) {
                    let got = (*trs)(bone, n.space);
                    if let Some(t) = got {
                        values.put(n, "pos", DriverVal::V3(t.translation));
                        values.put(n, "rot", DriverVal::Q(t.rotation));
                        values.put(n, "scale", DriverVal::V3(t.scale));
                    }
                }
            },
            DriverNodeKind::Remap => {
                let raw = num_or_zero(input_val(links, values, id, "in"));
                let op = MathOp::Remap { raw, from: n.floats[0], to: n.floats[1] };
                let x = (*math)(op).as_f();
                values.put(n, "out", DriverVal::F(x));
            },
            DriverNodeKind::MapRange => {
                let raw = num_or_zero(input_val(links, values, id, "in"));
                let op = MathOp::MapRange {
                    raw,
                    in_from: n.floats[0],
                    in_to: n.floats[1],
                    out_from: n.floats[2],
                    out_to: n.floats[3],
                };
                let x = (*math)(op).as_f();
                values.put(n, "out", DriverVal::F(x));
            },
            DriverNodeKind::Clamp => {
                let raw = num_or_zero(input_val(links, values, id, "in"));
                let x = keep_clamped(raw, n.floats[0], n.floats[1]);
                values.put(n, "out", DriverVal::F(x));
            },
            DriverNodeKind::Add => {
                let a = num_or_zero(input_val(links, values, id, "a"));
                let b = num_or_zero(input_val(links, values, id, "b"));
                let x = (*math)(MathOp::Add(a, b)).as_f();
                values.put(n, "out", DriverVal::F(x));
            },
            DriverNodeKind::Mul => {
                let a = num_or_zero(input_val(links, values, id, "a"));
                let b = num_or_zero(input_val(links, values, id, "b"));
                let x = (*math)(MathOp::Mul(a, b)).as_f();
                values.put(n, "out", DriverVal::F(x));
            },
            DriverNodeKind::CombineVec3 => {
                let x = num_or_zero(input_val(links, values, id, "x"));
                let y = num_or_zero(input_val(links, values, id, "y"));
                let z = num_or_zero(input_val(links, values, id, "z"));
                values.put(n, "out", DriverVal::V3(Vec3 { x, y, z }));
            },
            DriverNodeKind::SplitVec3 => {
                let v = vec_or_zero(input_val(links, values, id, "v"));
                values.put(n, "x", DriverVal::F(v.x));
                values.put(n, "y", DriverVal::F(v.y));
                values.put(n, "z", DriverVal::F(v.z));
            },
            DriverNodeKind::Vec3Add => {
                let a = vec_or_zero(input_val(links, values, id, "a"));
                let b = vec_or_zero(input_val(links, values, id, "b"));
                let v = (*math)(MathOp::Vec3Add(a, b)).as_v3();
                values.put(n, "out", DriverVal::V3(v));
            },
            DriverNodeKind::Vec3Scale => {
                let a = vec_or_zero(input_val(links, values, id, "v"));
                let s = num_or_zero(input_val(links, values, id, "s"));
                let v = (*math)(MathOp::Vec3Scale(a, s)).as_v3();
                values.put(n, "out", DriverVal::V3(v));
            },
            DriverNodeKind::Vec3Length => {
                let v = vec_or_zero(input_val(links, values, id, "v"));
                let x = (*math)(MathOp::Vec3Length(v)).as_f();
                values.put(n, "out", DriverVal::F(x));
            },
            DriverNodeKind::Vec3Normalize => {
                let a = vec_or_zero(input_val(links, values, id, "v"));
                let v = (*math)(MathOp::Vec3Normalize(a)).as_v3();
                values.put(n, "out", DriverVal::V3(v));
            },
            DriverNodeKind::QuatMul => {
                let a = quat_or_identity(input_val(links, values, id, "a"));
                let b = quat_or_identity(input_val(links, values, id, "b"));
                let q = (*math)(MathOp::QuatMul(a, b)).as_q();
                values.put(n, "out", DriverVal::Q(q));
            },
            DriverNodeKind::QuatRotateVec => {
                let q = quat_or_identity(input_val(links, values, id, "q"));
                let a = vec_or_zero(input_val(links, values, id, "v"));
                let v = (*math)(MathOp::QuatRotateVec(q, a)).as_v3();
                values.put(n, "out", DriverVal::V3(v));
            },
            DriverNodeKind::QuatInvert => {
                let a = quat_or_identity(input_val(links, values, id, "q"));
                let q = (*math)(MathOp::QuatInvert(a)).as_q();
                values.put(n, "out", DriverVal::Q(q));
            },
            DriverNodeKind::QuatScale => {
                let a = quat_or_identity(input_val(links, values, id, "q"));
                let t = match input_val(links, values, id, "t") {
                    Some(v) => v.as_f(),
                    None => n.floats[0],
                };
                let q = (*math)(MathOp::QuatScale(a, keep_weight(t))).as_q();
                values.put(n, "out", DriverVal::Q(q));
            },
            DriverNodeKind::QuatAngle => {
                let a = quat_or_identity(input_val(links, values, id, "a"));
                let b = quat_or_identity(input_val(links, values, id, "b"));
                let x = (*math)(MathOp::QuatAngle(a, b)).as_f();
                values.put(n, "out", DriverVal::F(x));
            },
            DriverNodeKind::BoneSet | DriverNodeKind::MorphSet => {
                pass_on(links, values, n, "pos");
                pass_on(links, values, n, "rot");
                pass_on(links, values, n, "scale");
                pass_on(links, values, n, "in");
            },
        }
    }
}

/// Keeps the value that arrives at input `port` of `n`, if one does.
fn pass_on(links: &Vec<NodeLink>, values: &mut Values, n: &DriverNode, port: &str)
    requires
        old(values).wf(),
    ensures
        final(values).wf(),
        final(values)@ == passed(links_view(links@), old(values)@, n@, port@),
{
    if let Some(v) = input_val(links, values, n.id.as_str(), port) {
        values.put(n, port, v);
    }
}

} // verus!
