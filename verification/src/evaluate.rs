//! Running the drivers of a rig, before and after IK, and writing shape key
//! weights.

use vstd::prelude::*;
use crate::bones::{ancestor, has_bone, strictly_under, BoneId, BoneView};
use crate::driver::{links_view, Driver, DriverNode, DriverNodeView, DriverVal, DriverView};
use crate::geom::{scalar, scalar_of, Quat, Scalar, Transform, Vec3, BITS_ONE, BITS_ZERO};
use crate::graph::{
    bone_op, bounded, bone_ops, f_of, hosted, keep_weight, looked_up, morph_ops, node_step, opt_q, opt_v3, port_key,
    preview_of, preview_port, previewed, rounds, settled, shape_weight, shown, turns, BoneSetOp, Host, MathOp,
    MorphWrite, Values, ROUNDS,
};
use crate::kinds::{DriverNodeKind, DriverSpace};
use crate::lists::{lemma_filter_contains, lemma_kept};
use crate::rig::{drivers_view, AppMode, IkView, RigDocument, RigView};
use crate::rig_paths::lemma_ancestors_bounded;
use crate::scene::{node_get, with_local, MeshHandle, MeshView, Scene, SceneView};
use crate::text::join;

verus! {

/// Bit pattern of `0.55`.
pub const BITS_0_55: u32 = 0x3F0C_CCCD;

/// When a driver runs relative to IK.
#[derive(Clone, Copy, Debug, PartialEq, Eq, Structural)]
pub enum DriverPass {
    /// Before IK: writes to parents of IK chains (clavicle, etc.) from last frame's pose.
    PreIk,
    /// After IK / soft: morphs + bones that don't re-parent an IK chain.
    PostIk,
}

/// `bone` is above a bone of the chain or above its tip.
pub open spec fn above_chain(bs: Seq<BoneView>, c: IkView, bone: BoneId) -> bool {
    strictly_under(bs, bone, c.tip) || exists|i: int|
        0 <= i < c.bones.len() && strictly_under(bs, bone, #[trigger] c.bones[i])
}

/// Writing `bone` changes the parent space of an enabled IK chain.
pub open spec fn supports_ik(r: RigView, bone: BoneId) -> bool {
    exists|i: int|
        0 <= i < r.ik_chains.len() && (#[trigger] r.ik_chains[i]).enabled && above_chain(
            r.bones,
            r.ik_chains[i],
            bone,
        )
}

/// `op` belongs to the pass: bones under which an enabled IK chain hangs are
/// written before IK, all others after.
pub open spec fn in_pass(r: RigView, pass: DriverPass, op: BoneSetOp) -> bool {
    supports_ik(r, op.bone) == (pass == DriverPass::PreIk)
}

/// `op` is what a Set Bone node of `d` can write.
pub open spec fn written_by(d: DriverView, op: BoneSetOp) -> bool {
    exists|j: int|
        0 <= j < d.nodes.len() && (#[trigger] d.nodes[j]).kind == DriverNodeKind::BoneSet
            && d.nodes[j].bone == Some(op.bone) && d.nodes[j].space == op.space
}

/// A driver that is on can write `op`.
pub open spec fn driven_by(ds: Seq<DriverView>, op: BoneSetOp) -> bool {
    exists|i: int| 0 <= i < ds.len() && (#[trigger] ds[i]).enabled && written_by(ds[i], op)
}

/// `b` is `a` but for what its nodes show.
pub open spec fn same_but_previews(a: DriverView, b: DriverView) -> bool {
    &&& b == (DriverView { nodes: b.nodes, ..a })
    &&& b.nodes.len() == a.nodes.len()
    &&& forall|j: int|
        0 <= j < a.nodes.len() ==> (#[trigger] b.nodes[j]) == (DriverNodeView {
            preview: b.nodes[j].preview,
            ..a.nodes[j]
        })
}

/// The bone writes of one driver in a pass.
pub open spec fn driver_bones(h: Host, r: RigView, pass: DriverPass, d: DriverView) -> Seq<BoneSetOp> {
    bone_ops(r.bones, settled(h, r.bones, d), d.nodes, d.nodes.len()).filter(
        |op: BoneSetOp| in_pass(r, pass, op),
    )
}

/// The shape key writes of one driver.
pub open spec fn driver_morphs(h: Host, r: RigView, d: DriverView) -> Seq<MorphWrite> {
    morph_ops(settled(h, r.bones, d), d.nodes, d.nodes.len())
}

/// The bone writes of the first `i` drivers; disabled ones write nothing.
pub open spec fn all_bones_written(h: Host, r: RigView, pass: DriverPass, i: nat) -> Seq<BoneSetOp>
    decreases i,
{
    if i == 0 {
        Seq::empty()
    } else {
        let before = all_bones_written(h, r, pass, (i - 1) as nat);
        if r.drivers[i - 1].enabled {
            before + driver_bones(h, r, pass, r.drivers[i - 1])
        } else {
            before
        }
    }
}

/// The shape key writes of the first `i` drivers.
pub open spec fn all_morphs_written(h: Host, r: RigView, i: nat) -> Seq<MorphWrite>
    decreases i,
{
    if i == 0 {
        Seq::empty()
    } else {
        let before = all_morphs_written(h, r, (i - 1) as nat);
        if r.drivers[i - 1].enabled {
            before + driver_morphs(h, r, r.drivers[i - 1])
        } else {
            before
        }
    }
}

/// A driver after a pass: enabled ones show fresh previews, disabled ones only
/// after IK.
pub open spec fn driver_after(h: Host, r: RigView, pass: DriverPass, d: DriverView) -> DriverView {
    if d.enabled || pass == DriverPass::PostIk {
        previewed(h, r.bones, d)
    } else {
        d
    }
}

/// What a pass asks of the host.
pub struct DriverPlan {
    /// How far bones move from where they are to where they are driven.
    pub blend: Scalar,
    pub bones: Vec<BoneSetOp>,
    pub morphs: Vec<MorphWrite>,
}

/// Before IK, bones move part of the way: snapping to the pose of their own
/// children would swing back and forth.
pub open spec fn blend_of(pass: DriverPass) -> Scalar {
    match pass {
        DriverPass::PreIk => scalar_of(BITS_0_55),
        DriverPass::PostIk => scalar_of(BITS_ONE),
    }
}

/// Every bone write of a driver belongs to exactly one pass.
pub proof fn law_one_pass(r: RigView, op: BoneSetOp)
    ensures
        in_pass(r, DriverPass::PreIk, op) != in_pass(r, DriverPass::PostIk, op),
{
}

/// Each bone write of a driver that is on is made in exactly one of the two
/// passes: before IK where an enabled chain hangs under the bone, else after.
pub proof fn law_write_once(h: Host, r: RigView, d: DriverView, op: BoneSetOp)
    requires
        bone_ops(r.bones, settled(h, r.bones, d), d.nodes, d.nodes.len()).contains(op),
    ensures
        driver_bones(h, r, DriverPass::PreIk, d).contains(op) <==> supports_ik(r, op.bone),
        driver_bones(h, r, DriverPass::PostIk, d).contains(op) <==> !supports_ik(r, op.bone),
{
    let ops = bone_ops(r.bones, settled(h, r.bones, d), d.nodes, d.nodes.len());
    lemma_filter_contains(ops, |op: BoneSetOp| in_pass(r, DriverPass::PreIk, op), op);
    lemma_filter_contains(ops, |op: BoneSetOp| in_pass(r, DriverPass::PostIk, op), op);
}

/// A pass makes exactly the bone writes that its drivers make in it; a driver
/// that is off makes none.
pub proof fn law_pass_writes(h: Host, r: RigView, pass: DriverPass, n: nat, op: BoneSetOp)
    requires
        n <= r.drivers.len(),
    ensures
        all_bones_written(h, r, pass, n).contains(op) <==> exists|i: int|
            0 <= i < n && (#[trigger] r.drivers[i]).enabled && driver_bones(
                h,
                r,
                pass,
                r.drivers[i],
            ).contains(op),
    decreases n,
{
    if n > 0 {
        law_pass_writes(h, r, pass, (n - 1) as nat, op);
        let before = all_bones_written(h, r, pass, (n - 1) as nat);
        let own = driver_bones(h, r, pass, r.drivers[n - 1]);
        let all = before + own;
        if before.contains(op) {
            let k = choose|k: int| 0 <= k < before.len() && before[k] == op;
            assert(all[k] == op);
        }
        if own.contains(op) {
            let k = choose|k: int| 0 <= k < own.len() && own[k] == op;
            assert(all[before.len() + k] == op);
        }
        if all.contains(op) {
            let k = choose|k: int| 0 <= k < all.len() && all[k] == op;
            if k < before.len() {
                assert(before[k] == op);
            } else {
                assert(own[k - before.len()] == op);
            }
        }
    }
}

/// Within one pass only bones of that pass are written.
pub proof fn law_pass_bones(h: Host, r: RigView, pass: DriverPass, n: nat, k: int)
    requires
        n <= r.drivers.len(),
        0 <= k < all_bones_written(h, r, pass, n).len(),
    ensures
        in_pass(r, pass, all_bones_written(h, r, pass, n)[k]),
    decreases n,
{
    if n > 0 {
        let before = all_bones_written(h, r, pass, (n - 1) as nat);
        if k < before.len() {
            law_pass_bones(h, r, pass, (n - 1) as nat, k);
        } else {
            let d = r.drivers[n - 1];
            let p = |op: BoneSetOp| in_pass(r, pass, op);
            let ops = bone_ops(r.bones, settled(h, r.bones, d), d.nodes, d.nodes.len());
            lemma_kept(ops, p);
            assert(0 <= crate::lists::kept_at(ops, p, k - before.len()));
            assert(p(ops.filter(p)[k - before.len()]));
        }
    }
}

/// The weights padded with zeros up to the number of shape keys.
pub open spec fn padded(m: MeshView) -> Seq<Scalar> {
    if m.morph_weights.len() >= m.morph_targets.len() {
        m.morph_weights
    } else {
        m.morph_weights + Seq::new(
            (m.morph_targets.len() - m.morph_weights.len()) as nat,
            |i: int| scalar_of(BITS_ZERO),
        )
    }
}

/// The weights after the first `k` writes, of those to this mesh.
pub open spec fn weights_written(
    mesh: MeshHandle,
    weights: Seq<Scalar>,
    writes: Seq<MorphWrite>,
    k: nat,
) -> Seq<Scalar>
    decreases k,
{
    if k == 0 {
        weights
    } else {
        let before = weights_written(mesh, weights, writes, (k - 1) as nat);
        let w = writes[k - 1];
        if w.mesh == mesh && w.shape < before.len() {
            before.update(w.shape as int, shape_weight(w.weight))
        } else {
            before
        }
    }
}

/// A mesh after the writes: untouched where none is for it.
pub open spec fn mesh_written(m: MeshView, writes: Seq<MorphWrite>) -> MeshView {
    if written_to(writes, m.handle) {
        MeshView {
            morph_weights: weights_written(m.handle, padded(m), writes, writes.len()),
            ..m
        }
    } else {
        m
    }
}

/// Some write is for `mesh`.
pub open spec fn written_to(writes: Seq<MorphWrite>, mesh: MeshHandle) -> bool {
    exists|i: int| 0 <= i < writes.len() && (#[trigger] writes[i]).mesh == mesh
}

/// After writing, shape key `shape` of a mesh has the weight that was written
/// to it last, kept between zero and one.
pub proof fn law_last_write_wins(m: MeshView, writes: Seq<MorphWrite>, k: int)
    requires
        0 <= k < writes.len(),
        writes[k].mesh == m.handle,
        writes[k].shape < padded(m).len(),
        forall|j: int|
            k < j < writes.len() ==> (#[trigger] writes[j]).mesh != m.handle || writes[j].shape
                != writes[k].shape,
    ensures
        mesh_written(m, writes).morph_weights[writes[k].shape as int] == shape_weight(
            writes[k].weight,
        ),
{
    assert(written_to(writes, m.handle));
    lemma_weight_at(m.handle, padded(m), writes, writes.len(), k);
}

proof fn lemma_weight_at(
    mesh: MeshHandle,
    weights: Seq<Scalar>,
    writes: Seq<MorphWrite>,
    n: nat,
    k: int,
)
    requires
        0 <= k < writes.len(),
        n <= writes.len(),
        writes[k].mesh == mesh,
        writes[k].shape < weights.len(),
        forall|j: int|
            k < j < writes.len() ==> (#[trigger] writes[j]).mesh != mesh || writes[j].shape
                != writes[k].shape,
    ensures
        weights_written(mesh, weights, writes, n).len() == weights.len(),
        n > k ==> weights_written(mesh, weights, writes, n)[writes[k].shape as int]
            == shape_weight(writes[k].weight),
    decreases n,
{
    if n > 0 {
        lemma_weight_at(mesh, weights, writes, (n - 1) as nat, k);
        if n - 1 > k {
            assert(writes[n - 1].mesh != mesh || writes[n - 1].shape != writes[k].shape);
        }
    }
}

fn looked_up_v3(v: Option<DriverVal>) -> (r: Option<Vec3>)
    ensures
        r == opt_v3(v),
{
    match v {
        Some(v) => Some(v.as_v3()),
        None => None,
    }
}

fn looked_up_q(v: Option<DriverVal>) -> (r: Option<Quat>)
    ensures
        r == opt_q(v),
{
    match v {
        Some(v) => Some(v.as_q()),
        None => None,
    }
}

impl Values {
    /// The value kept at `port` of node `n`.
    fn of(&self, n: &DriverNode, port: &str) -> (r: Option<DriverVal>)
        requires
            self.wf(),
        ensures
            r == looked_up(self@, port_key(n@.id, port@)),
    {
        self.get(&join(&join(&n.id, ":"), port))
    }

    /// The number kept at `port` of node `n`, or zero.
    fn num_of(&self, n: &DriverNode, port: &str) -> (r: Scalar)
        requires
            self.wf(),
        ensures
            r == f_of(looked_up(self@, port_key(n@.id, port@))),
    {
        match self.of(n, port) {
            Some(v) => v.as_f(),
            None => scalar(BITS_ZERO),
        }
    }
}

fn shown_port(kind: DriverNodeKind) -> (r: &'static str)
    ensures
        r@ == preview_port(kind),
{
    match kind {
        DriverNodeKind::Float => "value",
        DriverNodeKind::Vec3 => "v",
        DriverNodeKind::QuatEuler => "q",
        DriverNodeKind::QuatToEuler => "euler",
        DriverNodeKind::BoneGet | DriverNodeKind::BoneSet => "rot",
        DriverNodeKind::MorphSet => "in",
        _ => "out",
    }
}

/// What node `n` shows of its value.
fn preview<S: Fn(DriverVal) -> String>(show: &S, values: &Values, n: &DriverNode) -> (r: String)
    requires
        values.wf(),
        forall|v: DriverVal| call_requires(*show, (v,)),
    ensures
        forall|h: Host| shown(*show, h) ==> r@ == #[trigger] preview_of(h, values@, n@),
{
    if n.kind == DriverNodeKind::SplitVec3 {
        let x = values.num_of(n, "x");
        let y = values.num_of(n, "y");
        let z = values.num_of(n, "z");
        let v = DriverVal::V3(Vec3 { x, y, z });
        let r = (*show)(v);
        r
    } else {
        match values.of(n, shown_port(n.kind)) {
            Some(v) => {
                let r = (*show)(v);
                r
            },
            None => String::new(),
        }
    }
}

impl RigDocument {
    /// Lets the values of a driver settle.
    fn settle<
        M: Fn(MathOp) -> DriverVal,
        T: Fn(BoneId, DriverSpace) -> Option<Transform>,
    >(&self, driver: &Driver, math: &M, trs: &T) -> (r: Values)
        requires
            self.wf(),
            forall|op: MathOp| call_requires(*math, (op,)),
            forall|b: BoneId, s: DriverSpace| call_requires(*trs, (b, s)),
        ensures
            r.wf(),
            forall|h: Host|
                hosted(*math, *trs, h) ==> r@ == #[trigger] settled(h, self@.bones, driver@),
    {
        let ghost bs = self@.bones;
        let ghost links = driver@.space.links;
        let ghost nodes = driver@.nodes;
        let mut values = Values::new();
        let mut k: usize = 0;
        while k < ROUNDS
            invariant
                k <= ROUNDS,
                self.wf(),
                values.wf(),
                bs == self@.bones,
                links == driver@.space.links,
                nodes == driver@.nodes,
                forall|op: MathOp| call_requires(*math, (op,)),
                forall|b: BoneId, s: DriverSpace| call_requires(*trs, (b, s)),
                forall|h: Host|
                    hosted(*math, *trs, h) ==> values@ == #[trigger] rounds(
                        h,
                        bs,
                        links,
                        nodes,
                        k as nat,
                    ),
            decreases ROUNDS - k,
        {
            let ghost base = values@;
            let mut i: usize = 0;
            while i < driver.nodes.len()
                invariant
                    i <= driver.nodes@.len(),
                    self.wf(),
                    values.wf(),
                    bs == self@.bones,
                    links == driver@.space.links,
                    nodes == driver@.nodes,
                    forall|op: MathOp| call_requires(*math, (op,)),
                    forall|b: BoneId, s: DriverSpace| call_requires(*trs, (b, s)),
                    forall|h: Host|
                        hosted(*math, *trs, h) ==> values@ == #[trigger] turns(
                            h,
                            bs,
                            links,
                            base,
                            nodes,
                            i as nat,
                        ),
                decreases driver.nodes.len() - i,
            {
                let ghost before = values@;
                assert(nodes[i as int] == driver.nodes@[i as int]@);
                assert(links == links_view(driver.space.links@));
                self.eval_node(math, trs, &driver.space.links, &mut values, &driver.nodes[i]);
                let ghost i0 = i as nat;
                i = i + 1;
                assert forall|h: Host| hosted(*math, *trs, h) implies values@ == #[trigger] turns(
                    h,
                    bs,
                    links,
                    base,
                    nodes,
                    i as nat,
                ) by {
                    assert(before == turns(h, bs, links, base, nodes, i0));
                    assert(values@ == node_step(h, bs, links, before, nodes[i0 as int]));
                    assert((i as nat - 1) as nat == i0);
                }
            }
            let ghost k0 = k as nat;
            assert(i == nodes.len());
            k = k + 1;
            assert forall|h: Host| hosted(*math, *trs, h) implies values@ == #[trigger] rounds(
                h,
                bs,
                links,
                nodes,
                k as nat,
            ) by {
                assert(base == rounds(h, bs, links, nodes, k0));
                assert(values@ == turns(h, bs, links, base, nodes, i as nat));
                assert((k as nat - 1) as nat == k0);
            }
        }
        assert forall|h: Host| hosted(*math, *trs, h) implies values@ == #[trigger] settled(
            h,
            bs,
            driver@,
        ) by {
            assert(values@ == rounds(h, bs, links, nodes, ROUNDS as nat));
        }
        values
    }

    /// The bone that node `n` writes.
    fn node_bone_op(&self, values: &Values, n: &DriverNode) -> (r: Option<BoneSetOp>)
        requires
            self.wf(),
            values.wf(),
        ensures
            r == bone_op(self@.bones, values@, n@),
    {
        if n.kind != DriverNodeKind::BoneSet {
            return None;
        }
        let bone = match self.bone_named(n) {
            Some(b) => b,
            None => {
                return None;
            },
        };
        let pos = looked_up_v3(values.of(n, "pos"));
        let rot = looked_up_q(values.of(n, "rot"));
        let scale = looked_up_v3(values.of(n, "scale"));
        if pos.is_none() && rot.is_none() && scale.is_none() {
            None
        } else {
            Some(BoneSetOp { bone, space: n.space, pos, rot, scale })
        }
    }

    /// Evaluates one driver: its previews are refreshed, and what it writes is
    /// returned.
    pub fn eval_graph<
        M: Fn(MathOp) -> DriverVal,
        T: Fn(BoneId, DriverSpace) -> Option<Transform>,
        S: Fn(DriverVal) -> String,
    >(&self, driver: &mut Driver, math: &M, trs: &T, show: &S) -> (r: (
        Vec<BoneSetOp>,
        Vec<MorphWrite>,
    ))
        requires
            self.wf(),
            forall|op: MathOp| call_requires(*math, (op,)),
            forall|b: BoneId, s: DriverSpace| call_requires(*trs, (b, s)),
            forall|v: DriverVal| call_requires(*show, (v,)),
            bounded(old(driver)@),
        ensures
            same_but_previews(old(driver)@, final(driver)@),
            forall|k: int| 0 <= k < r.0@.len() ==> written_by(old(driver)@, #[trigger] r.0@[k]),
            forall|h: Host|
                #![trigger previewed(h, self@.bones, old(driver)@)]
                hosted(*math, *trs, h) && shown(*show, h) ==> {
                    let d = old(driver)@;
                    let values = settled(h, self@.bones, d);
                    &&& final(driver)@ == previewed(h, self@.bones, d)
                    &&& r.0@ == bone_ops(self@.bones, values, d.nodes, d.nodes.len())
                    &&& r.1@ == morph_ops(values, d.nodes, d.nodes.len())
                },
    {
        let ghost bs = self@.bones;
        let ghost d0 = driver@;
        let values = self.settle(driver, math, trs);
        let ghost vs = values@;
        let mut bones: Vec<BoneSetOp> = Vec::new();
        let mut morphs: Vec<MorphWrite> = Vec::new();
        let n = driver.nodes.len();
        let mut i: usize = 0;
        while i < n
            invariant
                i <= n,
                n == driver.nodes@.len(),
                n == d0.nodes.len(),
                self.wf(),
                values.wf(),
                bs == self@.bones,
                vs == values@,
                forall|op: MathOp| call_requires(*math, (op,)),
                forall|v: DriverVal| call_requires(*show, (v,)),
                same_but_previews(d0, driver@),
                forall|k: int| 0 <= k < bones@.len() ==> written_by(d0, #[trigger] bones@[k]),
                bones@ == bone_ops(bs, vs, d0.nodes, i as nat),
                morphs@ == morph_ops(vs, d0.nodes, i as nat),
                forall|h: Host, j: int|
                    hosted(*math, *trs, h) && shown(*show, h) && 0 <= j < i ==> driver@.nodes[j]
                        == (DriverNodeView {
                        preview: #[trigger] preview_of(h, vs, d0.nodes[j]),
                        ..d0.nodes[j]
                    }),
                forall|j: int| i <= j < n ==> driver@.nodes[j] == d0.nodes[j],
            decreases n - i,
        {
            let ghost was = driver@.nodes;
            assert(was[i as int] == d0.nodes[i as int]);
            let text = preview(show, &values, &driver.nodes[i]);
            let op = self.node_bone_op(&values, &driver.nodes[i]);
            if let Some(op) = op {
                assert(written_by(d0, op)) by {
                    assert(d0.nodes[i as int].bone == Some(op.bone));
                }
                bones.push(op);
            }
            let node = &driver.nodes[i];
            if node.kind == DriverNodeKind::MorphSet {
                if let Some(mesh) = node.mesh {
                    if let Some(v) = values.of(node, "in") {
                        let weight = keep_weight(v.as_f());
                        morphs.push(MorphWrite { mesh, shape: node.shape, weight });
                    }
                }
            }
            assert(morphs@ == morph_ops(vs, d0.nodes, (i + 1) as nat));
            driver.nodes[i].preview = text;
            assert(forall|j: int| 0 <= j < n && j != i ==> driver@.nodes[j] == was[j]);
            assert(driver@.nodes[i as int] =~= (DriverNodeView {
                preview: text@,
                ..d0.nodes[i as int]
            }));
            assert(driver@ =~= (DriverView { nodes: driver@.nodes, ..d0 }));
            assert forall|j: int| 0 <= j < n implies #[trigger] driver@.nodes[j] == (DriverNodeView {
                preview: driver@.nodes[j].preview,
                ..d0.nodes[j]
            }) by {
                if j != i {
                    assert(driver@.nodes[j] == was[j]);
                }
            }
            assert(same_but_previews(d0, driver@));
            assert forall|h: Host, j: int|
                hosted(*math, *trs, h) && shown(*show, h) && 0 <= j < i + 1 implies driver@.nodes[j]
                == (DriverNodeView {
                preview: #[trigger] preview_of(h, vs, d0.nodes[j]),
                ..d0.nodes[j]
            }) by {
                if j == i {
                    assert(driver@.nodes[j] =~= (DriverNodeView {
                        preview: preview_of(h, vs, d0.nodes[j]),
                        ..d0.nodes[j]
                    }));
                } else {
                    assert(was[j] == (DriverNodeView {
                        preview: preview_of(h, vs, d0.nodes[j]),
                        ..d0.nodes[j]
                    }));
                }
            }
            i = i + 1;
        }
        assert forall|h: Host|
            #![trigger previewed(h, bs, d0)]
            hosted(*math, *trs, h) && shown(*show, h) implies ({
            let values = settled(h, bs, d0);
            &&& driver@ == previewed(h, bs, d0)
            &&& bones@ == bone_ops(bs, values, d0.nodes, d0.nodes.len())
            &&& morphs@ == morph_ops(values, d0.nodes, d0.nodes.len())
        }) by {
            assert(vs == settled(h, bs, d0));
            assert forall|j: int| 0 <= j < n implies driver@.nodes[j] == previewed(h, bs, d0).nodes[j] by {
                let p = preview_of(h, vs, d0.nodes[j]);
            }
            assert(driver@.nodes =~= previewed(h, bs, d0).nodes);
        }
        (bones, morphs)
    }

    /// Whether `above` is reached from `id` by going up at least once.
    pub fn is_strict_ancestor(&self, above: BoneId, id: BoneId) -> (r: bool)
        requires
            self.wf(),
        ensures
            r == strictly_under(self@.bones, above, id),
    {
        let ghost bs = self@.bones;
        let mut cur = id;
        let mut n: usize = 0;
        assert(ancestor(bs, id, 0) == Some(id));
        loop
            invariant
                self.wf(),
                bs == self@.bones,
                bs.len() == self.bones@.len(),
                ancestor(bs, id, n as nat) == Some(cur),
                n <= bs.len(),
                n < bs.len() || !has_bone(bs, cur),
                forall|m: nat| 1 <= m <= n ==> #[trigger] ancestor(bs, id, m) != Some(above),
            decreases bs.len() + 1 - n,
        {
            let parent = match self.bone(cur) {
                Some(b) => b.parent,
                None => None,
            };
            assert(ancestor(bs, id, (n + 1) as nat) == parent);
            match parent {
                Some(p) => {
                    if p == above {
                        return true;
                    }
                    proof {
                        if has_bone(bs, p) {
                            lemma_ancestors_bounded(bs, id, (n + 1) as nat);
                        }
                        assert(self.bones.len() == bs.len());
                    }
                    n = n + 1;
                    cur = p;
                },
                None => {
                    proof {
                        assert forall|m: nat| m >= 1 implies #[trigger] ancestor(bs, id, m) != Some(
                            above,
                        ) by {
                            if m > n {
                                lemma_none_above(bs, id, (n + 1) as nat, m);
                            }
                        }
                    }
                    return false;
                },
            }
        }
    }

    /// True when writing `bone` changes the parent space of an enabled IK chain.
    pub fn bone_supports_ik(&self, bone: BoneId) -> (r: bool)
        requires
            self.wf(),
        ensures
            r == supports_ik(self@, bone),
    {
        let mut i: usize = 0;
        while i < self.ik_chains.len()
            invariant
                i <= self.ik_chains@.len(),
                self.wf(),
                forall|j: int|
                    0 <= j < i && (#[trigger] self@.ik_chains[j]).enabled ==> !above_chain(
                        self@.bones,
                        self@.ik_chains[j],
                        bone,
                    ),
            decreases self.ik_chains.len() - i,
        {
            let c = &self.ik_chains[i];
            assert(self@.ik_chains[i as int] == c@);
            if c.enabled {
                if self.is_strict_ancestor(bone, c.tip) {
                    assert(above_chain(self@.bones, c@, bone));
                    return true;
                }
                let mut k: usize = 0;
                while k < c.bones.len()
                    invariant
                        k <= c.bones@.len(),
                        self.wf(),
                        i < self.ik_chains@.len(),
                        self@.ik_chains[i as int] == c@,
                        c.enabled,
                        forall|j: int|
                            0 <= j < k ==> !strictly_under(
                                self@.bones,
                                bone,
                                #[trigger] c@.bones[j],
                            ),
                    decreases c.bones.len() - k,
                {
                    if self.is_strict_ancestor(bone, c.bones[k]) {
                        assert(strictly_under(self@.bones, bone, c@.bones[k as int]));
                        assert(above_chain(self@.bones, c@, bone));
                        return true;
                    }
                    k = k + 1;
                }
            }
            i = i + 1;
        }
        false
    }

    /// Whether this driver has a Set Bone that runs in the Pre-IK pass.
    pub fn driver_needs_pre_ik(&self, driver: &Driver) -> (r: bool)
        requires
            self.wf(),
        ensures
            r == (exists|i: int|
                0 <= i < driver@.nodes.len() && (#[trigger] driver@.nodes[i]).kind
                    == DriverNodeKind::BoneSet && driver@.nodes[i].bone is Some && supports_ik(
                    self@,
                    driver@.nodes[i].bone->0,
                )),
    {
        let mut i: usize = 0;
        while i < driver.nodes.len()
            invariant
                i <= driver.nodes@.len(),
                self.wf(),
                forall|j: int|
                    0 <= j < i ==> !((#[trigger] driver@.nodes[j]).kind == DriverNodeKind::BoneSet
                        && driver@.nodes[j].bone is Some && supports_ik(
                        self@,
                        driver@.nodes[j].bone->0,
                    )),
            decreases driver.nodes.len() - i,
        {
            let n = &driver.nodes[i];
            assert(driver@.nodes[i as int] == n@);
            if n.kind == DriverNodeKind::BoneSet {
                if let Some(b) = n.bone {
                    if self.bone_supports_ik(b) {
                        return true;
                    }
                }
            }
            i = i + 1;
        }
        false
    }

    /// The operations that belong to the pass, in order.
    fn of_pass(&self, ops: &Vec<BoneSetOp>, pass: DriverPass) -> (r: Vec<BoneSetOp>)
        requires
            self.wf(),
        ensures
            r@ == ops@.filter(|op: BoneSetOp| in_pass(self@, pass, op)),
    {
        let ghost p = |op: BoneSetOp| in_pass(self@, pass, op);
        let mut out: Vec<BoneSetOp> = Vec::new();
        let mut i: usize = 0;
        proof {
            crate::lists::lemma_filter_ends(ops@, p);
        }
        while i < ops.len()
            invariant
                i <= ops@.len(),
                self.wf(),
                p == (|op: BoneSetOp| in_pass(self@, pass, op)),
                out@ == ops@.take(i as int).filter(p),
            decreases ops.len() - i,
        {
            proof {
                crate::lists::lemma_filter_step(ops@, p, i as int);
            }
            let pre = self.bone_supports_ik(ops[i].bone);
            if pre == (pass == DriverPass::PreIk) {
                out.push(ops[i]);
            }
            i = i + 1;
        }
        out
    }

    /// Evaluate drivers for one pass. Host order: PreIk → IK → soft → PostIk.
    /// Outside Pose nothing happens. The plan lists what the host is to write.
    pub fn evaluate_drivers<
        M: Fn(MathOp) -> DriverVal,
        T: Fn(BoneId, DriverSpace) -> Option<Transform>,
        S: Fn(DriverVal) -> String,
    >(&mut self, pass: DriverPass, math: &M, trs: &T, show: &S) -> (r: DriverPlan)
        requires
            old(self).wf(),
            forall|op: MathOp| call_requires(*math, (op,)),
            forall|b: BoneId, s: DriverSpace| call_requires(*trs, (b, s)),
            forall|v: DriverVal| call_requires(*show, (v,)),
            old(self)@.mode == AppMode::Pose ==> forall|i: int|
                0 <= i < old(self)@.drivers.len() && ((#[trigger] old(self)@.drivers[i]).enabled
                    || pass == DriverPass::PostIk) ==> bounded(old(self)@.drivers[i]),
        ensures
            final(self).wf(),
            r.blend == blend_of(pass),
            pass == DriverPass::PreIk ==> r.morphs@.len() == 0,
            final(self)@.drivers.len() == old(self)@.drivers.len(),
            forall|i: int|
                0 <= i < old(self)@.drivers.len() ==> same_but_previews(
                    old(self)@.drivers[i],
                    #[trigger] final(self)@.drivers[i],
                ),
            forall|k: int|
                0 <= k < r.bones@.len() ==> in_pass(old(self)@, pass, #[trigger] r.bones@[k])
                    && driven_by(old(self)@.drivers, r.bones@[k]),
            old(self)@.mode != AppMode::Pose ==> final(self)@ == old(self)@ && r.bones@.len() == 0
                && r.morphs@.len() == 0,
            final(self)@ == (RigView { drivers: final(self)@.drivers, ..old(self)@ }),
            old(self)@.mode == AppMode::Pose ==> forall|h: Host|
                #![trigger all_bones_written(h, old(self)@, pass, old(self)@.drivers.len())]
                hosted(*math, *trs, h) && shown(*show, h) ==> {
                    let r0 = old(self)@;
                    &&& final(self)@.drivers == r0.drivers.map_values(
                        |d: DriverView| driver_after(h, r0, pass, d),
                    )
                    &&& r.bones@ == all_bones_written(h, r0, pass, r0.drivers.len())
                    &&& pass == DriverPass::PostIk ==> r.morphs@ == all_morphs_written(
                        h,
                        r0,
                        r0.drivers.len(),
                    )
                },
    {
        let blend = match pass {
            DriverPass::PreIk => scalar(BITS_0_55),
            DriverPass::PostIk => scalar(BITS_ONE),
        };
        let mut bones: Vec<BoneSetOp> = Vec::new();
        let mut morphs: Vec<MorphWrite> = Vec::new();
        if self.mode != AppMode::Pose {
            return DriverPlan { blend, bones, morphs };
        }
        let ghost r0 = self@;
        let mut drivers: Vec<Driver> = Vec::new();
        drivers.append(&mut self.drivers);
        let ghost rest = self@;
        assert(drivers_view(drivers@) =~= r0.drivers);
        assert(rest.drivers =~= Seq::empty());
        let n = drivers.len();
        let mut i: usize = 0;
        while i < n
            invariant
                i <= n,
                n == drivers@.len(),
                n == r0.drivers.len(),
                self.wf(),
                self@ == rest,
                rest == (RigView { drivers: Seq::empty(), ..r0 }),
                forall|op: MathOp| call_requires(*math, (op,)),
                forall|b: BoneId, s: DriverSpace| call_requires(*trs, (b, s)),
                forall|v: DriverVal| call_requires(*show, (v,)),
                pass == DriverPass::PreIk ==> morphs@.len() == 0,
                forall|j: int|
                    0 <= j < n && ((#[trigger] r0.drivers[j]).enabled || pass == DriverPass::PostIk)
                        ==> bounded(r0.drivers[j]),
                forall|j: int|
                    0 <= j < n ==> same_but_previews(r0.drivers[j], (#[trigger] drivers@[j])@),
                forall|k: int|
                    0 <= k < bones@.len() ==> in_pass(r0, pass, #[trigger] bones@[k]) && driven_by(
                        r0.drivers,
                        bones@[k],
                    ),
                forall|h: Host|
                    hosted(*math, *trs, h) && shown(*show, h) ==> bones@
                        == #[trigger] all_bones_written(h, r0, pass, i as nat),
                forall|h: Host|
                    hosted(*math, *trs, h) && shown(*show, h) && pass == DriverPass::PostIk
                        ==> morphs@ == #[trigger] all_morphs_written(h, r0, i as nat),
                forall|h: Host, j: int|
                    hosted(*math, *trs, h) && shown(*show, h) && 0 <= j < i ==> drivers@[j]@
                        == #[trigger] driver_after(h, r0, pass, r0.drivers[j]),
                forall|j: int| i <= j < n ==> (#[trigger] drivers@[j])@ == r0.drivers[j],
            decreases n - i,
        {
            let ghost was = drivers@;
            let ghost b0 = bones@;
            let ghost m0 = morphs@;
            let ghost d0 = r0.drivers[i as int];
            assert(was[i as int]@ == d0);
            let enabled = drivers[i].enabled;
            if enabled || pass == DriverPass::PostIk {
                let (ops, mut writes) = self.eval_graph(&mut drivers[i], math, trs, show);
                let ghost ws = writes@;
                if enabled {
                    let mut chosen = self.of_pass(&ops, pass);
                    let ghost cs = chosen@;
                    proof {
                        lemma_chosen(rest, r0, pass, ops@, i as int);
                    }
                    bones.append(&mut chosen);
                    if pass == DriverPass::PostIk {
                        morphs.append(&mut writes);
                    }
                    assert forall|h: Host| hosted(*math, *trs, h) && shown(*show, h) implies bones@
                        == #[trigger] all_bones_written(h, r0, pass, (i + 1) as nat) by {
                        let p = previewed(h, r0.bones, d0);
                        assert(b0 == all_bones_written(h, r0, pass, i as nat));
                        assert(cs =~= driver_bones(h, r0, pass, d0)) by {
                            lemma_pass_agree(rest, r0, pass, ops@);
                        }
                    }
                    assert forall|h: Host|
                        hosted(*math, *trs, h) && shown(*show, h) && pass
                            == DriverPass::PostIk implies morphs@ == #[trigger] all_morphs_written(
                        h,
                        r0,
                        (i + 1) as nat,
                    ) by {
                        let p = previewed(h, r0.bones, d0);
                        assert(m0 == all_morphs_written(h, r0, i as nat));
                        assert(ws == driver_morphs(h, r0, d0));
                    }
                } else {
                    assert forall|h: Host| hosted(*math, *trs, h) && shown(*show, h) implies bones@
                        == #[trigger] all_bones_written(h, r0, pass, (i + 1) as nat) by {
                        assert(b0 == all_bones_written(h, r0, pass, i as nat));
                    }
                    assert forall|h: Host|
                        hosted(*math, *trs, h) && shown(*show, h) && pass
                            == DriverPass::PostIk implies morphs@ == #[trigger] all_morphs_written(
                        h,
                        r0,
                        (i + 1) as nat,
                    ) by {
                        assert(m0 == all_morphs_written(h, r0, i as nat));
                    }
                }
            } else {
                assert forall|h: Host| hosted(*math, *trs, h) && shown(*show, h) implies bones@
                    == #[trigger] all_bones_written(h, r0, pass, (i + 1) as nat) by {
                    assert(b0 == all_bones_written(h, r0, pass, i as nat));
                }
            }
            assert forall|h: Host, j: int|
                hosted(*math, *trs, h) && shown(*show, h) && 0 <= j < i + 1 implies drivers@[j]@
                == #[trigger] driver_after(h, r0, pass, r0.drivers[j]) by {
                if j == i {
                    let p = previewed(h, r0.bones, d0);
                } else {
                    assert(was[j]@ == driver_after(h, r0, pass, r0.drivers[j]));
                    assert(drivers@[j] == was[j]);
                }
            }
            i = i + 1;
        }
        self.drivers = drivers;
        assert forall|h: Host|
            #![trigger all_bones_written(h, r0, pass, r0.drivers.len())]
            hosted(*math, *trs, h) && shown(*show, h) implies self@.drivers == r0.drivers.map_values(
            |d: DriverView| driver_after(h, r0, pass, d),
        ) by {
            assert forall|j: int| 0 <= j < n implies self@.drivers[j] == r0.drivers.map_values(
                |d: DriverView| driver_after(h, r0, pass, d),
            )[j] by {
                let x = driver_after(h, r0, pass, r0.drivers[j]);
            }
            assert(self@.drivers =~= r0.drivers.map_values(
                |d: DriverView| driver_after(h, r0, pass, d),
            ));
        }
        DriverPlan { blend, bones, morphs }
    }
}

/// Writes chosen for a pass belong to it, and come from a driver that is on.
proof fn lemma_chosen(a: RigView, b: RigView, pass: DriverPass, ops: Seq<BoneSetOp>, i: int)
    requires
        a.bones == b.bones,
        a.ik_chains == b.ik_chains,
        0 <= i < b.drivers.len(),
        b.drivers[i].enabled,
        forall|k: int| 0 <= k < ops.len() ==> written_by(b.drivers[i], #[trigger] ops[k]),
    ensures
        ({
            let cs = ops.filter(|op: BoneSetOp| in_pass(a, pass, op));
            forall|k: int|
                0 <= k < cs.len() ==> in_pass(b, pass, #[trigger] cs[k]) && driven_by(b.drivers, cs[k])
        }),
{
    let p = |op: BoneSetOp| in_pass(a, pass, op);
    let cs = ops.filter(p);
    lemma_kept(ops, p);
    assert forall|k: int| 0 <= k < cs.len() implies in_pass(b, pass, #[trigger] cs[k]) && driven_by(
        b.drivers,
        cs[k],
    ) by {
        assert(ops[crate::lists::kept_at(ops, p, k)] == cs[k]);
        assert(p(cs[k]));
    }
}

/// Which pass a write belongs to does not depend on the drivers.
proof fn lemma_pass_agree(a: RigView, b: RigView, pass: DriverPass, ops: Seq<BoneSetOp>)
    requires
        a.bones == b.bones,
        a.ik_chains == b.ik_chains,
    ensures
        ops.filter(|op: BoneSetOp| in_pass(a, pass, op)) == ops.filter(
            |op: BoneSetOp| in_pass(b, pass, op),
        ),
{
    crate::lists::lemma_filter_agree(
        ops,
        |op: BoneSetOp| in_pass(a, pass, op),
        |op: BoneSetOp| in_pass(b, pass, op),
    );
}

/// Above nobody there is nobody.
proof fn lemma_none_above(bs: Seq<BoneView>, id: BoneId, a: nat, b: nat)
    requires
        a <= b,
        ancestor(bs, id, a) is None,
    ensures
        ancestor(bs, id, b) is None,
    decreases b,
{
    if a < b {
        lemma_none_above(bs, id, a, (b - 1) as nat);
    }
}

impl Scene {
    /// Writes shape key weights, a missing weight counting as zero; returns the
    /// meshes that were written to, each once, for the host to deform.
    pub fn write_morphs(&mut self, writes: &Vec<MorphWrite>) -> (r: Vec<MeshHandle>)
        requires
            old(self).wf(),
        ensures
            final(self).wf(),
            final(self)@ == (SceneView {
                meshes: old(self)@.meshes.map_values(|m: MeshView| mesh_written(m, writes@)),
                ..old(self)@
            }),
            r@ == old(self)@.meshes.filter(
                |m: MeshView| written_to(writes@, m.handle),
            ).map_values(|m: MeshView| m.handle),
    {
        let ghost s0 = self@;
        let ghost want = s0.meshes.map_values(|m: MeshView| mesh_written(m, writes@));
        let ghost p = |m: MeshView| written_to(writes@, m.handle);
        let ghost q = |m: MeshView| m.handle;
        let mut touched: Vec<MeshHandle> = Vec::new();
        let n = self.meshes.len();
        let mut i: usize = 0;
        proof {
            crate::lists::lemma_filter_ends(s0.meshes, p);
        }
        assert(touched@ =~= Seq::<MeshView>::empty().map_values(q));
        while i < n
            invariant
                i <= n,
                n == self.meshes@.len(),
                n == s0.meshes.len(),
                want == s0.meshes.map_values(|m: MeshView| mesh_written(m, writes@)),
                p == (|m: MeshView| written_to(writes@, m.handle)),
                q == (|m: MeshView| m.handle),
                self@ == (SceneView { meshes: self@.meshes, ..s0 }),
                touched@ == s0.meshes.take(i as int).filter(p).map_values(q),
                forall|j: int| 0 <= j < i ==> self@.meshes[j] == want[j],
                forall|j: int| i <= j < n ==> self@.meshes[j] == s0.meshes[j],
            decreases n - i,
        {
            let ghost was = self@.meshes;
            let ghost m0 = s0.meshes[i as int];
            assert(was[i as int] == m0);
            let mesh = self.meshes[i].handle;
            proof {
                crate::lists::lemma_filter_step(s0.meshes, p, i as int);
            }
            if is_written(writes, mesh) {
                touched.push(mesh);
                assert(s0.meshes.take(i as int).filter(p).push(m0).map_values(q) =~= s0.meshes.take(
                    i as int,
                ).filter(p).map_values(q).push(mesh));
                let targets = self.meshes[i].morph_targets.len();
                let mut weights: Vec<Scalar> = Vec::new();
                weights.append(&mut self.meshes[i].morph_weights);
                let ghost w0 = weights@;
                assert(w0 =~= m0.morph_weights);
                assert(targets == m0.morph_targets.len());
                write_weights(&mut weights, targets, mesh, writes);
                assert(padded_to(w0, targets as nat) =~= padded(m0));
                self.meshes[i].morph_weights = weights;
            }
            assert(forall|j: int| 0 <= j < n && j != i ==> self@.meshes[j] == was[j]);
            assert(self@.meshes[i as int] =~= want[i as int]);
            i = i + 1;
        }
        assert(self@.meshes =~= want);
        proof {
            assert forall|i: int, j: int| 0 <= i < j < want.len() implies (
            #[trigger] want[i]).handle != (#[trigger] want[j]).handle by {
                assert(want[i].handle == s0.meshes[i].handle);
                assert(want[j].handle == s0.meshes[j].handle);
            }
            assert(self@.nodes == s0.nodes);
        }
        touched
    }
}

/// `weights` padded with zeros up to `n`.
pub open spec fn padded_to(weights: Seq<Scalar>, n: nat) -> Seq<Scalar> {
    if weights.len() >= n {
        weights
    } else {
        weights + Seq::new((n - weights.len()) as nat, |i: int| scalar_of(BITS_ZERO))
    }
}

/// Pads the weights of a mesh and writes to them.
fn write_weights(weights: &mut Vec<Scalar>, targets: usize, mesh: MeshHandle, writes: &Vec<MorphWrite>)
    ensures
        final(weights)@ == weights_written(
            mesh,
            padded_to(old(weights)@, targets as nat),
            writes@,
            writes@.len(),
        ),
{
    let ghost w0 = weights@;
    while weights.len() < targets
        invariant
            w0.len() <= weights@.len(),
            weights@.len() <= targets || weights@.len() == w0.len(),
            weights@ == w0 + Seq::new(
                (weights@.len() - w0.len()) as nat,
                |i: int| scalar_of(BITS_ZERO),
            ),
        decreases targets - weights@.len(),
    {
        weights.push(scalar(BITS_ZERO));
        assert(weights@ =~= w0 + Seq::new(
            (weights@.len() - w0.len()) as nat,
            |i: int| scalar_of(BITS_ZERO),
        ));
    }
    let ghost base = weights@;
    assert(base =~= padded_to(w0, targets as nat));
    let mut k: usize = 0;
    while k < writes.len()
        invariant
            k <= writes@.len(),
            weights@ == weights_written(mesh, base, writes@, k as nat),
        decreases writes.len() - k,
    {
        let w = writes[k];
        if w.mesh == mesh && w.shape < weights.len() {
            weights[w.shape] = keep_weight(w.weight);
        }
        k = k + 1;
    }
}

fn is_written(writes: &Vec<MorphWrite>, mesh: MeshHandle) -> (r: bool)
    ensures
        r == written_to(writes@, mesh),
{
    let mut i: usize = 0;
    while i < writes.len()
        invariant
            i <= writes@.len(),
            forall|j: int| 0 <= j < i ==> (#[trigger] writes@[j]).mesh != mesh,
        decreases writes.len() - i,
    {
        if writes[i].mesh == mesh {
            return true;
        }
        i = i + 1;
    }
    false
}

/// `cur` with what `op` sets taken from `driven`.
pub open spec fn bone_set(op: BoneSetOp, cur: Transform, driven: Transform) -> Transform {
    Transform {
        translation: if op.pos is Some {
            driven.translation
        } else {
            cur.translation
        },
        rotation: if op.rot is Some {
            driven.rotation
        } else {
            cur.rotation
        },
        scale: if op.scale is Some {
            driven.scale
        } else {
            cur.scale
        },
    }
}

/// An operation that sets nothing leaves a bone where it is; one that sets all
/// puts it where it is driven.
pub proof fn law_bone_set(op: BoneSetOp, cur: Transform, driven: Transform)
    ensures
        op.pos is None && op.rot is None && op.scale is None ==> bone_set(op, cur, driven) == cur,
        op.pos is Some && op.rot is Some && op.scale is Some ==> bone_set(op, cur, driven) == driven,
        bone_set(op, bone_set(op, cur, driven), driven) == bone_set(op, cur, driven),
{
}

impl Scene {
    /// Writes what `op` sets of its bone, `driven` being where the bone is driven
    /// to.
    pub fn apply_bone_set(&mut self, op: &BoneSetOp, driven: Transform)
        requires
            old(self).wf(),
        ensures
            final(self).wf(),
            final(self)@ == (match node_get(old(self)@.nodes, op.bone.node) {
                Some(n) => SceneView {
                    nodes: with_local(
                        old(self)@.nodes,
                        op.bone.node,
                        bone_set(*op, n.local, driven),
                    ),
                    ..old(self)@
                },
                None => old(self)@,
            }),
    {
        if let Some(i) = self.find_node(op.bone.node) {
            assert(self@.nodes[i as int] == self.nodes@[i as int]@);
            let mut t = self.nodes[i].local;
            if op.pos.is_some() {
                t.translation = driven.translation;
            }
            if op.rot.is_some() {
                t.rotation = driven.rotation;
            }
            if op.scale.is_some() {
                t.scale = driven.scale;
            }
            self.set_local(op.bone.node, t);
        }
    }
}

} // verus!
