//! Driver graphs as data: nodes, links and what edits them.

use vstd::prelude::*;
use crate::bones::BoneId;
use crate::geom::{scalar, scalar_of, Quat, Scalar, Vec2, Vec3, BITS_ONE, BITS_ZERO};
use crate::geom::{identity_quat, quat_identity, splat3, vec3_splat};
use crate::lists::{lemma_filter_ends, lemma_filter_step};
use crate::kinds::{DriverNodeKind, DriverSpace, PortType};
use crate::scene::{texts_view, MeshHandle};
use crate::text::{decimal, decimal_of, join, same_text};

verus! {

/// Bit pattern of `90.0`.
pub const BITS_90: u32 = 0x42B4_0000;

/// Bit pattern of `45.0`.
pub const BITS_45: u32 = 0x4234_0000;

/// Bit pattern of `0.35`.
pub const BITS_0_35: u32 = 0x3EB3_3333;

/// Bit pattern of `20.0`.
pub const BITS_20: u32 = 0x41A0_0000;

pub struct DriverNode {
    pub id: String,
    pub kind: DriverNodeKind,
    pub title: String,
    pub pos: Vec2,
    pub bone: Option<BoneId>,
    pub space: DriverSpace,
    pub mesh: Option<MeshHandle>,
    pub shape: usize,
    /// Scalar / vec3 / euler params.
    pub floats: [Scalar; 4],
    pub preview: String,
}

/// What a node of a driver graph holds.
#[verifier::ext_equal]
pub struct DriverNodeView {
    pub id: Seq<char>,
    pub kind: DriverNodeKind,
    pub title: Seq<char>,
    pub pos: Vec2,
    pub bone: Option<BoneId>,
    pub space: DriverSpace,
    pub mesh: Option<MeshHandle>,
    pub shape: usize,
    pub floats: Seq<Scalar>,
    pub preview: Seq<char>,
}

impl View for DriverNode {
    type V = DriverNodeView;

    open spec fn view(&self) -> DriverNodeView {
        DriverNodeView {
            id: self.id@,
            kind: self.kind,
            title: self.title@,
            pos: self.pos,
            bone: self.bone,
            space: self.space,
            mesh: self.mesh,
            shape: self.shape,
            floats: self.floats@,
            preview: self.preview@,
        }
    }
}

/// The parameters that a fresh node of a kind starts with.
pub open spec fn default_floats(kind: DriverNodeKind) -> Seq<Scalar> {
    let z = scalar_of(BITS_ZERO);
    match kind {
        DriverNodeKind::Remap => seq![z, scalar_of(BITS_90), z, z],
        DriverNodeKind::MapRange => seq![z, scalar_of(BITS_90), z, scalar_of(BITS_45)],
        DriverNodeKind::Clamp => seq![z, scalar_of(BITS_ONE), z, z],
        DriverNodeKind::QuatScale => seq![scalar_of(BITS_0_35), z, z, z],
        _ => seq![z, z, z, z],
    }
}

/// A fresh node.
pub open spec fn fresh_node(id: Seq<char>, kind: DriverNodeKind, pos: Vec2) -> DriverNodeView {
    DriverNodeView {
        id,
        kind,
        title: kind.title_of(),
        pos,
        bone: None,
        space: DriverSpace::BindOffset,
        mesh: None,
        shape: 0,
        floats: default_floats(kind),
        preview: Seq::empty(),
    }
}

impl DriverNode {
    pub fn new(id: String, kind: DriverNodeKind, pos: Vec2) -> (r: Self)
        ensures
            r@ == fresh_node(id@, kind, pos),
    {
        let z = scalar(BITS_ZERO);
        let floats = match kind {
            DriverNodeKind::Remap => [z, scalar(BITS_90), z, z],
            DriverNodeKind::MapRange => [z, scalar(BITS_90), z, scalar(BITS_45)],
            DriverNodeKind::Clamp => [z, scalar(BITS_ONE), z, z],
            DriverNodeKind::QuatScale => [scalar(BITS_0_35), z, z, z],
            _ => [z, z, z, z],
        };
        let r = DriverNode {
            id,
            kind,
            title: kind.title().to_owned(),
            pos,
            bone: None,
            space: DriverSpace::BindOffset,
            mesh: None,
            shape: 0,
            floats,
            preview: String::new(),
        };
        assert(r@ =~= fresh_node(id@, kind, pos));
        r
    }

    /// A copy of the node.
    pub fn copy(&self) -> (r: Self)
        ensures
            r@ == self@,
    {
        DriverNode {
            id: self.id.clone(),
            kind: self.kind,
            title: self.title.clone(),
            pos: self.pos,
            bone: self.bone,
            space: self.space,
            mesh: self.mesh,
            shape: self.shape,
            floats: self.floats,
            preview: self.preview.clone(),
        }
    }
}

/// A value that travels along a link.
#[derive(Clone, Copy, Debug, PartialEq, Eq, Structural)]
pub enum DriverVal {
    F(Scalar),
    V3(Vec3),
    Q(Quat),
}

impl DriverVal {
    /// The value read as a number.
    pub open spec fn to_f(self) -> Scalar {
        match self {
            DriverVal::F(x) => x,
            DriverVal::V3(v) => v.x,
            DriverVal::Q(_) => scalar_of(BITS_ZERO),
        }
    }

    /// The value read as a vector.
    pub open spec fn to_v3(self) -> Vec3 {
        match self {
            DriverVal::V3(v) => v,
            DriverVal::F(x) => vec3_splat(x),
            DriverVal::Q(q) => Vec3 { x: q.x, y: q.y, z: q.z },
        }
    }

    /// The value read as a rotation.
    pub open spec fn to_q(self) -> Quat {
        match self {
            DriverVal::Q(q) => q,
            _ => quat_identity(),
        }
    }

    pub fn as_f(&self) -> (r: Scalar)
        ensures
            r == self.to_f(),
    {
        match self {
            DriverVal::F(x) => *x,
            DriverVal::V3(v) => v.x,
            DriverVal::Q(_) => scalar(BITS_ZERO),
        }
    }

    pub fn as_v3(&self) -> (r: Vec3)
        ensures
            r == self.to_v3(),
    {
        match self {
            DriverVal::V3(v) => *v,
            DriverVal::F(x) => splat3(*x),
            DriverVal::Q(q) => Vec3 { x: q.x, y: q.y, z: q.z },
        }
    }

    pub fn as_q(&self) -> (r: Quat)
        ensures
            r == self.to_q(),
    {
        match self {
            DriverVal::Q(q) => *q,
            _ => identity_quat(),
        }
    }
}

/// A connection from an output port to an input port.
pub struct NodeLink {
    pub id: u64,
    pub from_node: String,
    pub from_port: String,
    pub to_node: String,
    pub to_port: String,
    pub ty: PortType,
}

/// What a link holds.
#[verifier::ext_equal]
pub struct NodeLinkView {
    pub id: u64,
    pub from_node: Seq<char>,
    pub from_port: Seq<char>,
    pub to_node: Seq<char>,
    pub to_port: Seq<char>,
    pub ty: PortType,
}

impl View for NodeLink {
    type V = NodeLinkView;

    open spec fn view(&self) -> NodeLinkView {
        NodeLinkView {
            id: self.id,
            from_node: self.from_node@,
            from_port: self.from_port@,
            to_node: self.to_node@,
            to_port: self.to_port@,
            ty: self.ty,
        }
    }
}

/// What the library reads and writes of the node editor's canvas.
pub struct NodeSpace {
    pub pan: Vec2,
    pub links: Vec<NodeLink>,
    pub next_link_id: u64,
    pub selected_nodes: Vec<String>,
    pub selected_link: Option<u64>,
}

/// What a canvas holds.
#[verifier::ext_equal]
pub struct NodeSpaceView {
    pub pan: Vec2,
    pub links: Seq<NodeLinkView>,
    pub next_link_id: u64,
    pub selected_nodes: Seq<Seq<char>>,
    pub selected_link: Option<u64>,
}

pub open spec fn links_view(s: Seq<NodeLink>) -> Seq<NodeLinkView> {
    Seq::new(s.len(), |i: int| s[i]@)
}

pub open spec fn dnodes_view(s: Seq<DriverNode>) -> Seq<DriverNodeView> {
    Seq::new(s.len(), |i: int| s[i]@)
}

impl View for NodeSpace {
    type V = NodeSpaceView;

    open spec fn view(&self) -> NodeSpaceView {
        NodeSpaceView {
            pan: self.pan,
            links: links_view(self.links@),
            next_link_id: self.next_link_id,
            selected_nodes: texts_view(self.selected_nodes@),
            selected_link: self.selected_link,
        }
    }
}

pub struct Driver {
    pub id: u32,
    pub name: String,
    pub enabled: bool,
    pub nodes: Vec<DriverNode>,
    pub space: NodeSpace,
    pub next_node_serial: u64,
}

/// What a driver holds.
#[verifier::ext_equal]
pub struct DriverView {
    pub id: u32,
    pub name: Seq<char>,
    pub enabled: bool,
    pub nodes: Seq<DriverNodeView>,
    pub space: NodeSpaceView,
    pub next_node_serial: u64,
}

impl View for Driver {
    type V = DriverView;

    open spec fn view(&self) -> DriverView {
        DriverView {
            id: self.id,
            name: self.name@,
            enabled: self.enabled,
            nodes: dnodes_view(self.nodes@),
            space: self.space@,
            next_node_serial: self.next_node_serial,
        }
    }
}

/// The id under which serial number `n` is spawned.
pub open spec fn node_id(n: nat) -> Seq<char> {
    "n"@ + decimal_of(n)
}

/// The first node with id `id`, if there is one.
pub open spec fn dnode_find(nodes: Seq<DriverNodeView>, id: Seq<char>) -> Option<int>
    decreases nodes.len(),
{
    if nodes.len() == 0 {
        None
    } else {
        match dnode_find(nodes.drop_last(), id) {
            Some(i) => Some(i),
            None => if nodes.last().id == id {
                Some(nodes.len() - 1)
            } else {
                None
            },
        }
    }
}

/// Where `dnode_find` looks: at the first place, or nowhere.
pub proof fn lemma_dnode_find(nodes: Seq<DriverNodeView>, id: Seq<char>)
    ensures
        match dnode_find(nodes, id) {
            Some(i) => 0 <= i < nodes.len() && nodes[i].id == id && forall|j: int|
                0 <= j < i ==> (#[trigger] nodes[j]).id != id,
            None => forall|j: int| 0 <= j < nodes.len() ==> (#[trigger] nodes[j]).id != id,
        },
    decreases nodes.len(),
{
    if nodes.len() > 0 {
        let t = nodes.drop_last();
        lemma_dnode_find(t, id);
        assert forall|j: int| 0 <= j < t.len() implies t[j] == nodes[j] by {}
        if dnode_find(t, id) is None && nodes.last().id != id {
            assert forall|j: int| 0 <= j < nodes.len() implies (#[trigger] nodes[j]).id != id by {
                if j < t.len() {
                    assert(t[j].id != id);
                }
            }
        }
        if dnode_find(t, id) is None {
            assert forall|j: int| 0 <= j < nodes.len() - 1 implies (#[trigger] nodes[j]).id != id by {
                assert(t[j].id != id);
            }
        } else {
            let i = dnode_find(t, id)->0;
            assert forall|j: int| 0 <= j < i implies (#[trigger] nodes[j]).id != id by {
                assert(t[j].id != id);
            }
        }
    }
}

/// The nodes whose id is not among `ids`, in order.
pub open spec fn without_ids(nodes: Seq<DriverNodeView>, ids: Seq<Seq<char>>) -> Seq<DriverNodeView> {
    nodes.filter(|n: DriverNodeView| !ids.contains(n.id))
}

/// A link ends at the input `port` of node `node`.
pub open spec fn ends_at(l: NodeLinkView, node: Seq<char>, port: Seq<char>) -> bool {
    l.to_node == node && l.to_port == port
}

/// A fresh driver without nodes on the canvas `space`, which starts a little
/// off the corner.
pub open spec fn fresh_driver(id: u32, name: Seq<char>, space: NodeSpaceView) -> DriverView {
    DriverView {
        id,
        name,
        enabled: true,
        nodes: Seq::empty(),
        space: NodeSpaceView {
            pan: Vec2 { x: scalar_of(BITS_20), y: scalar_of(BITS_20) },
            ..space
        },
        next_node_serial: 1,
    }
}

/// `d` with one more node under the next serial number.
pub open spec fn spawned(d: DriverView, kind: DriverNodeKind, pos: Vec2) -> DriverView {
    DriverView {
        nodes: d.nodes.push(fresh_node(node_id(d.next_node_serial as nat), kind, pos)),
        next_node_serial: (d.next_node_serial + 1) as u64,
        ..d
    }
}

/// `d` with a link from `from_port` of the node at `from_at` to `to_port` of
/// `to`, in place of any other link to that input.
pub open spec fn connected(
    d: DriverView,
    from_at: int,
    from_port: Seq<char>,
    to: Seq<char>,
    to_port: Seq<char>,
) -> DriverView {
    DriverView {
        space: NodeSpaceView {
            links: d.space.links.filter(|l: NodeLinkView| !ends_at(l, to, to_port)).push(
                NodeLinkView {
                    id: d.space.next_link_id,
                    from_node: d.nodes[from_at].id,
                    from_port,
                    to_node: to,
                    to_port,
                    ty: d.nodes[from_at].kind.port_type_of(from_port),
                },
            ),
            next_link_id: (d.space.next_link_id + 1) as u64,
            ..d.space
        },
        ..d
    }
}

pub open spec fn unknown_node(id: Seq<char>) -> Seq<char> {
    "unknown node '"@ + id + "'"@
}

/// `id` is the id of a serial number below `serial`.
pub open spec fn id_used(id: Seq<char>, serial: nat) -> bool {
    exists|m: nat| m < serial && #[trigger] node_id(m) == id
}

/// Every node carries the id of a serial number below `serial`, and no id
/// occurs twice.
pub open spec fn nodes_ok(nodes: Seq<DriverNodeView>, serial: nat) -> bool {
    &&& forall|i: int| 0 <= i < nodes.len() ==> id_used((#[trigger] nodes[i]).id, serial)
    &&& forall|i: int, j: int|
        0 <= i < j < nodes.len() ==> (#[trigger] nodes[i]).id != (#[trigger] nodes[j]).id
}

/// The node ids of a driver are proper.
pub open spec fn ids_ok(d: DriverView) -> bool {
    nodes_ok(d.nodes, d.next_node_serial as nat)
}

/// The state of duplicating nodes after some of the requested ids.
#[verifier::ext_equal]
pub struct Cloning {
    pub nodes: Seq<DriverNodeView>,
    pub serial: int,
    pub pairs: Seq<(Seq<char>, Seq<char>)>,
}

/// Duplicating the first node with id `id`, moved by `shift`: the copy gets the
/// next serial number and an empty preview. An id without a node is passed over.
pub open spec fn clone_step(
    c: Cloning,
    id: Seq<char>,
    shift: spec_fn(Vec2) -> Vec2,
) -> Cloning {
    match dnode_find(c.nodes, id) {
        None => c,
        Some(i) => Cloning {
            nodes: c.nodes.push(
                DriverNodeView {
                    id: node_id(c.serial as nat),
                    pos: shift(c.nodes[i].pos),
                    preview: Seq::empty(),
                    ..c.nodes[i]
                },
            ),
            serial: c.serial + 1,
            pairs: c.pairs.push((id, node_id(c.serial as nat))),
        },
    }
}

/// Duplicating the nodes `ids`, one after the other.
pub open spec fn cloned(
    d: DriverView,
    ids: Seq<Seq<char>>,
    shift: spec_fn(Vec2) -> Vec2,
) -> Cloning
    decreases ids.len(),
{
    if ids.len() == 0 {
        Cloning { nodes: d.nodes, serial: d.next_node_serial as int, pairs: Seq::empty() }
    } else {
        clone_step(cloned(d, ids.drop_last(), shift), ids.last(), shift)
    }
}

/// The second halves of a list of pairs.
pub open spec fn second_of(pairs: Seq<(Seq<char>, Seq<char>)>) -> Seq<Seq<char>> {
    Seq::new(pairs.len(), |i: int| pairs[i].1)
}

/// A list of pairs of strings as a list of pairs of character sequences.
pub open spec fn pairs_view(s: Seq<(String, String)>) -> Seq<(Seq<char>, Seq<char>)> {
    Seq::new(s.len(), |i: int| (s[i].0@, s[i].1@))
}

/// `math` computes `m`.
pub open spec fn computes<M: Fn(Vec2) -> Vec2>(math: M, m: spec_fn(Vec2) -> Vec2) -> bool {
    forall|x: Vec2, y: Vec2| #[trigger] call_ensures(math, (x,), y) ==> y == m(x)
}

/// What a removed shape key leaves of a node's morph target: the removed one is
/// forgotten, later ones move down by one.
pub open spec fn shape_dropped(n: DriverNodeView, mesh: MeshHandle, index: usize) -> DriverNodeView {
    if n.kind == DriverNodeKind::MorphSet && n.mesh == Some(mesh) {
        if n.shape == index {
            DriverNodeView { mesh: None, shape: 0, ..n }
        } else if n.shape > index {
            DriverNodeView { shape: (n.shape - 1) as usize, ..n }
        } else {
            n
        }
    } else {
        n
    }
}

/// A node without its bone, where that bone is in `kill`.
pub open spec fn bone_forgotten(n: DriverNodeView, kill: Set<BoneId>) -> DriverNodeView {
    match n.bone {
        Some(b) => if kill.contains(b) {
            DriverNodeView { bone: None, ..n }
        } else {
            n
        },
        None => n,
    }
}

/// `d` writes shape key `shape` of `mesh`.
pub open spec fn writes_morph(d: DriverView, mesh: MeshHandle, shape: usize) -> bool {
    d.enabled && exists|i: int|
        0 <= i < d.nodes.len() && (#[trigger] d.nodes[i]).kind == DriverNodeKind::MorphSet
            && d.nodes[i].mesh == Some(mesh) && d.nodes[i].shape == shape
}

impl Driver {
    /// A driver without nodes on the canvas `space`.
    pub fn new(id: u32, name: String, space: NodeSpace) -> (r: Self)
        ensures
            r@ == fresh_driver(id, name@, space@),
    {
        let mut space = space;
        space.pan = Vec2 { x: scalar(BITS_20), y: scalar(BITS_20) };
        let r = Driver { id, name, enabled: true, nodes: Vec::new(), space, next_node_serial: 1 };
        assert(r@.nodes =~= Seq::empty());
        r
    }

    /// Adds a node of `kind` at `pos` and returns its id.
    pub fn spawn_node(&mut self, kind: DriverNodeKind, pos: Vec2) -> (r: String)
        requires
            old(self).next_node_serial < u64::MAX,
        ensures
            r@ == node_id(old(self)@.next_node_serial as nat),
            final(self)@ == spawned(old(self)@, kind, pos),
    {
        let id = join("n", &decimal(self.next_node_serial));
        self.next_node_serial = self.next_node_serial + 1;
        self.nodes.push(DriverNode::new(id.clone(), kind, pos));
        assert(self@.nodes =~= spawned(old(self)@, kind, pos).nodes);
        id
    }

    /// Place of the first node with id `id`.
    pub fn find(&self, id: &str) -> (r: Option<usize>)
        ensures
            match r {
                Some(i) => dnode_find(self@.nodes, id@) == Some(i as int) && i < self.nodes@.len(),
                None => dnode_find(self@.nodes, id@) is None,
            },
    {
        let mut i: usize = 0;
        proof {
            lemma_dnode_find(self@.nodes, id@);
        }
        while i < self.nodes.len()
            invariant
                i <= self.nodes@.len(),
                forall|j: int| 0 <= j < i ==> (#[trigger] self@.nodes[j]).id != id@,
            decreases self.nodes.len() - i,
        {
            if same_text(&self.nodes[i].id, id) {
                assert(self@.nodes[i as int].id == id@);
                proof {
                    lemma_dnode_find(self@.nodes, id@);
                }
                return Some(i);
            }
            assert(self@.nodes[i as int].id != id@);
            i = i + 1;
        }
        None
    }

    /// The first node with id `id`, for editing.
    pub fn node_mut(&mut self, id: &str) -> (r: Option<&mut DriverNode>)
        ensures
            match r {
                Some(n) => {
                    &&& dnode_find(old(self)@.nodes, id@) is Some
                    &&& n@ == old(self)@.nodes[dnode_find(old(self)@.nodes, id@)->0]
                    &&& final(self)@ == (DriverView {
                        nodes: old(self)@.nodes.update(
                            dnode_find(old(self)@.nodes, id@)->0,
                            final(n)@,
                        ),
                        ..old(self)@
                    })
                },
                None => dnode_find(old(self)@.nodes, id@) is None && final(self)@ == old(self)@,
            },
    {
        match self.find(id) {
            Some(i) => Some(&mut self.nodes[i]),
            None => None,
        }
    }

    /// Links `from_port` of `from` to `to_port` of `to`; a link that was there
    /// gives way.
    pub fn connect(&mut self, from: &str, from_port: &str, to: &str, to_port: &str) -> (r: Result<
        (),
        String,
    >)
        requires
            old(self).space.next_link_id < u64::MAX,
        ensures
            match r {
                Ok(_) => {
                    &&& dnode_find(old(self)@.nodes, from@) is Some
                    &&& dnode_find(old(self)@.nodes, to@) is Some
                    &&& final(self)@ == connected(
                        old(self)@,
                        dnode_find(old(self)@.nodes, from@)->0,
                        from_port@,
                        to@,
                        to_port@,
                    )
                },
                Err(e) => {
                    &&& final(self)@ == old(self)@
                    &&& if dnode_find(old(self)@.nodes, from@) is None {
                        e@ == unknown_node(from@)
                    } else {
                        dnode_find(old(self)@.nodes, to@) is None && e@ == unknown_node(to@)
                    }
                },
            },
    {
        proof {
            lemma_dnode_find(self@.nodes, from@);
        }
        let from_at = match self.find(from) {
            Some(i) => i,
            None => {
                return Err(join(&join("unknown node '", from), "'"));
            },
        };
        if self.find(to).is_none() {
            return Err(join(&join("unknown node '", to), "'"));
        }
        let ty = self.nodes[from_at].kind.output_port_type(from_port);
        let mut kept: Vec<NodeLink> = Vec::new();
        let ghost before = self@.space.links;
        let ghost p = |l: NodeLinkView| !ends_at(l, to@, to_port@);
        let mut rest: Vec<NodeLink> = Vec::new();
        rest.append(&mut self.space.links);
        let ghost all = rest@;
        proof {
            lemma_filter_ends(before, p);
        }
        assert(links_view(kept@) =~= Seq::empty());
        for l in it: rest
            invariant
                it.seq() == all,
                before == links_view(all),
                p == (|l: NodeLinkView| !ends_at(l, to@, to_port@)),
                links_view(kept@) == before.take(it.index() as int).filter(p),
        {
            assert(l@ == before[it.index() as int]);
            proof {
                lemma_filter_step(before, p, it.index() as int);
            }
            if !(same_text(&l.to_node, to) && same_text(&l.to_port, to_port)) {
                let ghost k = kept@;
                kept.push(l);
                assert(links_view(kept@) =~= links_view(k).push(l@));
            }
        }
        let id = self.space.next_link_id;
        self.space.next_link_id = id + 1;
        let ghost k = kept@;
        let l = NodeLink {
            id,
            from_node: from.to_owned(),
            from_port: from_port.to_owned(),
            to_node: to.to_owned(),
            to_port: to_port.to_owned(),
            ty,
        };
        kept.push(l);
        assert(links_view(kept@) =~= links_view(k).push(l@));
        self.space.links = kept;
        Ok(())
    }

    /// Removes the nodes `ids`; `links` is what the canvas holds once they are
    /// detached.
    pub fn apply_deletes(&mut self, ids: &Vec<String>, links: Vec<NodeLink>)
        ensures
            final(self)@ == (DriverView {
                nodes: without_ids(old(self)@.nodes, texts_view(ids@)),
                space: NodeSpaceView { links: links_view(links@), ..old(self)@.space },
                ..old(self)@
            }),
    {
        let ghost before = self@.nodes;
        let ghost p = |n: DriverNodeView| !texts_view(ids@).contains(n.id);
        self.space.links = links;
        let mut kept: Vec<DriverNode> = Vec::new();
        let mut rest: Vec<DriverNode> = Vec::new();
        rest.append(&mut self.nodes);
        let ghost all = rest@;
        proof {
            lemma_filter_ends(before, p);
        }
        assert(dnodes_view(kept@) =~= Seq::empty());
        for d in it: rest
            invariant
                it.seq() == all,
                before == dnodes_view(all),
                p == (|n: DriverNodeView| !texts_view(ids@).contains(n.id)),
                dnodes_view(kept@) == before.take(it.index() as int).filter(p),
        {
            assert(d@ == before[it.index() as int]);
            proof {
                lemma_filter_step(before, p, it.index() as int);
            }
            if !lists_text(ids, &d.id) {
                let ghost k = kept@;
                kept.push(d);
                assert(dnodes_view(kept@) =~= dnodes_view(k).push(d@));
            }
        }
        self.nodes = kept;
    }

    /// Duplicates the nodes `ids`, each moved by `shift`, selects the copies,
    /// and returns which id became which, so that the canvas can duplicate the
    /// links between them.
    pub fn apply_clones<S: Fn(Vec2) -> Vec2>(&mut self, ids: &Vec<String>, shift: &S) -> (r: Vec<
        (String, String),
    >)
        requires
            old(self).next_node_serial + ids@.len() <= u64::MAX,
            forall|x: Vec2| call_requires(*shift, (x,)),
        ensures
            ids@.len() == 0 ==> r@.len() == 0 && final(self)@ == old(self)@,
            ids@.len() > 0 ==> forall|m: spec_fn(Vec2) -> Vec2|
                computes(*shift, m) ==> {
                    let c = #[trigger] cloned(old(self)@, texts_view(ids@), m);
                    &&& pairs_view(r@) == c.pairs
                    &&& final(self)@ == (DriverView {
                        nodes: c.nodes,
                        next_node_serial: c.serial as u64,
                        space: NodeSpaceView {
                            selected_nodes: second_of(c.pairs),
                            selected_link: None,
                            ..old(self)@.space
                        },
                        ..old(self)@
                    })
                },
    {
        let mut pairs: Vec<(String, String)> = Vec::new();
        if ids.len() == 0 {
            return pairs;
        }
        let mut chosen: Vec<String> = Vec::new();
        let ghost tx = texts_view(ids@);
        let ghost d0 = self@;
        let mut i: usize = 0;
        assert(pairs_view(pairs@) =~= Seq::empty());
        assert(texts_view(chosen@) =~= second_of(pairs_view(pairs@)));
        assert(tx.take(0) =~= Seq::empty());
        while i < ids.len()
            invariant
                i <= ids@.len(),
                d0.next_node_serial + ids@.len() <= u64::MAX,
                d0.next_node_serial <= self.next_node_serial <= d0.next_node_serial + i,
                tx == texts_view(ids@),
                forall|x: Vec2| call_requires(*shift, (x,)),
                texts_view(chosen@) == second_of(pairs_view(pairs@)),
                self@ == (DriverView {
                    nodes: self@.nodes,
                    next_node_serial: self.next_node_serial,
                    ..d0
                }),
                forall|m: spec_fn(Vec2) -> Vec2|
                    computes(*shift, m) ==> (Cloning {
                        nodes: self@.nodes,
                        serial: self.next_node_serial as int,
                        pairs: pairs_view(pairs@),
                    }) == #[trigger] cloned(d0, tx.take(i as int), m),
            decreases ids.len() - i,
        {
            let ghost before = *self;
            let ghost pairs0 = pairs@;
            let ghost chosen0 = chosen@;
            assert(tx.take(i as int + 1).drop_last() =~= tx.take(i as int));
            assert(tx.take(i as int + 1).last() == ids@[i as int]@);
            match self.find(&ids[i]) {
                None => {
                    assert forall|m: spec_fn(Vec2) -> Vec2| computes(*shift, m) implies (Cloning {
                        nodes: self@.nodes,
                        serial: self.next_node_serial as int,
                        pairs: pairs_view(pairs@),
                    }) == #[trigger] cloned(d0, tx.take(i as int + 1), m) by {
                        let c = cloned(d0, tx.take(i as int), m);
                    }
                },
                Some(at) => {
                    let new_id = join("n", &decimal(self.next_node_serial));
                    self.next_node_serial = self.next_node_serial + 1;
                    let mut copy = self.nodes[at].copy();
                    copy.id = new_id.clone();
                    let from = copy.pos;
                    let moved = (*shift)(from);
                    assert(call_ensures(*shift, (from,), moved));
                    copy.pos = moved;
                    copy.preview = String::new();
                    pairs.push((ids[i].clone(), new_id.clone()));
                    chosen.push(new_id);
                    self.nodes.push(copy);
                    assert(self@.nodes =~= before@.nodes.push(copy@));
                    assert(pairs_view(pairs@) =~= pairs_view(pairs0).push((ids@[i as int]@, new_id@)));
                    assert(texts_view(chosen@) =~= texts_view(chosen0).push(new_id@));
                    assert(second_of(pairs_view(pairs@)) =~= second_of(pairs_view(pairs0)).push(new_id@));
                    assert forall|m: spec_fn(Vec2) -> Vec2| computes(*shift, m) implies (Cloning {
                        nodes: self@.nodes,
                        serial: self.next_node_serial as int,
                        pairs: pairs_view(pairs@),
                    }) == #[trigger] cloned(d0, tx.take(i as int + 1), m) by {
                        let c = cloned(d0, tx.take(i as int), m);
                        assert(moved == m(from));
                        assert(copy@ =~= (DriverNodeView {
                            id: node_id(c.serial as nat),
                            pos: m(c.nodes[at as int].pos),
                            preview: Seq::empty(),
                            ..c.nodes[at as int]
                        }));
                    }
                },
            }
            i = i + 1;
        }
        assert(tx.take(i as int) =~= tx);
        self.space.selected_nodes = chosen;
        self.space.selected_link = None;
        pairs
    }

    /// Whether this driver, while enabled, writes shape key `shape` of `mesh`.
    pub fn drives_morph(&self, mesh: MeshHandle, shape: usize) -> (r: bool)
        ensures
            r == writes_morph(self@, mesh, shape),
    {
        if !self.enabled {
            return false;
        }
        let mut i: usize = 0;
        while i < self.nodes.len()
            invariant
                self.enabled,
                i <= self.nodes@.len(),
                forall|j: int|
                    0 <= j < i ==> !((#[trigger] self@.nodes[j]).kind == DriverNodeKind::MorphSet
                        && self@.nodes[j].mesh == Some(mesh) && self@.nodes[j].shape == shape),
            decreases self.nodes.len() - i,
        {
            let n = &self.nodes[i];
            let hit = match n.mesh {
                Some(m) => n.kind == DriverNodeKind::MorphSet && m == mesh && n.shape == shape,
                None => false,
            };
            assert(self@.nodes[i as int] == n@);
            if hit {
                return true;
            }
            i = i + 1;
        }
        false
    }

    /// Nodes that name a bone in `kill` name none afterwards.
    pub fn clear_bone_refs(&mut self, kill: &Vec<BoneId>)
        ensures
            final(self)@ == (DriverView {
                nodes: old(self)@.nodes.map_values(
                    |n: DriverNodeView| bone_forgotten(n, kill@.to_set()),
                ),
                ..old(self)@
            }),
    {
        let ghost before = self@;
        let ghost target = before.nodes.map_values(
            |n: DriverNodeView| bone_forgotten(n, kill@.to_set()),
        );
        let n: usize = self.nodes.len();
        let mut i: usize = 0;
        while i < n
            invariant
                i <= n,
                n == self.nodes@.len(),
                n == before.nodes.len(),
                target == before.nodes.map_values(
                    |n: DriverNodeView| bone_forgotten(n, kill@.to_set()),
                ),
                self@ == (DriverView { nodes: self@.nodes, ..before }),
                forall|j: int| 0 <= j < i ==> self@.nodes[j] == target[j],
                forall|j: int| i <= j < n ==> self@.nodes[j] == before.nodes[j],
            decreases n - i,
        {
            let dead = match self.nodes[i].bone {
                Some(b) => lists_bone(kill, b),
                None => false,
            };
            let ghost was = self@.nodes;
            assert(was[i as int] == before.nodes[i as int]);
            if dead {
                self.nodes[i].bone = None;
            }
            assert(forall|j: int| 0 <= j < n && j != i ==> self@.nodes[j] == was[j]);
            assert(self@.nodes[i as int] =~= target[i as int]);
            i = i + 1;
        }
        assert(self@.nodes =~= target);
    }

    /// Follows the removal of shape key `index` of `mesh`.
    pub fn on_shape_removed(&mut self, mesh: MeshHandle, index: usize)
        ensures
            final(self)@ == (DriverView {
                nodes: old(self)@.nodes.map_values(
                    |n: DriverNodeView| shape_dropped(n, mesh, index),
                ),
                ..old(self)@
            }),
    {
        let ghost before = self@;
        let ghost target = before.nodes.map_values(
            |n: DriverNodeView| shape_dropped(n, mesh, index),
        );
        let n: usize = self.nodes.len();
        let mut i: usize = 0;
        while i < n
            invariant
                i <= n,
                n == self.nodes@.len(),
                n == before.nodes.len(),
                target == before.nodes.map_values(
                    |n: DriverNodeView| shape_dropped(n, mesh, index),
                ),
                self@ == (DriverView { nodes: self@.nodes, ..before }),
                forall|j: int| 0 <= j < i ==> self@.nodes[j] == target[j],
                forall|j: int| i <= j < n ==> self@.nodes[j] == before.nodes[j],
            decreases n - i,
        {
            let ghost was = self@.nodes;
            assert(was[i as int] == before.nodes[i as int]);
            let ours = match self.nodes[i].mesh {
                Some(m) => m == mesh && self.nodes[i].kind == DriverNodeKind::MorphSet,
                None => false,
            };
            if ours {
                let shape = self.nodes[i].shape;
                if shape == index {
                    self.nodes[i].mesh = None;
                    self.nodes[i].shape = 0;
                } else if shape > index {
                    self.nodes[i].shape = shape - 1;
                }
            }
            assert(forall|j: int| 0 <= j < n && j != i ==> self@.nodes[j] == was[j]);
            assert(self@.nodes[i as int] =~= target[i as int]);
            i = i + 1;
        }
        assert(self@.nodes =~= target);
    }
}

/// Whether `id` is one of `ids`.
pub fn lists_text(ids: &Vec<String>, id: &str) -> (r: bool)
    ensures
        r == texts_view(ids@).contains(id@),
{
    let mut i: usize = 0;
    while i < ids.len()
        invariant
            i <= ids@.len(),
            forall|j: int| 0 <= j < i ==> texts_view(ids@)[j] != id@,
        decreases ids.len() - i,
    {
        if same_text(&ids[i], id) {
            assert(texts_view(ids@)[i as int] == id@);
            return true;
        }
        i = i + 1;
    }
    false
}

/// Whether `id` is one of `ids`.
pub fn lists_bone(ids: &Vec<BoneId>, id: BoneId) -> (r: bool)
    ensures
        r == ids@.contains(id),
{
    let mut i: usize = 0;
    while i < ids.len()
        invariant
            i <= ids@.len(),
            forall|j: int| 0 <= j < i ==> ids@[j] != id,
        decreases ids.len() - i,
    {
        if ids[i] == id {
            assert(ids@[i as int] == id);
            return true;
        }
        i = i + 1;
    }
    false
}

} // verus!
