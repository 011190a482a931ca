//! What the rig reads and writes of a scene: nodes, skins and meshes, each
//! addressed by a generational handle that the host's arena hands out.

use vstd::prelude::*;
use crate::geom::{Scalar, Transform};

verus! {

/// Address of a scene node.
#[derive(Clone, Copy, Debug, PartialEq, Eq, Structural, Hash)]
pub struct NodeHandle {
    pub index: u32,
    pub generation: u32,
}

/// Address of a mesh.
#[derive(Clone, Copy, Debug, PartialEq, Eq, Structural, Hash)]
pub struct MeshHandle {
    pub index: u32,
    pub generation: u32,
}

/// Address of a skin.
#[derive(Clone, Copy, Debug, PartialEq, Eq, Structural, Hash)]
pub struct SkinHandle {
    pub index: u32,
    pub generation: u32,
}

impl NodeHandle {
    /// Index and generation packed into one integer.
    pub open spec fn key_of(self) -> u64 {
        (self.index * 0x1_0000_0000 + self.generation) as u64
    }

    pub fn key(&self) -> (k: u64)
        ensures
            k == self.key_of(),
    {
        self.index as u64 * 0x1_0000_0000 + self.generation as u64
    }
}

/// The handle with key `k`.
pub open spec fn key_handle(k: u64) -> NodeHandle {
    NodeHandle { index: (k / 0x1_0000_0000) as u32, generation: (k % 0x1_0000_0000) as u32 }
}

/// Keys and handles are two ways to write the same thing.
pub proof fn lemma_key_handle(k: u64, h: NodeHandle)
    ensures
        key_handle(h.key_of()) == h,
        key_handle(k).key_of() == k,
{
}

/// Two handles with one key are one handle.
pub broadcast proof fn lemma_key_injective(a: NodeHandle, b: NodeHandle)
    requires
        #[trigger] a.key_of() == #[trigger] b.key_of(),
    ensures
        a == b,
{
}

pub struct Node {
    pub handle: NodeHandle,
    pub name: String,
    pub parent: Option<NodeHandle>,
    pub local: Transform,
    pub mesh: Option<MeshHandle>,
    pub skin: Option<SkinHandle>,
    pub visible: bool,
}

pub struct Skin {
    pub handle: SkinHandle,
    pub joints: Vec<NodeHandle>,
}

pub struct Mesh {
    pub handle: MeshHandle,
    /// Names of the shape keys, in order.
    pub morph_targets: Vec<String>,
    /// Weight of each shape key; may be shorter than `morph_targets`.
    pub morph_weights: Vec<Scalar>,
}

/// Node, skin and mesh tables in the arena's order of iteration.
pub struct Scene {
    pub nodes: Vec<Node>,
    pub skins: Vec<Skin>,
    pub meshes: Vec<Mesh>,
}

/// What a scene node holds.
#[verifier::ext_equal]
pub struct NodeView {
    pub handle: NodeHandle,
    pub name: Seq<char>,
    pub parent: Option<NodeHandle>,
    pub local: Transform,
    pub mesh: Option<MeshHandle>,
    pub skin: Option<SkinHandle>,
    pub visible: bool,
}

impl View for Node {
    type V = NodeView;

    open spec fn view(&self) -> NodeView {
        NodeView {
            handle: self.handle,
            name: self.name@,
            parent: self.parent,
            local: self.local,
            mesh: self.mesh,
            skin: self.skin,
            visible: self.visible,
        }
    }
}

/// What a skin holds.
#[verifier::ext_equal]
pub struct SkinView {
    pub handle: SkinHandle,
    pub joints: Seq<NodeHandle>,
}

impl View for Skin {
    type V = SkinView;

    open spec fn view(&self) -> SkinView {
        SkinView { handle: self.handle, joints: self.joints@ }
    }
}

/// What a mesh holds.
#[verifier::ext_equal]
pub struct MeshView {
    pub handle: MeshHandle,
    pub morph_targets: Seq<Seq<char>>,
    pub morph_weights: Seq<Scalar>,
}

impl View for Mesh {
    type V = MeshView;

    open spec fn view(&self) -> MeshView {
        MeshView {
            handle: self.handle,
            morph_targets: texts_view(self.morph_targets@),
            morph_weights: self.morph_weights@,
        }
    }
}

/// A list of strings as a list of character sequences.
pub open spec fn texts_view(s: Seq<String>) -> Seq<Seq<char>> {
    Seq::new(s.len(), |i: int| s[i]@)
}

pub open spec fn nodes_view(s: Seq<Node>) -> Seq<NodeView> {
    Seq::new(s.len(), |i: int| s[i]@)
}

pub open spec fn skins_view(s: Seq<Skin>) -> Seq<SkinView> {
    Seq::new(s.len(), |i: int| s[i]@)
}

pub open spec fn meshes_view(s: Seq<Mesh>) -> Seq<MeshView> {
    Seq::new(s.len(), |i: int| s[i]@)
}

/// The scene as a mathematical value.
#[verifier::ext_equal]
pub struct SceneView {
    pub nodes: Seq<NodeView>,
    pub skins: Seq<SkinView>,
    pub meshes: Seq<MeshView>,
}

impl View for Scene {
    type V = SceneView;

    open spec fn view(&self) -> SceneView {
        SceneView {
            nodes: nodes_view(self.nodes@),
            skins: skins_view(self.skins@),
            meshes: meshes_view(self.meshes@),
        }
    }
}

/// The node with handle `h` stands at place `i`.
pub open spec fn node_at(nodes: Seq<NodeView>, h: NodeHandle, i: int) -> bool {
    0 <= i < nodes.len() && nodes[i].handle == h
}

pub open spec fn has_node(nodes: Seq<NodeView>, h: NodeHandle) -> bool {
    exists|i: int| node_at(nodes, h, i)
}

/// The place of the node with handle `h`.
pub open spec fn node_pos(nodes: Seq<NodeView>, h: NodeHandle) -> int {
    choose|i: int| node_at(nodes, h, i)
}

/// The node with handle `h`, if there is one.
pub open spec fn node_get(nodes: Seq<NodeView>, h: NodeHandle) -> Option<NodeView> {
    if has_node(nodes, h) {
        Some(nodes[node_pos(nodes, h)])
    } else {
        None
    }
}

/// The parent recorded in the node with handle `h`, if that node exists.
pub open spec fn node_parent(nodes: Seq<NodeView>, h: NodeHandle) -> Option<NodeHandle> {
    match node_get(nodes, h) {
        Some(n) => n.parent,
        None => None,
    }
}

/// Every node under handle `h` gets the local transform `t`.
pub open spec fn with_local(nodes: Seq<NodeView>, h: NodeHandle, t: Transform) -> Seq<NodeView> {
    Seq::new(
        nodes.len(),
        |i: int|
            if nodes[i].handle == h {
                NodeView { local: t, ..nodes[i] }
            } else {
                nodes[i]
            },
    )
}

/// Every node under handle `h` gets the parent `p`.
pub open spec fn with_parent(
    nodes: Seq<NodeView>,
    h: NodeHandle,
    p: Option<NodeHandle>,
) -> Seq<NodeView> {
    Seq::new(
        nodes.len(),
        |i: int|
            if nodes[i].handle == h {
                NodeView { parent: p, ..nodes[i] }
            } else {
                nodes[i]
            },
    )
}

/// No two nodes share a slot of the arena, and no two meshes a handle.
pub open spec fn scene_ok(s: SceneView) -> bool {
    &&& forall|i: int, j: int|
        0 <= i < j < s.nodes.len() ==> (#[trigger] s.nodes[i]).handle.index != (
        #[trigger] s.nodes[j]).handle.index
    &&& forall|i: int, j: int|
        0 <= i < j < s.meshes.len() ==> (#[trigger] s.meshes[i]).handle != (
        #[trigger] s.meshes[j]).handle
}

/// No node stands in the slot of `h`.
pub open spec fn slot_free(nodes: Seq<NodeView>, h: NodeHandle) -> bool {
    forall|i: int| 0 <= i < nodes.len() ==> (#[trigger] nodes[i]).handle.index != h.index
}

/// In a proper table the place of a handle is the only one it occurs at.
pub proof fn lemma_node_pos(s: SceneView, h: NodeHandle, i: int)
    requires
        scene_ok(s),
        node_at(s.nodes, h, i),
    ensures
        has_node(s.nodes, h),
        node_pos(s.nodes, h) == i,
        node_get(s.nodes, h) == Some(s.nodes[i]),
{
}

impl Scene {
    pub open spec fn wf(self) -> bool {
        scene_ok(self@)
    }

    /// Place of the node with handle `h`.
    pub fn find_node(&self, h: NodeHandle) -> (r: Option<usize>)
        requires
            self.wf(),
        ensures
            match r {
                Some(i) => node_at(self@.nodes, h, i as int) && i == node_pos(self@.nodes, h),
                None => !has_node(self@.nodes, h),
            },
    {
        let mut i: usize = 0;
        while i < self.nodes.len()
            invariant
                i <= self.nodes@.len(),
                forall|j: int| 0 <= j < i ==> self@.nodes[j].handle != h,
                self.wf(),
            decreases self.nodes.len() - i,
        {
            if self.nodes[i].handle == h {
                assert(node_at(self@.nodes, h, i as int));
                return Some(i);
            }
            i = i + 1;
        }
        None
    }

    /// Gives the node with handle `h` the local transform `t`, where it exists.
    pub fn set_local(&mut self, h: NodeHandle, t: Transform)
        requires
            old(self).wf(),
        ensures
            final(self).wf(),
            final(self)@ == (SceneView { nodes: with_local(old(self)@.nodes, h, t), ..old(self)@ }),
    {
        match self.find_node(h) {
            Some(i) => {
                self.nodes[i].local = t;
            },
            None => {
                assert forall|i: int| 0 <= i < self@.nodes.len() implies self@.nodes[i].handle
                    != h by {
                    if self@.nodes[i].handle == h {
                        assert(node_at(self@.nodes, h, i));
                    }
                }
            },
        }
        assert(self@.nodes =~= with_local(old(self)@.nodes, h, t));
        proof {
            lemma_same_handles(*old(self), *self);
        }
    }

    /// Gives the node with handle `h` the parent `p`, where it exists.
    pub fn set_parent(&mut self, h: NodeHandle, p: Option<NodeHandle>)
        requires
            old(self).wf(),
        ensures
            final(self).wf(),
            final(self)@ == (SceneView { nodes: with_parent(old(self)@.nodes, h, p), ..old(self)@ }),
    {
        match self.find_node(h) {
            Some(i) => {
                self.nodes[i].parent = p;
            },
            None => {
                assert forall|i: int| 0 <= i < self@.nodes.len() implies self@.nodes[i].handle
                    != h by {
                    if self@.nodes[i].handle == h {
                        assert(node_at(self@.nodes, h, i));
                    }
                }
            },
        }
        assert(self@.nodes =~= with_parent(old(self)@.nodes, h, p));
        proof {
            lemma_same_handles(*old(self), *self);
        }
    }

    /// The first mesh that a node of the scene carries.
    pub fn first_mesh(&self) -> (r: Option<MeshHandle>)
        ensures
            r == first_mesh_of(self@.nodes),
    {
        let mut i: usize = 0;
        proof {
            assert(self@.nodes.skip(0) =~= self@.nodes);
        }
        while i < self.nodes.len()
            invariant
                i <= self.nodes@.len(),
                first_mesh_of(self@.nodes) == first_mesh_of(self@.nodes.skip(i as int)),
            decreases self.nodes.len() - i,
        {
            assert(self@.nodes.skip(i as int).skip(1) =~= self@.nodes.skip(i as int + 1));
            assert(self@.nodes.skip(i as int)[0] == self.nodes@[i as int]@);
            if self.nodes[i].mesh.is_some() {
                return self.nodes[i].mesh;
            }
            i = i + 1;
        }
        None
    }
}

/// The mesh of the first node that carries one.
pub open spec fn first_mesh_of(nodes: Seq<NodeView>) -> Option<MeshHandle>
    decreases nodes.len(),
{
    if nodes.len() == 0 {
        None
    } else if nodes[0].mesh is Some {
        nodes[0].mesh
    } else {
        first_mesh_of(nodes.skip(1))
    }
}

proof fn lemma_same_handles(a: Scene, b: Scene)
    requires
        a.wf(),
        a@.nodes.len() == b@.nodes.len(),
        forall|i: int| 0 <= i < a@.nodes.len() ==> (#[trigger] b@.nodes[i]).handle == a@.nodes[i].handle,
        a@.meshes == b@.meshes,
    ensures
        b.wf(),
{
}

} // verus!
