//! What a brush stroke begins on, and what it does frame by frame.

use vstd::prelude::*;
use crate::geom::Scalar;
use crate::order::less_than;
use crate::rig::{BrushKind, RigView};
use crate::scene::{MeshHandle, MeshView, NodeView, SceneView};
use crate::sculpt::{
    brush_reach, mesh_neighbours, present, shape_count, size_of_mesh, smooth_jobs, stroke_of,
    stroked, target_of, targets_of, BrushVert, MeshSize, PickTarget, SculptView, SmoothView,
};

verus! {

/// A frame of an Inflate stroke with vertices under the brush moves them
/// inwards exactly if that was asked for.
pub proof fn law_inflate(
    d: SculptView,
    hit: Option<PickTarget>,
    verts: Seq<BrushVert>,
    n: nat,
    indices: Seq<u32>,
    invert: bool,
)
    requires
        d.kind == BrushKind::Inflate,
        verts.len() > 0 && d.verts.len() > 0,
    ensures
        stroked(d, hit, verts, n, indices, invert).1 is Inflate,
        stroked(d, hit, verts, n, indices, invert).1->inwards == invert,
{
}

/// What a frame of a stroke works on: a grab goes on with the vertices it began
/// with; the other brushes take what is under the pointer now where that is on
/// their mesh, and else go on with what they had.
pub proof fn law_stroke_verts(
    d: SculptView,
    hit: Option<PickTarget>,
    verts: Seq<BrushVert>,
    n: nat,
    indices: Seq<u32>,
    invert: bool,
)
    ensures
        ({
            let (e, w) = stroked(d, hit, verts, n, indices, invert);
            let on = hit matches Some(t) && t.mesh == d.mesh;
            &&& d.kind == BrushKind::Grab ==> e.verts == d.verts && w is Grab
            &&& d.kind != BrushKind::Grab && on ==> e.verts == verts
            &&& d.kind != BrushKind::Grab && !on ==> e.verts == d.verts
            &&& d.kind != BrushKind::Grab && e.verts.len() == 0 ==> w is Nothing
            &&& d.kind == BrushKind::Inflate && e.verts.len() > 0 ==> w is Inflate && w->inwards == invert
            &&& d.kind == BrushKind::Smooth && e.verts.len() > 0 ==> w is Smooth
        }),
{
}

/// Vertex `v` of the brush is to be smoothed: it has a neighbour in the mesh.
pub open spec fn smoothable(adj: Seq<Seq<usize>>, n: nat, v: usize) -> bool {
    v < adj.len() && exists|i: int| 0 <= i < adj[v as int].len() && (#[trigger] adj[v as int][i]) < n
}

/// The neighbours that count are those in the mesh, in their order.
pub proof fn law_present(s: Seq<usize>, n: nat, k: int, x: usize)
    requires
        0 <= k <= s.len(),
    ensures
        present(s, n, k).contains(x) <==> x < n && exists|i: int| 0 <= i < k && #[trigger] s[i] == x,
        present(s, n, k).len() <= k,
        (forall|i: int| 0 <= i < k ==> #[trigger] s[i] < n) ==> present(s, n, k) == s.take(k),
    decreases k,
{
    if k > 0 {
        law_present(s, n, k - 1, x);
        let was = present(s, n, k - 1);
        let all = present(s, n, k);
        if s[k - 1] < n {
            assert(all[was.len() as int] == s[k - 1]);
            if was.contains(x) {
                let i = choose|i: int| 0 <= i < was.len() && was[i] == x;
                assert(all[i] == x);
            }
            if all.contains(x) && x != s[k - 1] {
                let i = choose|i: int| 0 <= i < all.len() && all[i] == x;
                assert(was[i] == x);
            }
        }
        if exists|i: int| 0 <= i < k - 1 && #[trigger] s[i] == x {
            let i = choose|i: int| 0 <= i < k - 1 && #[trigger] s[i] == x;
            assert(0 <= i < k && s[i] == x);
        }
        if exists|i: int| 0 <= i < k && #[trigger] s[i] == x {
            let i = choose|i: int| 0 <= i < k && #[trigger] s[i] == x;
            if i < k - 1 {
                assert(0 <= i < k - 1 && s[i] == x);
            }
        }
        if forall|i: int| 0 <= i < k ==> #[trigger] s[i] < n {
            assert(s.take(k) =~= s.take(k - 1).push(s[k - 1]));
        }
    } else {
        assert(s.take(0) =~= Seq::empty());
    }
}

/// Smoothing works on the vertices under the brush that have neighbours, each
/// with its own strength, towards the neighbours that it has.
pub proof fn law_smooth_jobs(verts: Seq<BrushVert>, adj: Seq<Seq<usize>>, n: nat, k: int, j: SmoothView)
    requires
        0 <= k <= verts.len(),
    ensures
        smooth_jobs(verts, adj, n, k).contains(j) ==> exists|i: int|
            0 <= i < k && (#[trigger] verts[i]).vertex == j.vertex && verts[i].falloff == j.falloff
                && smoothable(adj, n, j.vertex) && j.neighbours == present(
                adj[j.vertex as int],
                n,
                adj[j.vertex as int].len() as int,
            ),
        forall|i: int|
            0 <= i < k && smoothable(adj, n, (#[trigger] verts[i]).vertex) ==> exists|m: int|
                0 <= m < smooth_jobs(verts, adj, n, k).len() && (#[trigger] smooth_jobs(verts, adj, n, k)[m]).vertex
                    == verts[i].vertex && smooth_jobs(verts, adj, n, k)[m].falloff == verts[i].falloff,
    decreases k,
{
    if k > 0 {
        law_smooth_jobs(verts, adj, n, k - 1, j);
        let was = smooth_jobs(verts, adj, n, k - 1);
        let all = smooth_jobs(verts, adj, n, k);
        let b = verts[k - 1];
        if b.vertex < adj.len() {
            let s = adj[b.vertex as int];
            let near = present(s, n, s.len() as int);
            assert(near.len() > 0 <==> smoothable(adj, n, b.vertex)) by {
                if near.len() > 0 {
                    law_present(s, n, s.len() as int, near[0]);
                    assert(near.contains(near[0]));
                }
                if smoothable(adj, n, b.vertex) {
                    let i = choose|i: int| 0 <= i < s.len() && (#[trigger] s[i]) < n;
                    law_present(s, n, s.len() as int, s[i]);
                }
            }
        }
        if all.contains(j) {
            let m = choose|m: int| 0 <= m < all.len() && all[m] == j;
            if m < was.len() {
                assert(was[m] == j);
                let i = choose|i: int|
                    0 <= i < k - 1 && (#[trigger] verts[i]).vertex == j.vertex && verts[i].falloff
                        == j.falloff;
                assert(0 <= i < k && verts[i].vertex == j.vertex);
            } else {
                assert(verts[k - 1].vertex == j.vertex);
            }
        }
        assert forall|i: int| 0 <= i < k && smoothable(adj, n, (#[trigger] verts[i]).vertex) implies exists|m: int|
            0 <= m < all.len() && (#[trigger] all[m]).vertex == verts[i].vertex && all[m].falloff
                == verts[i].falloff by {
            if i < k - 1 {
                let m = choose|m: int|
                    0 <= m < was.len() && (#[trigger] was[m]).vertex == verts[i].vertex && was[m].falloff
                        == verts[i].falloff;
                assert(all[m] == was[m]);
            } else {
                assert(all[was.len() as int].vertex == verts[i].vertex);
            }
        }
    }
}

/// A Smooth stroke works by the neighbours that the faces of its mesh give.
pub proof fn law_smooth_neighbours(
    d: SculptView,
    hit: Option<PickTarget>,
    verts: Seq<BrushVert>,
    n: nat,
    indices: Seq<u32>,
    invert: bool,
)
    requires
        d.kind == BrushKind::Smooth,
        d.adjacency.len() == 0 || d.adjacency == mesh_neighbours(indices, n),
        stroked(d, hit, verts, n, indices, invert).0.verts.len() > 0,
    ensures
        ({
            let (e, w) = stroked(d, hit, verts, n, indices, invert);
            &&& e.adjacency == mesh_neighbours(indices, n)
            &&& w->jobs == smooth_jobs(e.verts, mesh_neighbours(indices, n), n, e.verts.len() as int)
        }),
{
}

/// A mesh has the number of shape keys that its first entry in the table says.
pub proof fn law_shape_count(meshes: Seq<MeshView>, h: MeshHandle, k: int, i: int)
    requires
        0 <= k <= meshes.len(),
    ensures
        0 <= i < k && meshes[i].handle == h && (forall|j: int|
            0 <= j < i ==> (#[trigger] meshes[j]).handle != h) ==> shape_count(meshes, h, k) == Some(
            meshes[i].morph_targets.len(),
        ),
        (forall|j: int| 0 <= j < k ==> (#[trigger] meshes[j]).handle != h) ==> shape_count(meshes, h, k) is None,
    decreases k,
{
    if k > 0 {
        law_shape_count(meshes, h, k - 1, i);
        if i == k - 1 && forall|j: int| 0 <= j < i ==> (#[trigger] meshes[j]).handle != h {
            law_shape_count(meshes, h, k - 1, 0);
        }
    }
}

/// A stroke begins if and only if a mesh and one of its shape keys are active,
/// the pointer is over that mesh, and the brush covers something.
pub proof fn law_stroke_begins(
    r: RigView,
    s: SceneView,
    hit: Option<PickTarget>,
    verts: Seq<BrushVert>,
    n: nat,
    indices: Seq<u32>,
    i: int,
)
    requires
        r.active_mesh is Some ==> {
            ||| 0 <= i < s.meshes.len() && s.meshes[i].handle == r.active_mesh->0 && forall|j: int|
                0 <= j < i ==> (#[trigger] s.meshes[j]).handle != r.active_mesh->0
            ||| i < 0 && forall|j: int|
                0 <= j < s.meshes.len() ==> (#[trigger] s.meshes[j]).handle != r.active_mesh->0
        },
    ensures
        stroke_of(r, s, hit, verts, n, indices) is Some <==> {
            &&& r.active_mesh is Some && r.active_shape is Some && hit is Some
            &&& hit->0.mesh == r.active_mesh->0
            &&& verts.len() > 0
            &&& i >= 0 && r.active_shape->0 < s.meshes[i].morph_targets.len()
        },
        stroke_of(r, s, hit, verts, n, indices) matches Some(d) ==> {
            &&& d.mesh == r.active_mesh->0 && d.shape == r.active_shape->0 && d.node == hit->0.node
            &&& d.kind == r.brush_kind && d.verts == verts
            &&& r.brush_kind == BrushKind::Smooth ==> d.adjacency == mesh_neighbours(indices, n)
        },
{
    if r.active_mesh is Some {
        law_shape_count(s.meshes, r.active_mesh->0, s.meshes.len() as int, i);
    }
}

/// A mesh has the size that its first entry in the table says.
pub proof fn law_mesh_size(sizes: Seq<MeshSize>, h: MeshHandle, k: int, i: int)
    requires
        0 <= k <= sizes.len(),
    ensures
        0 <= i < k && sizes[i].handle == h && (forall|j: int| 0 <= j < i ==> (#[trigger] sizes[j]).handle != h)
            ==> size_of_mesh(sizes, h, k) == Some(sizes[i]),
        (forall|j: int| 0 <= j < k ==> (#[trigger] sizes[j]).handle != h) ==> size_of_mesh(sizes, h, k) is None,
    decreases k,
{
    if k > 0 {
        law_mesh_size(sizes, h, k - 1, i);
        if i == k - 1 && forall|j: int| 0 <= j < i ==> (#[trigger] sizes[j]).handle != h {
            law_mesh_size(sizes, h, k - 1, 0);
        }
    }
}

/// Node `n` can be picked: it is visible, and carries a mesh with a triangle.
pub open spec fn pickable(n: NodeView, sizes: Seq<MeshSize>) -> bool {
    &&& n.visible
    &&& n.mesh is Some
    &&& size_of_mesh(sizes, n.mesh->0, sizes.len() as int) matches Some(s) && s.vertices >= 3 && s.indices >= 3
}

/// What can be picked are the visible nodes that carry a mesh with a triangle.
pub proof fn law_pick_targets(nodes: Seq<NodeView>, sizes: Seq<MeshSize>, t: PickTarget)
    ensures
        targets_of(nodes, sizes).contains(t) <==> exists|i: int|
            0 <= i < nodes.len() && pickable(#[trigger] nodes[i], sizes) && t.node == nodes[i].handle
                && Some(t.mesh) == nodes[i].mesh,
    decreases nodes.len(),
{
    if nodes.len() > 0 {
        let front = nodes.drop_last();
        let was = targets_of(front, sizes);
        let all = targets_of(nodes, sizes);
        law_pick_targets(front, sizes, t);
        let x = target_of(nodes.last(), sizes);
        let n = nodes[nodes.len() - 1];
        assert(all.contains(t) <==> was.contains(t) || x == Some(t)) by {
            if was.contains(t) {
                let k = choose|k: int| 0 <= k < was.len() && was[k] == t;
                assert(all[k] == t);
            }
            if x is Some {
                assert(all[was.len() as int] == x->0);
            }
            if all.contains(t) && x != Some(t) {
                let k = choose|k: int| 0 <= k < all.len() && all[k] == t;
                assert(was[k] == t);
            }
        }
        if was.contains(t) {
            let i = choose|i: int|
                0 <= i < front.len() && pickable(#[trigger] front[i], sizes) && t.node == front[i].handle
                    && Some(t.mesh) == front[i].mesh;
            assert(pickable(nodes[i], sizes));
        }
        if x == Some(t) {
            assert(pickable(nodes[nodes.len() - 1], sizes));
        }
        if exists|i: int|
            0 <= i < nodes.len() && pickable(#[trigger] nodes[i], sizes) && t.node == nodes[i].handle
                && Some(t.mesh) == nodes[i].mesh {
            let i = choose|i: int|
                0 <= i < nodes.len() && pickable(#[trigger] nodes[i], sizes) && t.node == nodes[i].handle
                    && Some(t.mesh) == nodes[i].mesh;
            if i < front.len() {
                assert(pickable(front[i], sizes));
            }
        }
    }
}

/// A brush reaches as far as its radius, and never less than a ten thousandth.
pub proof fn law_brush_reach(radius: Scalar)
    ensures
        less_than(Scalar { bits: 0x38D1_B717 }, radius) ==> brush_reach(radius) == radius,
        less_than(radius, Scalar { bits: 0x38D1_B717 }) ==> brush_reach(radius).bits == 0x38D1_B717,
{
}

} // verus!
