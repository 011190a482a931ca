//! Shape-key brushes: which meshes can be picked, which vertices a brush covers,
//! and what a stroke works on.

use vstd::prelude::*;
use crate::geom::Scalar;
use crate::mesh_faces::{
    build_adjacency, face_count, faces_of, first_hit, lists_of, nearest_face, neighbours,
};
use crate::order::{larger, less_than};
use crate::rig::{BrushKind, RigDocument, RigView};
use crate::scene::{MeshHandle, MeshView, NodeHandle, NodeView, Scene, SceneView};

verus! {

/// Bit pattern of `0.0001`.
pub const BITS_0_0001: u32 = 0x38D1_B717;

/// How much a mesh holds.
#[derive(Clone, Copy, Debug, PartialEq, Eq, Structural)]
pub struct MeshSize {
    pub handle: MeshHandle,
    pub vertices: usize,
    pub indices: usize,
}

/// The size of mesh `h`, from the first `k`.
pub open spec fn size_of_mesh(sizes: Seq<MeshSize>, h: MeshHandle, k: int) -> Option<MeshSize>
    decreases k,
{
    if k <= 0 {
        None
    } else {
        match size_of_mesh(sizes, h, k - 1) {
            Some(s) => Some(s),
            None => if sizes[k - 1].handle == h {
                Some(sizes[k - 1])
            } else {
                None
            },
        }
    }
}

/// A node that is drawn as a mesh.
#[derive(Clone, Copy, Debug, PartialEq, Eq, Structural)]
pub struct PickTarget {
    pub node: NodeHandle,
    pub mesh: MeshHandle,
}

/// What node `n` offers to a pick: nothing where it is hidden, has no mesh, or
/// the mesh has not even one triangle.
pub open spec fn target_of(n: NodeView, sizes: Seq<MeshSize>) -> Option<PickTarget> {
    match n.mesh {
        Some(h) => if !n.visible {
            None
        } else {
            match size_of_mesh(sizes, h, sizes.len() as int) {
                Some(s) => if s.vertices < 3 || s.indices < 3 {
                    None
                } else {
                    Some(PickTarget { node: n.handle, mesh: h })
                },
                None => None,
            }
        },
        None => None,
    }
}

/// What can be picked, in order.
pub open spec fn targets_of(nodes: Seq<NodeView>, sizes: Seq<MeshSize>) -> Seq<PickTarget>
    decreases nodes.len(),
{
    if nodes.len() == 0 {
        Seq::empty()
    } else {
        let front = targets_of(nodes.drop_last(), sizes);
        match target_of(nodes.last(), sizes) {
            Some(t) => front.push(t),
            None => front,
        }
    }
}

fn find_size(sizes: &Vec<MeshSize>, h: MeshHandle) -> (r: Option<MeshSize>)
    ensures
        r == size_of_mesh(sizes@, h, sizes@.len() as int),
{
    let mut found: Option<MeshSize> = None;
    let mut i: usize = 0;
    while i < sizes.len()
        invariant
            i <= sizes@.len(),
            found == size_of_mesh(sizes@, h, i as int),
        decreases sizes.len() - i,
    {
        if found.is_none() && sizes[i].handle == h {
            found = Some(sizes[i]);
        }
        i = i + 1;
    }
    found
}

impl Scene {
    /// The nodes that a pick looks at.
    pub fn pick_targets(&self, sizes: &Vec<MeshSize>) -> (r: Vec<PickTarget>)
        ensures
            r@ == targets_of(self@.nodes, sizes@),
    {
        let ghost nodes = self@.nodes;
        let mut out: Vec<PickTarget> = Vec::new();
        let mut i: usize = 0;
        assert(nodes.take(0) =~= Seq::empty());
        while i < self.nodes.len()
            invariant
                i <= self.nodes@.len(),
                nodes == self@.nodes,
                out@ == targets_of(nodes.take(i as int), sizes@),
            decreases self.nodes.len() - i,
        {
            let ghost t = nodes.take(i as int + 1);
            assert(t.drop_last() =~= nodes.take(i as int));
            assert(t.last() == self.nodes@[i as int]@);
            if self.nodes[i].visible {
                if let Some(mesh) = self.nodes[i].mesh {
                    if let Some(s) = find_size(sizes, mesh) {
                        if s.vertices >= 3 && s.indices >= 3 {
                            out.push(PickTarget { node: self.nodes[i].handle, mesh });
                        }
                    }
                }
            }
            i = i + 1;
        }
        assert(nodes.take(i as int) =~= nodes);
        out
    }
}

/// Where a ray meets one triangle of a mesh.
#[derive(Clone, Copy, Debug, PartialEq, Eq, Structural)]
pub struct MeshHit {
    pub node: NodeHandle,
    pub mesh: MeshHandle,
    /// Distance along the ray.
    pub t: Scalar,
}

pub open spec fn distances(hits: Seq<MeshHit>) -> Seq<Option<Scalar>> {
    Seq::new(hits.len(), |i: int| Some(hits[i].t))
}

/// The hit that is nearest to the eye.
pub fn pick_mesh(hits: &Vec<MeshHit>) -> (r: Option<MeshHit>)
    ensures
        match first_hit(distances(hits@)) {
            Some(k) => r == Some(hits@[k]),
            None => r is None,
        },
{
    let mut ts: Vec<Option<Scalar>> = Vec::new();
    let mut i: usize = 0;
    while i < hits.len()
        invariant
            i <= hits@.len(),
            ts@.len() == i,
            forall|j: int| 0 <= j < i ==> #[trigger] ts@[j] == Some(hits@[j].t),
        decreases hits.len() - i,
    {
        ts.push(Some(hits[i].t));
        i = i + 1;
    }
    assert(ts@ =~= distances(hits@));
    match nearest_face(&ts) {
        Some(k) => Some(hits[k]),
        None => None,
    }
}

/// A vertex under the brush, and how strongly the brush acts on it.
#[derive(Clone, Copy, Debug, PartialEq, Eq, Structural)]
pub struct BrushVert {
    pub vertex: usize,
    pub falloff: Scalar,
}

/// The radius that a brush works with.
pub open spec fn brush_reach(radius: Scalar) -> Scalar {
    larger(radius, Scalar { bits: BITS_0_0001 })
}

/// The vertices that are not farther than `reach`, given the distance of each of
/// the first `k`.
pub open spec fn covered(d: Seq<Scalar>, reach: Scalar, k: int) -> Seq<usize>
    decreases k,
{
    if k <= 0 {
        Seq::empty()
    } else if less_than(reach, d[k - 1]) {
        covered(d, reach, k - 1)
    } else {
        covered(d, reach, k - 1).push((k - 1) as usize)
    }
}

/// The vertices that a brush of radius `radius` covers, given the distance of
/// each from its centre.
pub fn collect_brush_verts(d: &Vec<Scalar>, radius: Scalar) -> (r: Vec<usize>)
    ensures
        r@ == covered(d@, brush_reach(radius), d@.len() as int),
{
    let reach = radius.or_larger(&Scalar { bits: BITS_0_0001 });
    let mut out: Vec<usize> = Vec::new();
    let mut i: usize = 0;
    while i < d.len()
        invariant
            i <= d@.len(),
            reach == brush_reach(radius),
            out@ == covered(d@, reach, i as int),
        decreases d.len() - i,
    {
        if !reach.less(&d[i]) {
            out.push(i);
        }
        i = i + 1;
    }
    out
}

/// A brush covers exactly the vertices within its reach, each once and in
/// rising order.
pub proof fn law_covered(d: Seq<Scalar>, reach: Scalar, k: int)
    requires
        0 <= k <= d.len(),
        d.len() <= usize::MAX,
    ensures
        forall|v: usize|
            #[trigger] covered(d, reach, k).contains(v) <==> v < k && !less_than(
                reach,
                d[v as int],
            ),
        forall|i: int, j: int|
            0 <= i < j < covered(d, reach, k).len() ==> #[trigger] covered(d, reach, k)[i]
                < #[trigger] covered(d, reach, k)[j],
    decreases k,
{
    let all = covered(d, reach, k);
    if k > 0 {
        let was = covered(d, reach, k - 1);
        law_covered(d, reach, k - 1);
        assert forall|v: usize| #[trigger] all.contains(v) <==> v < k && !less_than(
            reach,
            d[v as int],
        ) by {
            if !less_than(reach, d[k - 1]) {
                assert(all[was.len() as int] == k - 1);
                if was.contains(v) {
                    let i = choose|i: int| 0 <= i < was.len() && was[i] == v;
                    assert(all[i] == v);
                }
                if all.contains(v) && v != k - 1 {
                    let i = choose|i: int| 0 <= i < all.len() && all[i] == v;
                    assert(was[i] == v);
                }
            }
        }
        assert forall|i: int, j: int| 0 <= i < j < all.len() implies #[trigger] all[i]
            < #[trigger] all[j] by {
            if j == was.len() {
                assert(was.contains(was[i]));
                assert(was[i] < k - 1);
            } else {
                assert(was[i] < was[j]);
            }
        }
    }
}

/// A brush stroke under way.
pub struct SculptDrag {
    pub mesh: MeshHandle,
    pub node: NodeHandle,
    pub shape: usize,
    pub kind: BrushKind,
    /// Vertices under the brush; a grab keeps those it began with.
    pub verts: Vec<BrushVert>,
    /// Neighbours of each vertex, for smoothing.
    pub adjacency: Vec<Vec<usize>>,
}

#[verifier::ext_equal]
pub struct SculptView {
    pub mesh: MeshHandle,
    pub node: NodeHandle,
    pub shape: usize,
    pub kind: BrushKind,
    pub verts: Seq<BrushVert>,
    pub adjacency: Seq<Seq<usize>>,
}

impl View for SculptDrag {
    type V = SculptView;

    open spec fn view(&self) -> SculptView {
        SculptView {
            mesh: self.mesh,
            node: self.node,
            shape: self.shape,
            kind: self.kind,
            verts: self.verts@,
            adjacency: lists_of(self.adjacency@),
        }
    }
}

/// How many shape keys mesh `h` has, from the first `k` meshes.
pub open spec fn shape_count(meshes: Seq<MeshView>, h: MeshHandle, k: int) -> Option<nat>
    decreases k,
{
    if k <= 0 {
        None
    } else {
        match shape_count(meshes, h, k - 1) {
            Some(n) => Some(n),
            None => if meshes[k - 1].handle == h {
                Some(meshes[k - 1].morph_targets.len())
            } else {
                None
            },
        }
    }
}

/// Neighbours in a mesh of `n` vertices.
pub open spec fn mesh_neighbours(indices: Seq<u32>, n: nat) -> Seq<Seq<usize>> {
    let faces = faces_of(indices, n, face_count(indices));
    neighbours(faces, n, faces.len() as int)
}

/// The stroke that begins where the pointer hits `hit`, with the brush over
/// `verts`. None begins without an active mesh and shape key, off the active
/// mesh, with a shape key that is gone, or with nothing under the brush.
pub open spec fn stroke_of(
    r: RigView,
    s: SceneView,
    hit: Option<PickTarget>,
    verts: Seq<BrushVert>,
    n: nat,
    indices: Seq<u32>,
) -> Option<SculptView> {
    match (r.active_mesh, r.active_shape, hit) {
        (Some(mesh), Some(shape), Some(t)) => if t.mesh != mesh || verts.len() == 0 {
            None
        } else {
            match shape_count(s.meshes, mesh, s.meshes.len() as int) {
                Some(count) => if shape >= count {
                    None
                } else {
                    Some(
                        SculptView {
                            mesh,
                            node: t.node,
                            shape,
                            kind: r.brush_kind,
                            verts,
                            adjacency: if r.brush_kind == BrushKind::Smooth {
                                mesh_neighbours(indices, n)
                            } else {
                                Seq::empty()
                            },
                        },
                    )
                },
                None => None,
            }
        },
        _ => None,
    }
}

impl Scene {
    fn shape_keys(&self, h: MeshHandle) -> (r: Option<usize>)
        ensures
            match r {
                Some(n) => shape_count(self@.meshes, h, self@.meshes.len() as int) == Some(n as nat),
                None => shape_count(self@.meshes, h, self@.meshes.len() as int) is None,
            },
    {
        let mut found: Option<usize> = None;
        let mut i: usize = 0;
        while i < self.meshes.len()
            invariant
                i <= self.meshes@.len(),
                match found {
                    Some(n) => shape_count(self@.meshes, h, i as int) == Some(n as nat),
                    None => shape_count(self@.meshes, h, i as int) is None,
                },
            decreases self.meshes.len() - i,
        {
            assert(self@.meshes[i as int] == self.meshes@[i as int]@);
            if found.is_none() && self.meshes[i].handle == h {
                found = Some(self.meshes[i].morph_targets.len());
            }
            i = i + 1;
        }
        found
    }
}

/// Begins a stroke where the pointer hits `hit`.
pub fn begin_stroke(
    scene: &Scene,
    rig: &RigDocument,
    hit: Option<PickTarget>,
    verts: Vec<BrushVert>,
    vertices: usize,
    indices: &Vec<u32>,
) -> (r: Option<SculptDrag>)
    ensures
        match r {
            Some(d) => stroke_of(rig@, scene@, hit, verts@, vertices as nat, indices@) == Some(d@),
            None => stroke_of(rig@, scene@, hit, verts@, vertices as nat, indices@) is None,
        },
{
    let (mesh, shape, t) = match (rig.active_mesh, rig.active_shape, hit) {
        (Some(mesh), Some(shape), Some(t)) => (mesh, shape, t),
        _ => {
            return None;
        },
    };
    if t.mesh != mesh || verts.len() == 0 {
        return None;
    }
    match scene.shape_keys(mesh) {
        Some(count) => {
            if shape >= count {
                return None;
            }
        },
        None => {
            return None;
        },
    }
    let adjacency = if rig.brush_kind == BrushKind::Smooth {
        build_adjacency(indices, vertices)
    } else {
        Vec::new()
    };
    assert(rig.brush_kind != BrushKind::Smooth ==> lists_of(adjacency@) =~= Seq::empty());
    Some(SculptDrag { mesh, node: t.node, shape, kind: rig.brush_kind, verts, adjacency })
}

/// The neighbours whose mean a vertex is drawn to.
pub struct SmoothJob {
    pub vertex: usize,
    pub falloff: Scalar,
    pub neighbours: Vec<usize>,
}

#[verifier::ext_equal]
pub struct SmoothView {
    pub vertex: usize,
    pub falloff: Scalar,
    pub neighbours: Seq<usize>,
}

impl View for SmoothJob {
    type V = SmoothView;

    open spec fn view(&self) -> SmoothView {
        SmoothView { vertex: self.vertex, falloff: self.falloff, neighbours: self.neighbours@ }
    }
}

pub open spec fn jobs_view(s: Seq<SmoothJob>) -> Seq<SmoothView> {
    Seq::new(s.len(), |i: int| s[i]@)
}

/// The vertices in `s` that are among `n`, from the first `k`.
pub open spec fn present(s: Seq<usize>, n: nat, k: int) -> Seq<usize>
    decreases k,
{
    if k <= 0 {
        Seq::empty()
    } else if s[k - 1] < n {
        present(s, n, k - 1).push(s[k - 1])
    } else {
        present(s, n, k - 1)
    }
}

/// What smoothing works on, of the first `k` vertices under the brush: each with
/// the neighbours it has, left out where it has none.
pub open spec fn smooth_jobs(
    verts: Seq<BrushVert>,
    adj: Seq<Seq<usize>>,
    n: nat,
    k: int,
) -> Seq<SmoothView>
    decreases k,
{
    if k <= 0 {
        Seq::empty()
    } else {
        let front = smooth_jobs(verts, adj, n, k - 1);
        let b = verts[k - 1];
        if b.vertex >= adj.len() {
            front
        } else {
            let near = present(adj[b.vertex as int], n, adj[b.vertex as int].len() as int);
            if near.len() == 0 {
                front
            } else {
                front.push(
                    SmoothView { vertex: b.vertex, falloff: b.falloff, neighbours: near },
                )
            }
        }
    }
}

/// What the host works out for one frame of a stroke.
pub enum StrokeWork {
    /// Nothing is under the brush.
    Nothing,
    /// The vertices follow the pointer.
    Grab,
    /// The vertices move along their normals, inwards if so asked.
    Inflate { inwards: bool },
    /// The vertices move towards their neighbours.
    Smooth { jobs: Vec<SmoothJob> },
}

#[verifier::ext_equal]
pub enum StrokeView {
    Nothing,
    Grab,
    Inflate { inwards: bool },
    Smooth { jobs: Seq<SmoothView> },
}

impl View for StrokeWork {
    type V = StrokeView;

    open spec fn view(&self) -> StrokeView {
        match *self {
            StrokeWork::Nothing => StrokeView::Nothing,
            StrokeWork::Grab => StrokeView::Grab,
            StrokeWork::Inflate { inwards } => StrokeView::Inflate { inwards },
            StrokeWork::Smooth { jobs } => StrokeView::Smooth { jobs: jobs_view(jobs@) },
        }
    }
}

/// Stroke `d` with the brush over `verts` where the pointer still hits its mesh.
pub open spec fn refreshed(
    d: SculptView,
    hit: Option<PickTarget>,
    verts: Seq<BrushVert>,
) -> SculptView {
    match hit {
        Some(t) => if t.mesh == d.mesh {
            SculptView { verts, ..d }
        } else {
            d
        },
        None => d,
    }
}

/// Stroke `d` with neighbours to smooth by.
pub open spec fn with_neighbours(d: SculptView, n: nat, indices: Seq<u32>) -> SculptView {
    if d.adjacency.len() == 0 {
        SculptView { adjacency: mesh_neighbours(indices, n), ..d }
    } else {
        d
    }
}

/// The stroke after a frame, and the work of that frame.
pub open spec fn stroked(
    d: SculptView,
    hit: Option<PickTarget>,
    verts: Seq<BrushVert>,
    n: nat,
    indices: Seq<u32>,
    invert: bool,
) -> (SculptView, StrokeView) {
    match d.kind {
        BrushKind::Grab => (d, StrokeView::Grab),
        BrushKind::Inflate => {
            let e = refreshed(d, hit, verts);
            if e.verts.len() == 0 {
                (e, StrokeView::Nothing)
            } else {
                (e, StrokeView::Inflate { inwards: invert })
            }
        },
        BrushKind::Smooth => {
            let e = refreshed(d, hit, verts);
            if e.verts.len() == 0 {
                (e, StrokeView::Nothing)
            } else {
                let f = with_neighbours(e, n, indices);
                (
                    f,
                    StrokeView::Smooth {
                        jobs: smooth_jobs(f.verts, f.adjacency, n, f.verts.len() as int),
                    },
                )
            }
        },
    }
}

/// A stroke keeps its mesh, node, shape key and brush; a grab keeps its vertices
/// too.
pub proof fn law_stroke_keeps(
    d: SculptView,
    hit: Option<PickTarget>,
    verts: Seq<BrushVert>,
    n: nat,
    indices: Seq<u32>,
    invert: bool,
)
    ensures
        ({
            let e = stroked(d, hit, verts, n, indices, invert).0;
            &&& e.mesh == d.mesh && e.node == d.node && e.shape == d.shape && e.kind == d.kind
            &&& d.kind == BrushKind::Grab ==> e == d
        }),
{
}

fn among(s: &Vec<usize>, n: usize) -> (r: Vec<usize>)
    ensures
        r@ == present(s@, n as nat, s@.len() as int),
{
    let mut out: Vec<usize> = Vec::new();
    let mut i: usize = 0;
    while i < s.len()
        invariant
            i <= s@.len(),
            out@ == present(s@, n as nat, i as int),
        decreases s.len() - i,
    {
        if s[i] < n {
            out.push(s[i]);
        }
        i = i + 1;
    }
    out
}

impl SculptDrag {
    fn refresh_brush(&mut self, hit: Option<PickTarget>, verts: Vec<BrushVert>)
        ensures
            final(self)@ == refreshed(old(self)@, hit, verts@),
    {
        if let Some(t) = hit {
            if t.mesh == self.mesh {
                self.verts = verts;
            }
        }
    }

    fn smooth_work(&self, n: usize) -> (r: Vec<SmoothJob>)
        ensures
            jobs_view(r@) == smooth_jobs(
                self@.verts,
                self@.adjacency,
                n as nat,
                self@.verts.len() as int,
            ),
    {
        let mut jobs: Vec<SmoothJob> = Vec::new();
        let mut i: usize = 0;
        assert(jobs_view(jobs@) =~= Seq::empty());
        while i < self.verts.len()
            invariant
                i <= self.verts@.len(),
                jobs_view(jobs@) == smooth_jobs(self@.verts, self@.adjacency, n as nat, i as int),
            decreases self.verts.len() - i,
        {
            let b = self.verts[i];
            let ghost was = jobs_view(jobs@);
            if b.vertex < self.adjacency.len() {
                assert(self@.adjacency[b.vertex as int] == self.adjacency@[b.vertex as int]@);
                let near = among(&self.adjacency[b.vertex], n);
                if near.len() != 0 {
                    let job = SmoothJob { vertex: b.vertex, falloff: b.falloff, neighbours: near };
                    let ghost jv = job@;
                    jobs.push(job);
                    assert(jobs_view(jobs@) =~= was.push(jv));
                }
            }
            i = i + 1;
        }
        jobs
    }

    /// Carries the stroke on for a frame: `hit` and `verts` are what the pointer
    /// is over now, `vertices` and `indices` what the mesh holds.
    pub fn apply_stroke(
        &mut self,
        hit: Option<PickTarget>,
        verts: Vec<BrushVert>,
        vertices: usize,
        indices: &Vec<u32>,
        invert: bool,
    ) -> (r: StrokeWork)
        ensures
            (final(self)@, r@) == stroked(
                old(self)@,
                hit,
                verts@,
                vertices as nat,
                indices@,
                invert,
            ),
            r@ is Inflate ==> old(self)@.kind == BrushKind::Inflate && r@->inwards == invert,
            r@ is Nothing ==> final(self)@.verts.len() == 0,
    {
        match self.kind {
            BrushKind::Grab => StrokeWork::Grab,
            BrushKind::Inflate => {
                self.refresh_brush(hit, verts);
                if self.verts.len() == 0 {
                    StrokeWork::Nothing
                } else {
                    StrokeWork::Inflate { inwards: invert }
                }
            },
            BrushKind::Smooth => {
                self.refresh_brush(hit, verts);
                if self.verts.len() == 0 {
                    return StrokeWork::Nothing;
                }
                if self.adjacency.len() == 0 {
                    self.adjacency = build_adjacency(indices, vertices);
                }
                StrokeWork::Smooth { jobs: self.smooth_work(vertices) }
            },
        }
    }
}

} // verus!
