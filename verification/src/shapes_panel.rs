//! The panel of shape keys: which meshes and keys it lists, and what its
//! buttons do.

use vstd::prelude::*;
use crate::driver::{writes_morph, DriverView};
use crate::geom::{Scalar, BITS_ZERO};
use crate::rig::{AppMode, BrushKind, RigDocument, RigView};
use crate::rig_pose::{has_mesh, shape_mesh};
use crate::scene::{MeshHandle, MeshView, NodeView, Scene};
use crate::session::{app_in_mode, AppState, AppView};
use crate::text::{decimal, decimal_of, join, same_text};
use crate::tools::weight_of;

verus! {

/// A mesh that can be chosen, under the name of the first node that carries it.
pub struct MeshRow {
    pub mesh: MeshHandle,
    pub label: String,
}

/// What a mesh row holds.
#[verifier::ext_equal]
pub struct MeshRowView {
    pub mesh: MeshHandle,
    pub label: Seq<char>,
}

impl View for MeshRow {
    type V = MeshRowView;

    open spec fn view(&self) -> MeshRowView {
        MeshRowView { mesh: self.mesh, label: self.label@ }
    }
}

pub open spec fn rows_view(s: Seq<MeshRow>) -> Seq<MeshRowView> {
    Seq::new(s.len(), |i: int| s[i]@)
}

/// One of the rows is for mesh `h`.
pub open spec fn lists_mesh(rows: Seq<MeshRowView>, h: MeshHandle) -> bool {
    exists|i: int| 0 <= i < rows.len() && (#[trigger] rows[i]).mesh == h
}

/// What node `n` calls its mesh `h`.
pub open spec fn mesh_label(n: NodeView, h: MeshHandle) -> Seq<char> {
    if n.name.len() == 0 {
        "Mesh "@ + decimal_of(h.index as nat)
    } else {
        n.name
    }
}

/// The meshes of the scene that nodes carry, each once, in the order of the
/// nodes.
pub open spec fn mesh_rows(nodes: Seq<NodeView>, meshes: Seq<MeshView>) -> Seq<MeshRowView>
    decreases nodes.len(),
{
    if nodes.len() == 0 {
        Seq::empty()
    } else {
        let front = mesh_rows(nodes.drop_last(), meshes);
        let n = nodes.last();
        match n.mesh {
            Some(h) => if lists_mesh(front, h) || !has_mesh(meshes, h) {
                front
            } else {
                front.push(MeshRowView { mesh: h, label: mesh_label(n, h) })
            },
            None => front,
        }
    }
}

/// A mesh is listed exactly where the scene holds it and a node carries it, and
/// no mesh is listed twice.
pub proof fn law_mesh_rows(nodes: Seq<NodeView>, meshes: Seq<MeshView>, h: MeshHandle)
    ensures
        lists_mesh(mesh_rows(nodes, meshes), h) <==> has_mesh(meshes, h) && exists|i: int|
            0 <= i < nodes.len() && (#[trigger] nodes[i]).mesh == Some(h),
        forall|i: int, j: int|
            0 <= i < j < mesh_rows(nodes, meshes).len() ==> mesh_rows(nodes, meshes)[i].mesh
                != mesh_rows(nodes, meshes)[j].mesh,
    decreases nodes.len(),
{
    if nodes.len() > 0 {
        let short = nodes.drop_last();
        let front = mesh_rows(short, meshes);
        let all = mesh_rows(nodes, meshes);
        let last = nodes.len() - 1;
        law_mesh_rows(short, meshes, h);
        assert forall|i: int| 0 <= i < short.len() implies #[trigger] short[i] == nodes[i] by {}
        if exists|i: int| 0 <= i < short.len() && (#[trigger] short[i]).mesh == Some(h) {
            let i = choose|i: int| 0 <= i < short.len() && (#[trigger] short[i]).mesh == Some(h);
            assert(nodes[i].mesh == Some(h));
        }
        if exists|i: int| 0 <= i < nodes.len() && (#[trigger] nodes[i]).mesh == Some(h) {
            let i = choose|i: int| 0 <= i < nodes.len() && (#[trigger] nodes[i]).mesh == Some(h);
            if i < last {
                assert(short[i].mesh == Some(h));
            }
        }
        assert(nodes[last] == nodes.last());
        if all.len() > front.len() {
            let m = nodes.last().mesh->0;
            assert(all[front.len() as int].mesh == m);
            assert forall|i: int| 0 <= i < front.len() implies #[trigger] all[i] == front[i] by {}
            if lists_mesh(front, h) {
                let k = choose|k: int| 0 <= k < front.len() && (#[trigger] front[k]).mesh == h;
                assert(all[k].mesh == h);
            }
            if lists_mesh(all, h) && m != h {
                let k = choose|k: int| 0 <= k < all.len() && (#[trigger] all[k]).mesh == h;
                assert(front[k].mesh == h);
            }
            assert forall|i: int, j: int| 0 <= i < j < all.len() implies all[i].mesh != all[j].mesh by {
                if j == front.len() {
                    assert(front[i].mesh != m);
                } else {
                    assert(front[i].mesh != front[j].mesh);
                }
            }
        }
    }
}

/// A shape key as the panel lists it.
pub struct ShapeRow {
    pub name: String,
    pub weight: Scalar,
    pub selected: bool,
    /// A driver writes its weight.
    pub driven: bool,
}

/// What a shape row holds.
#[verifier::ext_equal]
pub struct ShapeRowView {
    pub name: Seq<char>,
    pub weight: Scalar,
    pub selected: bool,
    pub driven: bool,
}

impl View for ShapeRow {
    type V = ShapeRowView;

    open spec fn view(&self) -> ShapeRowView {
        ShapeRowView {
            name: self.name@,
            weight: self.weight,
            selected: self.selected,
            driven: self.driven,
        }
    }
}

pub open spec fn shape_rows_view(s: Seq<ShapeRow>) -> Seq<ShapeRowView> {
    Seq::new(s.len(), |i: int| s[i]@)
}

/// Some driver writes shape key `i` of mesh `h`.
pub open spec fn driven_shape(ds: Seq<DriverView>, h: MeshHandle, i: usize) -> bool {
    exists|k: int| 0 <= k < ds.len() && writes_morph(#[trigger] ds[k], h, i)
}

/// The keys of mesh `m`, as the panel lists them.
pub open spec fn shape_rows(r: RigView, m: MeshView) -> Seq<ShapeRowView> {
    Seq::new(
        m.morph_targets.len(),
        |i: int|
            ShapeRowView {
                name: m.morph_targets[i],
                weight: weight_of(m, i as usize),
                selected: r.active_shape == Some(i as usize),
                driven: driven_shape(r.drivers, m.handle, i as usize),
            },
    )
}

/// What the panel shows.
pub struct ShapesPanel {
    pub meshes: Vec<MeshRow>,
    /// Place of the active mesh.
    pub mesh_index: usize,
    pub keys: Vec<ShapeRow>,
}

/// `r` with an active mesh out of `rows`: the one it has, or the first.
pub open spec fn mesh_settled(r: RigView, rows: Seq<MeshRowView>) -> RigView {
    if r.active_mesh is Some && lists_mesh(rows, r.active_mesh->0) {
        r
    } else {
        RigView { active_mesh: Some(rows[0].mesh), active_shape: None, ..r }
    }
}

/// Shape mode, entered if need be.
pub open spec fn into_shape(a: AppView) -> AppView {
    if a.rig.mode == AppMode::Shape {
        a
    } else {
        app_in_mode(a, AppMode::Shape)
    }
}

/// Place of mesh `h` among the rows.
fn row_of(rows: &Vec<MeshRow>, h: MeshHandle) -> (r: Option<usize>)
    ensures
        match r {
            Some(i) => i < rows@.len() && rows@[i as int].mesh == h,
            None => !lists_mesh(rows_view(rows@), h),
        },
{
    let ghost v = rows_view(rows@);
    let mut i: usize = 0;
    while i < rows.len()
        invariant
            i <= rows@.len(),
            v == rows_view(rows@),
            forall|j: int| 0 <= j < i ==> (#[trigger] v[j]).mesh != h,
        decreases rows.len() - i,
    {
        assert(v[i as int].mesh == rows@[i as int].mesh);
        if rows[i].mesh == h {
            return Some(i);
        }
        i = i + 1;
    }
    None
}

impl Scene {
    /// The meshes that nodes carry, each once.
    pub fn shape_meshes(&self) -> (r: Vec<MeshRow>)
        requires
            self.wf(),
        ensures
            rows_view(r@) == mesh_rows(self@.nodes, self@.meshes),
    {
        let ghost nodes = self@.nodes;
        let mut out: Vec<MeshRow> = Vec::new();
        let mut i: usize = 0;
        assert(nodes.take(0) =~= Seq::empty());
        assert(rows_view(out@) =~= Seq::empty());
        while i < self.nodes.len()
            invariant
                i <= self.nodes@.len(),
                self.wf(),
                nodes == self@.nodes,
                rows_view(out@) == mesh_rows(nodes.take(i as int), self@.meshes),
            decreases self.nodes.len() - i,
        {
            let ghost t = nodes.take(i as int + 1);
            assert(t.drop_last() =~= nodes.take(i as int));
            assert(t.last() == nodes[i as int]);
            assert(nodes[i as int] == self.nodes@[i as int]@);
            if let Some(h) = self.nodes[i].mesh {
                let fresh = match row_of(&out, h) {
                    Some(k) => {
                        assert(rows_view(out@)[k as int].mesh == h);
                        false
                    },
                    None => true,
                };
                if fresh && self.holds_mesh(h) {
                    let label = if same_text(&self.nodes[i].name, "") {
                        join("Mesh ", &decimal(h.index as u64))
                    } else {
                        self.nodes[i].name.clone()
                    };
                    proof {
                        reveal_strlit("");
                        assert(self.nodes@[i as int].name@ == ""@ <==> nodes[i as int].name.len() == 0) by {
                            if nodes[i as int].name.len() == 0 {
                                assert(nodes[i as int].name =~= ""@);
                            }
                        }
                    }
                    let ghost o = out@;
                    out.push(MeshRow { mesh: h, label });
                    assert(rows_view(out@) =~= rows_view(o).push(out@.last()@));
                }
            }
            i = i + 1;
        }
        assert(nodes.take(i as int) =~= nodes);
        out
    }
}

impl RigDocument {
    /// The keys of the mesh at place `m` of the scene, as the panel lists them.
    fn key_rows(&self, scene: &Scene, m: usize) -> (r: Vec<ShapeRow>)
        requires
            m < scene.meshes@.len(),
        ensures
            shape_rows_view(r@) == shape_rows(self@, scene@.meshes[m as int]),
    {
        let ghost mv = scene@.meshes[m as int];
        let mesh = scene.meshes[m].handle;
        let n = scene.meshes[m].morph_targets.len();
        let mut out: Vec<ShapeRow> = Vec::new();
        let mut i: usize = 0;
        while i < n
            invariant
                i <= n,
                m < scene.meshes@.len(),
                mv == scene@.meshes[m as int],
                mv == scene.meshes@[m as int]@,
                n == scene.meshes@[m as int].morph_targets@.len(),
                mesh == mv.handle,
                out@.len() == i,
                forall|j: int| 0 <= j < i ==> (#[trigger] out@[j])@ == shape_rows(self@, mv)[j],
            decreases n - i,
        {
            let weight = if i < scene.meshes[m].morph_weights.len() {
                scene.meshes[m].morph_weights[i]
            } else {
                Scalar { bits: BITS_ZERO }
            };
            let selected = match self.active_shape {
                Some(k) => k == i,
                None => false,
            };
            let driven = self.is_driven(mesh, i);
            let name = scene.meshes[m].morph_targets[i].clone();
            let ghost o = out@;
            out.push(ShapeRow { name, weight, selected, driven });
            proof {
                assert(name@ == mv.morph_targets[i as int]);
                assert(out@[i as int]@ =~= shape_rows(self@, mv)[i as int]);
                assert forall|j: int| 0 <= j < i + 1 implies (#[trigger] out@[j])@ == shape_rows(
                    self@,
                    mv,
                )[j] by {
                    if j < i {
                        assert(out@[j] == o[j]);
                    }
                }
            }
            i = i + 1;
        }
        assert(shape_rows_view(out@) =~= shape_rows(self@, mv));
        out
    }

    /// Whether some driver writes shape key `i` of mesh `h`.
    pub fn is_driven(&self, h: MeshHandle, i: usize) -> (r: bool)
        ensures
            r == driven_shape(self@.drivers, h, i),
    {
        let mut k: usize = 0;
        while k < self.drivers.len()
            invariant
                k <= self.drivers@.len(),
                forall|j: int| 0 <= j < k ==> !writes_morph(#[trigger] self@.drivers[j], h, i),
            decreases self.drivers.len() - k,
        {
            assert(self@.drivers[k as int] == self.drivers@[k as int]@);
            if self.drivers[k].drives_morph(h, i) {
                return true;
            }
            k = k + 1;
        }
        false
    }
}

/// What the panel says about a brush.
pub fn brush_hint(kind: BrushKind) -> (r: &'static str)
    ensures
        r@ == (match kind {
            BrushKind::Grab => "Grab — drag surface"@,
            BrushKind::Inflate => "Inflate — hold/drag (Ctrl = deflate)"@,
            BrushKind::Smooth => "Smooth — hold/drag to relax"@,
        }),
{
    match kind {
        BrushKind::Grab => "Grab — drag surface",
        BrushKind::Inflate => "Inflate — hold/drag (Ctrl = deflate)",
        BrushKind::Smooth => "Smooth — hold/drag to relax",
    }
}

/// `h` is the handle of mesh `i` of the scene.
pub open spec fn mesh_is(meshes: Seq<MeshView>, h: MeshHandle, i: int) -> bool {
    0 <= i < meshes.len() && meshes[i].handle == h
}

/// The mesh with handle `h`.
pub open spec fn the_mesh(meshes: Seq<MeshView>, h: MeshHandle) -> MeshView {
    meshes[choose|i: int| mesh_is(meshes, h, i)]
}

impl AppState {
    /// Settles the active mesh and lists meshes and keys; nothing where there
    /// are no meshes.
    pub fn shapes_panel(&mut self) -> (r: Option<ShapesPanel>)
        requires
            old(self).wf(),
        ensures
            final(self).wf(),
            ({
                let rows = mesh_rows(old(self)@.scene.nodes, old(self)@.scene.meshes);
                let rig = mesh_settled(old(self)@.rig, rows);
                match r {
                    None => rows.len() == 0 && final(self)@ == old(self)@,
                    Some(p) => {
                        &&& rows.len() > 0
                        &&& final(self)@ == (AppView { rig, ..old(self)@ })
                        &&& rows_view(p.meshes@) == rows
                        &&& p.mesh_index < rows.len()
                        &&& rig.active_mesh == Some(rows[p.mesh_index as int].mesh)
                        &&& shape_rows_view(p.keys@) == shape_rows(
                            rig,
                            the_mesh(old(self)@.scene.meshes, rig.active_mesh->0),
                        )
                    },
                }
            }),
    {
        let meshes = self.scene.shape_meshes();
        let ghost rows = rows_view(meshes@);
        if meshes.len() == 0 {
            assert(rows.len() == 0);
            return None;
        }
        let found = match self.rig.active_mesh {
            Some(a) => row_of(&meshes, a),
            None => None,
        };
        let mesh_index = match found {
            Some(i) => {
                assert(rows[i as int].mesh == meshes@[i as int].mesh);
                i
            },
            None => {
                self.rig.active_mesh = Some(meshes[0].mesh);
                self.rig.active_shape = None;
                assert(rows[0].mesh == meshes@[0].mesh);
                0
            },
        };
        let h = meshes[mesh_index].mesh;
        assert(rows[mesh_index as int].mesh == h);
        proof {
            law_mesh_rows(self@.scene.nodes, self@.scene.meshes, h);
            assert(lists_mesh(rows, h));
        }
        let m = self.scene.mesh_place(h);
        let keys = self.rig.key_rows(&self.scene, m);
        Some(ShapesPanel { meshes, mesh_index, keys })
    }

    /// Chooses mesh `mesh` for sculpting.
    pub fn mesh_chosen(&mut self, mesh: MeshHandle)
        requires
            old(self).wf(),
        ensures
            final(self).wf(),
            final(self)@ == into_shape(
                AppView {
                    rig: RigView { active_mesh: Some(mesh), active_shape: None, ..old(self)@.rig },
                    ..old(self)@
                },
            ),
    {
        self.rig.active_mesh = Some(mesh);
        self.rig.active_shape = None;
        self.enter_shape();
    }

    fn enter_shape(&mut self)
        requires
            old(self).wf(),
        ensures
            final(self).wf(),
            final(self)@ == into_shape(old(self)@),
    {
        if self.rig.mode != AppMode::Shape {
            self.set_mode(AppMode::Shape);
        }
    }

    /// The "+ Shape" button: the key to add, if there is a mesh for it.
    pub fn shape_wanted(&mut self) -> (r: Option<(MeshHandle, String)>)
        requires
            old(self).wf(),
            old(self).rig.next_shape_serial < u32::MAX,
        ensures
            final(self).wf(),
            ({
                let a = into_shape(old(self)@);
                let mesh = shape_mesh(a.rig, a.scene);
                match r {
                    Some((h, name)) => {
                        &&& mesh == Some(h)
                        &&& has_mesh(a.scene.meshes, h)
                        &&& name@ == "Key_"@ + decimal_of(a.rig.next_shape_serial as nat)
                        &&& final(self)@ == (AppView {
                            rig: RigView {
                                active_mesh: Some(h),
                                next_shape_serial: (a.rig.next_shape_serial + 1) as u32,
                                ..a.rig
                            },
                            ..a
                        })
                    },
                    None => {
                        &&& mesh matches Some(h) ==> !has_mesh(a.scene.meshes, h)
                        &&& final(self)@ == (AppView {
                            rig: RigView { active_mesh: mesh, ..a.rig },
                            status: "No mesh for shape key"@,
                            ..a
                        })
                    },
                }
            }),
    {
        self.enter_shape();
        let r = self.rig.create_shape_key(&self.scene);
        if r.is_none() {
            self.status = "No mesh for shape key".to_owned();
        }
        r
    }

    /// Shape key `index` was added.
    pub fn shape_added(&mut self, index: usize)
        requires
            old(self).wf(),
        ensures
            final(self).wf(),
            final(self)@ == (AppView {
                rig: RigView { active_shape: Some(index), ..old(self)@.rig },
                status: "Created shape key #"@ + decimal_of(index as nat),
                ..old(self)@
            }),
    {
        self.rig.shape_key_created(index);
        self.status = join("Created shape key #", &decimal(index as u64));
    }

    /// The "Delete" button: the key to remove; `left` keys stay on its mesh.
    pub fn shape_deleted(&mut self, left: usize) -> (r: Option<(MeshHandle, usize)>)
        requires
            old(self).wf(),
        ensures
            final(self).wf(),
            r == (match (old(self)@.rig.active_mesh, old(self)@.rig.active_shape) {
                (Some(mesh), Some(index)) => if has_mesh(old(self)@.scene.meshes, mesh) {
                    Some((mesh, index))
                } else {
                    None
                },
                _ => None,
            }),
            final(self)@ == (AppView {
                rig: match r {
                    Some((_, index)) => RigView {
                        active_shape: if left == 0 {
                            None
                        } else if index < left {
                            Some(index)
                        } else {
                            Some((left - 1) as usize)
                        },
                        ..old(self)@.rig
                    },
                    None => old(self)@.rig,
                },
                status: "Deleted shape key"@,
                ..old(self)@
            }),
    {
        let r = self.rig.delete_active_shape(&self.scene);
        if let Some((_, index)) = r {
            self.rig.active_shape_deleted(index, left);
        }
        self.status = "Deleted shape key".to_owned();
        r
    }

    /// Shape key `i` was clicked, or its weight changed if `edited`.
    pub fn shape_clicked(&mut self, i: usize, edited: bool)
        requires
            old(self).wf(),
        ensures
            final(self).wf(),
            final(self)@ == into_shape(
                AppView {
                    rig: RigView {
                        active_shape: Some(i),
                        overlay_dirty: old(self)@.rig.overlay_dirty || edited,
                        ..old(self)@.rig
                    },
                    ..old(self)@
                },
            ),
    {
        if edited {
            self.rig.invalidate_weight_overlay();
        }
        self.rig.active_shape = Some(i);
        self.enter_shape();
    }
}

impl Scene {
    /// Place of the mesh with handle `h`.
    fn mesh_place(&self, h: MeshHandle) -> (r: usize)
        requires
            self.wf(),
            has_mesh(self@.meshes, h),
        ensures
            r < self.meshes@.len(),
            self@.meshes[r as int] == the_mesh(self@.meshes, h),
    {
        let ghost ms = self@.meshes;
        let mut i: usize = 0;
        while i < self.meshes.len()
            invariant
                i <= self.meshes@.len(),
                self.wf(),
                ms == self@.meshes,
                has_mesh(ms, h),
                forall|j: int| 0 <= j < i ==> (#[trigger] ms[j]).handle != h,
            decreases self.meshes.len() - i,
        {
            assert(ms[i as int] == self.meshes@[i as int]@);
            if self.meshes[i].handle == h {
                proof {
                    assert(mesh_is(ms, h, i as int));
                    let k = choose|k: int| mesh_is(ms, h, k);
                    if k < i {
                        assert(ms[k].handle != ms[i as int].handle);
                    } else if i < k {
                        assert(ms[i as int].handle != ms[k].handle);
                    }
                }
                return i;
            }
            i = i + 1;
        }
        proof {
            let k = choose|k: int| 0 <= k < ms.len() && (#[trigger] ms[k]).handle == h;
            assert(false);
        }
        0
    }
}

} // verus!
