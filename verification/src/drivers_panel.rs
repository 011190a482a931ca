//! The list of drivers and the window in which one is edited.

use vstd::prelude::*;
use crate::bones::{BoneId, BoneView};
use crate::driver::{fresh_driver, spawned, Driver, DriverView, NodeSpace};
use crate::evaluate::supports_ik;
use crate::geom::Vec2;
use crate::kinds::DriverNodeKind;
use crate::rig::{AppMode, RigDocument, RigView};
use crate::scene::{MeshHandle, MeshView, Scene};
use crate::script_rig::{driver_find, unused_driver_id};
use crate::session::{app_in_mode, AppState, AppView};
use crate::shapes_panel::mesh_is;
use crate::text::{decimal, decimal_of, join};

verus! {

/// Pose mode, entered if need be.
pub open spec fn into_pose(a: AppView) -> AppView {
    if a.rig.mode == AppMode::Pose {
        a
    } else {
        app_in_mode(a, AppMode::Pose)
    }
}

/// A node of driver `d` writes a bone that carries an IK chain.
pub open spec fn needs_pre_ik(r: RigView, d: DriverView) -> bool {
    exists|i: int|
        0 <= i < d.nodes.len() && (#[trigger] d.nodes[i]).kind == DriverNodeKind::BoneSet
            && d.nodes[i].bone is Some && supports_ik(r, d.nodes[i].bone->0)
}

/// A driver as the panel lists it.
pub struct DriverRow {
    pub id: u32,
    pub name: String,
    pub enabled: bool,
    /// How large the graph is, and when it runs.
    pub summary: String,
    /// Its editor is open.
    pub editing: bool,
}

/// What a driver row holds.
#[verifier::ext_equal]
pub struct DriverRowView {
    pub id: u32,
    pub name: Seq<char>,
    pub enabled: bool,
    pub summary: Seq<char>,
    pub editing: bool,
}

impl View for DriverRow {
    type V = DriverRowView;

    open spec fn view(&self) -> DriverRowView {
        DriverRowView {
            id: self.id,
            name: self.name@,
            enabled: self.enabled,
            summary: self.summary@,
            editing: self.editing,
        }
    }
}

/// Size and pass of driver `d`.
pub open spec fn driver_summary(r: RigView, d: DriverView) -> Seq<char> {
    decimal_of(d.nodes.len()) + " nodes · "@ + decimal_of(d.space.links.len()) + " links · "@
        + (if needs_pre_ik(r, d) {
        "pre-IK"@
    } else {
        "post-IK"@
    })
}

/// The row of driver `d`.
pub open spec fn driver_row(a: AppView, d: DriverView) -> DriverRowView {
    DriverRowView {
        id: d.id,
        name: d.name,
        enabled: d.enabled,
        summary: driver_summary(a.rig, d),
        editing: a.editing_driver == Some(d.id),
    }
}

/// Name of driver `id`, or `other` where there is none.
pub open spec fn driver_name(ds: Seq<DriverView>, id: u32, other: Seq<char>) -> Seq<char> {
    match driver_find(ds, id) {
        Some(i) => ds[i].name,
        None => other,
    }
}

/// The bones that carry an IK chain, in order.
pub open spec fn ik_carriers(r: RigView) -> Seq<BoneId> {
    r.bones.filter(|b: BoneView| supports_ik(r, b.id)).map_values(|b: BoneView| b.id)
}

/// Name of shape key `i` of mesh `h`, where both are there.
pub open spec fn shape_name(meshes: Seq<MeshView>, h: MeshHandle, i: usize) -> Option<Seq<char>> {
    if exists|k: int| mesh_is(meshes, h, k) && i < meshes[k].morph_targets.len() {
        Some(meshes[shape_at(meshes, h, i)].morph_targets[i as int])
    } else {
        None
    }
}

/// Place of a mesh `h` with a shape key `i`.
pub open spec fn shape_at(meshes: Seq<MeshView>, h: MeshHandle, i: usize) -> int {
    choose|k: int| mesh_is(meshes, h, k) && i < meshes[k].morph_targets.len()
}

/// Name of the active shape key.
pub open spec fn active_name(a: AppView) -> Option<Seq<char>> {
    match (a.rig.active_mesh, a.rig.active_shape) {
        (Some(h), Some(i)) => shape_name(a.scene.meshes, h, i),
        _ => None,
    }
}

impl Scene {
    /// Name of shape key `i` of mesh `h`.
    fn key_name(&self, h: MeshHandle, i: usize) -> (r: Option<String>)
        requires
            self.wf(),
        ensures
            match r {
                Some(s) => shape_name(self@.meshes, h, i) == Some(s@),
                None => shape_name(self@.meshes, h, i) is None,
            },
    {
        let ghost ms = self@.meshes;
        let mut k: usize = 0;
        while k < self.meshes.len()
            invariant
                k <= self.meshes@.len(),
                self.wf(),
                ms == self@.meshes,
                forall|j: int|
                    0 <= j < k ==> !(#[trigger] mesh_is(ms, h, j) && i < ms[j].morph_targets.len()),
            decreases self.meshes.len() - k,
        {
            assert(ms[k as int] == self.meshes@[k as int]@);
            if self.meshes[k].handle == h && i < self.meshes[k].morph_targets.len() {
                proof {
                    assert(mesh_is(ms, h, k as int));
                    let c = shape_at(ms, h, i);
                    assert(mesh_is(ms, h, c));
                    if c < k {
                        assert(ms[c].handle != ms[k as int].handle);
                    } else if k < c {
                        assert(ms[k as int].handle != ms[c].handle);
                    }
                }
                return Some(self.meshes[k].morph_targets[i].clone());
            }
            k = k + 1;
        }
        assert forall|j: int| !(#[trigger] mesh_is(ms, h, j) && i < ms[j].morph_targets.len()) by {}
        None
    }
}

impl RigDocument {
    /// Size and pass of the driver at place `i`.
    fn summary_of(&self, i: usize) -> (r: String)
        requires
            self.wf(),
            i < self.drivers@.len(),
        ensures
            r@ == driver_summary(self@, self@.drivers[i as int]),
    {
        let ghost d = self@.drivers[i as int];
        assert(d == self.drivers@[i as int]@);
        let pre = self.driver_needs_pre_ik(&self.drivers[i]);
        assert(pre == needs_pre_ik(self@, d));
        let mut out = decimal(self.drivers[i].nodes.len() as u64);
        out.append(" nodes · ");
        out.append(&decimal(self.drivers[i].space.links.len() as u64));
        out.append(" links · ");
        if pre {
            out.append("pre-IK");
        } else {
            out.append("post-IK");
        }
        out
    }

    /// The bones that carry an IK chain.
    pub fn ik_parent_bones(&self) -> (r: Vec<BoneId>)
        requires
            self.wf(),
        ensures
            r@ == ik_carriers(self@),
    {
        let ghost bs = self@.bones;
        let ghost p = |b: BoneView| supports_ik(self@, b.id);
        let ghost q = |b: BoneView| b.id;
        let mut out: Vec<BoneId> = Vec::new();
        let mut i: usize = 0;
        proof {
            crate::lists::lemma_filter_ends(bs, p);
        }
        assert(out@ =~= Seq::<BoneView>::empty().map_values(q));
        while i < self.bones.len()
            invariant
                i <= self.bones@.len(),
                self.wf(),
                bs == self@.bones,
                p == (|b: BoneView| supports_ik(self@, b.id)),
                q == (|b: BoneView| b.id),
                out@ == bs.take(i as int).filter(p).map_values(q),
            decreases self.bones.len() - i,
        {
            let id = self.bones[i].id;
            let ghost f = bs.take(i as int).filter(p);
            assert(bs[i as int] == self.bones@[i as int]@);
            proof {
                crate::lists::lemma_filter_step(bs, p, i as int);
            }
            if self.bone_supports_ik(id) {
                out.push(id);
                assert(f.push(bs[i as int]).map_values(q) =~= f.map_values(q).push(id));
            }
            i = i + 1;
        }
        out
    }
}

impl AppState {
    fn enter_pose(&mut self)
        requires
            old(self).wf(),
        ensures
            final(self).wf(),
            final(self)@ == into_pose(old(self)@),
    {
        if self.rig.mode != AppMode::Pose {
            self.set_mode(AppMode::Pose);
        }
    }

    /// The drivers, as the panel lists them.
    pub fn driver_rows(&self) -> (r: Vec<DriverRow>)
        requires
            self.wf(),
        ensures
            r@.len() == self@.rig.drivers.len(),
            forall|i: int|
                0 <= i < r@.len() ==> (#[trigger] r@[i])@ == driver_row(
                    self@,
                    self@.rig.drivers[i],
                ),
    {
        let ghost ds = self@.rig.drivers;
        let mut out: Vec<DriverRow> = Vec::new();
        let mut i: usize = 0;
        while i < self.rig.drivers.len()
            invariant
                i <= self.rig.drivers@.len(),
                self.wf(),
                ds == self@.rig.drivers,
                out@.len() == i,
                forall|j: int| 0 <= j < i ==> (#[trigger] out@[j])@ == driver_row(self@, ds[j]),
            decreases self.rig.drivers.len() - i,
        {
            assert(ds[i as int] == self.rig.drivers@[i as int]@);
            let id = self.rig.drivers[i].id;
            let editing = match self.editing_driver {
                Some(e) => e == id,
                None => false,
            };
            let row = DriverRow {
                id,
                name: self.rig.drivers[i].name.clone(),
                enabled: self.rig.drivers[i].enabled,
                summary: self.rig.summary_of(i),
                editing,
            };
            assert(row@ =~= driver_row(self@, ds[i as int]));
            let ghost o = out@;
            out.push(row);
            assert forall|j: int| 0 <= j < i + 1 implies (#[trigger] out@[j])@ == driver_row(
                self@,
                ds[j],
            ) by {
                if j < i {
                    assert(out@[j] == o[j]);
                }
            }
            i = i + 1;
        }
        out
    }

    /// The "+ Driver" button: a new driver on the canvas `space`, opened.
    pub fn driver_added(&mut self, space: NodeSpace) -> (r: u32)
        requires
            old(self).wf(),
            forall|i: int|
                0 <= i < old(self)@.rig.drivers.len() ==> (#[trigger] old(self)@.rig.drivers[i]).id
                    < u32::MAX,
        ensures
            final(self).wf(),
            unused_driver_id(old(self)@.rig.drivers, r),
            final(self)@ == (AppView {
                status: "Created Driver "@ + decimal_of(r as nat)
                    + " — edit graph in floating window"@,
                ..into_pose(
                    AppView {
                        rig: RigView {
                            drivers: old(self)@.rig.drivers.push(
                                fresh_driver(r, "Driver_"@ + decimal_of(r as nat), space@),
                            ),
                            ..old(self)@.rig
                        },
                        editing_driver: Some(r),
                        ..old(self)@
                    },
                )
            }),
    {
        let id = self.rig.create_driver(space);
        self.editing_driver = Some(id);
        self.enter_pose();
        let a = join("Created Driver ", &decimal(id as u64));
        self.status = join(&a, " — edit graph in floating window");
        id
    }

    /// The checkbox of driver `id`.
    pub fn driver_enabled(&mut self, id: u32, enabled: bool)
        requires
            old(self).wf(),
        ensures
            final(self).wf(),
            final(self)@ == (match driver_find(old(self)@.rig.drivers, id) {
                Some(i) => AppView {
                    rig: RigView {
                        drivers: old(self)@.rig.drivers.update(
                            i,
                            DriverView { enabled, ..old(self)@.rig.drivers[i] },
                        ),
                        ..old(self)@.rig
                    },
                    ..old(self)@
                },
                None => old(self)@,
            }),
    {
        match self.rig.find_driver(id) {
            Some(i) => {
                let ghost ds = self@.rig.drivers;
                assert(ds[i as int] == self.rig.drivers@[i as int]@);
                self.rig.drivers[i].enabled = enabled;
                assert(self@.rig.drivers =~= ds.update(i as int, DriverView { enabled, ..ds[i as int] }));
            },
            None => {},
        }
    }

    /// The name field of driver `id`.
    pub fn driver_renamed(&mut self, id: u32, name: String)
        requires
            old(self).wf(),
        ensures
            final(self).wf(),
            final(self)@ == (match driver_find(old(self)@.rig.drivers, id) {
                Some(i) => AppView {
                    rig: RigView {
                        drivers: old(self)@.rig.drivers.update(
                            i,
                            DriverView { name: name@, ..old(self)@.rig.drivers[i] },
                        ),
                        ..old(self)@.rig
                    },
                    ..old(self)@
                },
                None => old(self)@,
            }),
    {
        match self.rig.find_driver(id) {
            Some(i) => {
                let ghost ds = self@.rig.drivers;
                assert(ds[i as int] == self.rig.drivers@[i as int]@);
                self.rig.drivers[i].name = name;
                assert(self@.rig.drivers =~= ds.update(
                    i as int,
                    DriverView { name: name@, ..ds[i as int] },
                ));
            },
            None => {},
        }
    }

    /// The "Edit" button of driver `id`.
    pub fn driver_opened(&mut self, id: u32)
        requires
            old(self).wf(),
        ensures
            final(self).wf(),
            final(self)@ == (AppView {
                status: "Editing "@ + driver_name(old(self)@.rig.drivers, id, "driver"@),
                ..into_pose(AppView { editing_driver: Some(id), ..old(self)@ })
            }),
    {
        self.editing_driver = Some(id);
        self.enter_pose();
        self.status = match self.rig.find_driver(id) {
            Some(i) => {
                assert(self@.rig.drivers[i as int] == self.rig.drivers@[i as int]@);
                join("Editing ", &self.rig.drivers[i].name)
            },
            None => join("Editing ", "driver"),
        };
    }

    /// The "Del" button of driver `id`.
    pub fn driver_removed(&mut self, id: u32)
        requires
            old(self).wf(),
        ensures
            final(self).wf(),
            final(self)@ == (AppView {
                rig: RigView {
                    drivers: old(self)@.rig.drivers.filter(|d: DriverView| d.id != id),
                    ..old(self)@.rig
                },
                editing_driver: if old(self)@.editing_driver == Some(id) {
                    None
                } else {
                    old(self)@.editing_driver
                },
                status: "Removed driver #"@ + decimal_of(id as nat),
                ..old(self)@
            }),
    {
        let open = match self.editing_driver {
            Some(e) => e == id,
            None => false,
        };
        if open {
            self.editing_driver = None;
        }
        self.rig.remove_driver(id);
        self.status = join("Removed driver #", &decimal(id as u64));
    }

    /// The title of the editor window; without a driver to edit there is none,
    /// and the editor counts as closed.
    pub fn driver_editor_window(&mut self) -> (r: Option<String>)
        requires
            old(self).wf(),
        ensures
            final(self).wf(),
            match r {
                Some(title) => {
                    &&& final(self)@ == old(self)@
                    &&& old(self)@.editing_driver matches Some(id)
                    &&& driver_find(old(self)@.rig.drivers, id) is Some
                    &&& title@ == "Driver — "@ + driver_name(old(self)@.rig.drivers, id, Seq::empty())
                },
                None => {
                    &&& final(self)@ == (AppView { editing_driver: None, ..old(self)@ })
                    &&& old(self)@.editing_driver matches Some(id) ==> driver_find(
                        old(self)@.rig.drivers,
                        id,
                    ) is None
                },
            },
    {
        let id = match self.editing_driver {
            Some(id) => id,
            None => {
                return None;
            },
        };
        match self.rig.find_driver(id) {
            Some(i) => {
                assert(self@.rig.drivers[i as int] == self.rig.drivers@[i as int]@);
                Some(join("Driver — ", &self.rig.drivers[i].name))
            },
            None => {
                self.editing_driver = None;
                None
            },
        }
    }

    /// What the status line says when the selected nodes of driver `id` are to
    /// be cloned, or deleted; nothing where none is selected.
    pub fn editor_request(&mut self, id: u32, delete: bool) -> (r: bool)
        requires
            old(self).wf(),
        ensures
            final(self).wf(),
            r == (driver_find(old(self)@.rig.drivers, id) matches Some(i)
                && old(self)@.rig.drivers[i].space.selected_nodes.len() > 0),
            final(self)@ == (if r {
                let n = old(self)@.rig.drivers[driver_find(old(self)@.rig.drivers, id)->0].space.selected_nodes.len();
                AppView {
                    status: (if delete {
                        "Delete "@
                    } else {
                        "Clone "@
                    }) + decimal_of(n) + " node(s)"@,
                    ..old(self)@
                }
            } else {
                old(self)@
            }),
    {
        match self.rig.find_driver(id) {
            Some(i) => {
                assert(self@.rig.drivers[i as int] == self.rig.drivers@[i as int]@);
                let n = self.rig.drivers[i].space.selected_nodes.len();
                if n == 0 {
                    return false;
                }
                let verb = if delete {
                    "Delete "
                } else {
                    "Clone "
                };
                self.status = join(&join(verb, &decimal(n as u64)), " node(s)");
                true
            },
            None => false,
        }
    }

    /// A kind was chosen in the spawn menu: a node of it appears at `pos`.
    pub fn editor_spawned(&mut self, id: u32, kind: DriverNodeKind, pos: Vec2)
        requires
            old(self).wf(),
            driver_find(old(self)@.rig.drivers, id) matches Some(i) ==> old(
                self,
            )@.rig.drivers[i].next_node_serial < u64::MAX,
        ensures
            final(self).wf(),
            final(self)@ == (match driver_find(old(self)@.rig.drivers, id) {
                Some(i) => AppView {
                    rig: RigView {
                        drivers: old(self)@.rig.drivers.update(
                            i,
                            spawned(old(self)@.rig.drivers[i], kind, pos),
                        ),
                        ..old(self)@.rig
                    },
                    driver_spawn_page: 0,
                    status: "Spawned "@ + kind.title_of(),
                    ..old(self)@
                },
                None => old(self)@,
            }),
    {
        match self.rig.find_driver(id) {
            Some(i) => {
                let ghost ds = self@.rig.drivers;
                assert(ds[i as int] == self.rig.drivers@[i as int]@);
                let _id = self.rig.drivers[i].spawn_node(kind, pos);
                assert(self@.rig.drivers =~= ds.update(i as int, spawned(ds[i as int], kind, pos)));
                self.driver_spawn_page = 0;
                self.status = join("Spawned ", kind.title());
            },
            None => {},
        }
    }

    /// The editor window was closed.
    pub fn editor_closed(&mut self)
        requires
            old(self).wf(),
        ensures
            final(self).wf(),
            final(self)@ == (AppView { editing_driver: None, driver_spawn_page: 0, ..old(self)@ }),
    {
        self.editing_driver = None;
        self.driver_spawn_page = 0;
    }

    /// The button of a morph node that takes the active shape key: the key to
    /// drive, if there is one.
    pub fn morph_taken(&mut self) -> (r: Option<(MeshHandle, usize)>)
        requires
            old(self).wf(),
        ensures
            final(self).wf(),
            r == (match (old(self)@.rig.active_mesh, old(self)@.rig.active_shape) {
                (Some(mesh), Some(index)) => Some((mesh, index)),
                _ => None,
            }),
            final(self)@ == (AppView {
                status: if r is Some {
                    "Morph ← "@ + (match active_name(old(self)@) {
                        Some(name) => name,
                        None => "shape"@,
                    })
                } else {
                    "Select an active shape key first"@
                },
                ..old(self)@
            }),
    {
        match (self.rig.active_mesh, self.rig.active_shape) {
            (Some(mesh), Some(index)) => {
                let name = self.scene.key_name(mesh, index);
                self.status = match name {
                    Some(n) => join("Morph ← ", &n),
                    None => join("Morph ← ", "shape"),
                };
                Some((mesh, index))
            },
            _ => {
                self.status = "Select an active shape key first".to_owned();
                None
            },
        }
    }
}

/// What a morph node says it drives.
pub fn morph_label(mesh: Option<MeshHandle>, shape: usize) -> (r: String)
    ensures
        r@ == (if mesh is Some {
            "shape #"@ + decimal_of(shape as nat)
        } else {
            "(no morph)"@
        }),
{
    if mesh.is_some() {
        join("shape #", &decimal(shape as u64))
    } else {
        "(no morph)".to_owned()
    }
}

} // verus!
