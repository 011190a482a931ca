//! The editing session around a rig: status line, inspector, and the one drag
//! that may be going on.

use vstd::prelude::*;
use crate::bones::{BoneId, BoneView};
use crate::geom::{scalar, scalar_of, splat3, vec3_splat, Quat, Transform, Vec2, Vec3, BITS_ZERO};
use crate::rig::{AppMode, RigDocument, RigView, Tool};
use crate::rig_chains::name_or;
use crate::rig_pose::{first_bone_local, mode_scene, mode_set, model_cleared, no_transform, pose_reset, scene_cleared, starter_bones, starter_nodes};
use crate::rig_select::empty_rig;
use crate::scene::{node_get, MeshHandle, NodeHandle, Scene, SceneView};
use crate::text::{decimal, decimal_of, join};

verus! {

/// A handle of the gizmo.
#[derive(Clone, Copy, Debug, PartialEq, Eq, Structural)]
pub enum GizmoAxis {
    X,
    Y,
    Z,
    Xy,
    Yz,
    Zx,
    Uniform,
}

/// What is being dragged in the viewport. How far, the host knows.
pub enum Drag {
    /// Rotating `bones`, `bone` being the active one.
    Rotate { bone: BoneId, axis: GizmoAxis, bones: Vec<BoneId> },
    /// Moving `bones`, `bone` being the active one.
    Translate { bone: BoneId, axis: GizmoAxis, bones: Vec<BoneId> },
    /// Pulling a short IK chain by `bone`.
    IkPull { bone: BoneId, axis: GizmoAxis },
    /// Pulling a soft chain of ancestors by `bone`.
    Verlet { bone: BoneId, axis: GizmoAxis },
    /// A brush stroke on `mesh`.
    Sculpt { mesh: MeshHandle },
    /// Holding a particle of soft chain `chain_id`.
    SoftGrab { chain_id: u32, bone: BoneId },
    /// A selection rectangle.
    Marquee { start: Vec2, current: Vec2, additive: bool },
}

/// What a drag holds.
#[verifier::ext_equal]
pub enum DragView {
    Rotate { bone: BoneId, axis: GizmoAxis, bones: Seq<BoneId> },
    Translate { bone: BoneId, axis: GizmoAxis, bones: Seq<BoneId> },
    IkPull { bone: BoneId, axis: GizmoAxis },
    Verlet { bone: BoneId, axis: GizmoAxis },
    Sculpt { mesh: MeshHandle },
    SoftGrab { chain_id: u32, bone: BoneId },
    Marquee { start: Vec2, current: Vec2, additive: bool },
}

impl View for Drag {
    type V = DragView;

    open spec fn view(&self) -> DragView {
        match *self {
            Drag::Rotate { bone, axis, bones } => DragView::Rotate { bone, axis, bones: bones@ },
            Drag::Translate { bone, axis, bones } => DragView::Translate {
                bone,
                axis,
                bones: bones@,
            },
            Drag::IkPull { bone, axis } => DragView::IkPull { bone, axis },
            Drag::Verlet { bone, axis } => DragView::Verlet { bone, axis },
            Drag::Sculpt { mesh } => DragView::Sculpt { mesh },
            Drag::SoftGrab { chain_id, bone } => DragView::SoftGrab { chain_id, bone },
            Drag::Marquee { start, current, additive } => DragView::Marquee {
                start,
                current,
                additive,
            },
        }
    }
}

pub open spec fn drag_view(d: Option<Drag>) -> Option<DragView> {
    match d {
        Some(d) => Some(d@),
        None => None,
    }
}

pub struct AppState {
    pub scene: Scene,
    pub rig: RigDocument,
    pub status: String,
    pub drag: Option<Drag>,
    pub gizmo_hover: Option<GizmoAxis>,
    /// Euler degrees shown in inspector (synced from selection).
    pub edit_euler_deg: Vec3,
    pub edit_translation: Vec3,
    pub edit_bone: Option<BoneId>,
    /// Host should re-read orbit cam from its scene's camera.
    pub resync_camera: bool,
    /// Host should drop visualizer mesh/texture GPU caches (after Scene replace).
    pub clear_gpu_cache: bool,
    /// Bones that rotate when creating IK (tip's ancestors). Default 2 = arm/leg.
    pub ik_create_length: usize,
    /// Open floating driver node editor for this driver id.
    pub editing_driver: Option<u32>,
    /// Drill-down page for driver spawn context menu (0 = root).
    pub driver_spawn_page: u8,
}

/// The session as a mathematical value.
#[verifier::ext_equal]
pub struct AppView {
    pub scene: SceneView,
    pub rig: RigView,
    pub status: Seq<char>,
    pub drag: Option<DragView>,
    pub gizmo_hover: Option<GizmoAxis>,
    pub edit_euler_deg: Vec3,
    pub edit_translation: Vec3,
    pub edit_bone: Option<BoneId>,
    pub resync_camera: bool,
    pub clear_gpu_cache: bool,
    pub ik_create_length: usize,
    pub editing_driver: Option<u32>,
    pub driver_spawn_page: u8,
}

impl View for AppState {
    type V = AppView;

    open spec fn view(&self) -> AppView {
        AppView {
            scene: self.scene@,
            rig: self.rig@,
            status: self.status@,
            drag: drag_view(self.drag),
            gizmo_hover: self.gizmo_hover,
            edit_euler_deg: self.edit_euler_deg,
            edit_translation: self.edit_translation,
            edit_bone: self.edit_bone,
            resync_camera: self.resync_camera,
            clear_gpu_cache: self.clear_gpu_cache,
            ik_create_length: self.ik_create_length,
            editing_driver: self.editing_driver,
            driver_spawn_page: self.driver_spawn_page,
        }
    }
}

/// How many bones a new IK chain rotates unless told otherwise.
pub const DEFAULT_IK_LENGTH: usize = 2;

pub open spec fn zero_vec() -> Vec3 {
    vec3_splat(scalar_of(BITS_ZERO))
}

/// `a` with interaction and inspector wiped, and the host told to catch up.
pub open spec fn session_reset(a: AppView) -> AppView {
    AppView {
        drag: None,
        gizmo_hover: None,
        edit_bone: None,
        edit_euler_deg: zero_vec(),
        edit_translation: zero_vec(),
        ik_create_length: DEFAULT_IK_LENGTH,
        editing_driver: None,
        driver_spawn_page: 0,
        resync_camera: true,
        clear_gpu_cache: true,
        ..a
    }
}

/// The status line can tell of the selection: a single selected bone is active.
pub open spec fn tellable(r: RigView) -> bool {
    r.selected.len() == 1 ==> r.selection is Some
}

/// What the status line says of the selection.
pub open spec fn selection_status(r: RigView) -> Seq<char> {
    if r.selected.len() == 0 {
        "Selection cleared."@
    } else if r.selected.len() == 1 {
        "Selected: "@ + name_or(r.bones, r.selection->0, "?"@)
    } else {
        "Selected: "@ + decimal_of(r.selected.len()) + " bones"@
    }
}

/// What the status line says after switching to a mode.
pub open spec fn mode_status(mode: AppMode) -> Seq<char> {
    match mode {
        AppMode::Edit => "Edit mode — rest pose / hierarchy"@,
        AppMode::Pose => "Pose mode — FK rotate"@,
        AppMode::Shape => "Shape mode — Grab / Inflate / Smooth on shape keys"@,
    }
}

/// The session after switching to `mode`.
pub open spec fn app_in_mode(a: AppView, mode: AppMode) -> AppView {
    AppView {
        rig: mode_set(a.rig, a.scene, mode),
        scene: mode_scene(a.rig, a.scene, mode),
        drag: None,
        edit_bone: None,
        status: mode_status(mode),
        ..a
    }
}

/// The inspector showing bone `id` as it is, its angles being `euler`.
pub open spec fn inspecting(a: AppView, id: BoneId, euler: Vec3) -> AppView {
    match node_get(a.scene.nodes, id.node) {
        Some(n) => AppView {
            edit_euler_deg: euler,
            edit_translation: n.local.translation,
            edit_bone: Some(id),
            ..a
        },
        None => a,
    }
}

impl AppState {
    pub open spec fn wf(self) -> bool {
        self.rig.wf() && self.scene.wf()
    }

    pub fn new() -> (r: Self)
        ensures
            r.wf(),
            r@ == (AppView {
                scene: scene_cleared(),
                rig: empty_rig(),
                status: "File → New Skeleton · Tab switches Edit/Pose"@,
                drag: None,
                gizmo_hover: None,
                edit_euler_deg: zero_vec(),
                edit_translation: zero_vec(),
                edit_bone: None,
                resync_camera: false,
                clear_gpu_cache: false,
                ik_create_length: DEFAULT_IK_LENGTH,
                editing_driver: None,
                driver_spawn_page: 0,
            }),
    {
        let zero = splat3(scalar(BITS_ZERO));
        let scene = Scene { nodes: Vec::new(), skins: Vec::new(), meshes: Vec::new() };
        assert(scene@ =~= scene_cleared());
        AppState {
            scene,
            rig: RigDocument::default(),
            status: "File → New Skeleton · Tab switches Edit/Pose".to_owned(),
            drag: None,
            gizmo_hover: None,
            edit_euler_deg: zero,
            edit_translation: zero,
            edit_bone: None,
            resync_camera: false,
            clear_gpu_cache: false,
            ik_create_length: DEFAULT_IK_LENGTH,
            editing_driver: None,
            driver_spawn_page: 0,
        }
    }

    pub fn has_drag(&self) -> (r: bool)
        ensures
            r == (self@.drag is Some),
    {
        self.drag.is_some()
    }

    pub fn clear_drags(&mut self)
        requires
            old(self).wf(),
        ensures
            final(self).wf(),
            final(self)@ == (AppView { drag: None, ..old(self)@ }),
    {
        self.drag = None;
    }

    /// Wipe interaction / inspector state after replacing the document or scene.
    pub fn reset_session_state(&mut self)
        requires
            old(self).wf(),
        ensures
            final(self).wf(),
            final(self)@ == session_reset(old(self)@),
    {
        let zero = splat3(scalar(BITS_ZERO));
        self.drag = None;
        self.gizmo_hover = None;
        self.edit_bone = None;
        self.edit_euler_deg = zero;
        self.edit_translation = zero;
        self.ik_create_length = DEFAULT_IK_LENGTH;
        self.editing_driver = None;
        self.driver_spawn_page = 0;
        self.resync_camera = true;
        self.clear_gpu_cache = true;
    }

    /// Lets the status line tell of the selection.
    pub fn status_from_selection(&mut self)
        requires
            old(self).wf(),
            tellable(old(self)@.rig),
        ensures
            final(self).wf(),
            final(self)@ == (AppView { status: selection_status(old(self)@.rig), ..old(self)@ }),
    {
        proof {
            self.rig.selected@.unique_seq_to_set();
        }
        let n = self.rig.selected.len();
        self.status = if n == 0 {
            "Selection cleared.".to_owned()
        } else if n == 1 {
            match self.rig.selection {
                Some(id) => join("Selected: ", &self.rig.name_of(id, "?")),
                None => String::new(),
            }
        } else {
            join(&join("Selected: ", &decimal(n as u64)), " bones")
        };
    }

    /// Starts a new skeleton on the new nodes `root` and `tip`.
    pub fn new_skeleton(&mut self, root: NodeHandle, tip: NodeHandle)
        requires
            old(self).wf(),
            root.index != tip.index,
        ensures
            final(self).wf(),
            final(self)@ == session_reset(
                AppView {
                    scene: SceneView { nodes: starter_nodes(root, tip), ..scene_cleared() },
                    rig: RigView {
                        bones: starter_bones(BoneId { node: root }, BoneId { node: tip }),
                        selected: Set::empty().insert(BoneId { node: tip }),
                        selection: Some(BoneId { node: tip }),
                        bind_locals: Map::empty().insert(root.key_of(), no_transform()).insert(
                            tip.key_of(),
                            first_bone_local(),
                        ),
                        mode: AppMode::Edit,
                        tool: Tool::Translate,
                        ..model_cleared(old(self)@.rig)
                    },
                    status: "New skeleton · Edit mode · Extrude (E) / Add / Translate"@,
                    ..old(self)@
                },
            ),
    {
        self.rig.new_skeleton(&mut self.scene, root, tip);
        self.reset_session_state();
        self.status = "New skeleton · Edit mode · Extrude (E) / Add / Translate".to_owned();
    }

    /// What to report after loading `file`.
    pub fn loaded_status(&self, file: &str) -> (r: String)
        ensures
            r@ == "Loaded "@ + file@ + " · "@ + decimal_of(self@.rig.bones.len()) + " bones ("@
                + decimal_of(
                self@.rig.bones.filter(|b: BoneView| b.parent is Some).len(),
            ) + " with parent) · Pose mode"@,
    {
        let ghost bs = self@.rig.bones;
        let ghost p = |b: BoneView| b.parent is Some;
        let mut with_parent: usize = 0;
        let mut i: usize = 0;
        proof {
            crate::lists::lemma_filter_ends(bs, p);
        }
        while i < self.rig.bones.len()
            invariant
                i <= self.rig.bones@.len(),
                bs == self@.rig.bones,
                p == (|b: BoneView| b.parent is Some),
                with_parent == bs.take(i as int).filter(p).len(),
                with_parent <= i,
            decreases self.rig.bones.len() - i,
        {
            assert(bs[i as int].parent == self.rig.bones@[i as int].parent);
            proof {
                crate::lists::lemma_filter_step(bs, p, i as int);
            }
            if self.rig.bones[i].parent.is_some() {
                with_parent = with_parent + 1;
            }
            i = i + 1;
        }
        let mut out = String::new();
        out.append("Loaded ");
        out.append(file);
        out.append(" · ");
        out.append(&decimal(self.rig.bones.len() as u64));
        out.append(" bones (");
        out.append(&decimal(with_parent as u64));
        out.append(" with parent) · Pose mode");
        assert(out@ =~= "Loaded "@ + file@ + " · "@ + decimal_of(bs.len()) + " bones ("@
            + decimal_of(bs.filter(p).len()) + " with parent) · Pose mode"@);
        out
    }

    pub fn set_mode(&mut self, mode: AppMode)
        requires
            old(self).wf(),
        ensures
            final(self).wf(),
            final(self)@ == app_in_mode(old(self)@, mode),
    {
        self.rig.set_mode(&mut self.scene, mode);
        self.drag = None;
        self.edit_bone = None;
        self.status = match mode {
            AppMode::Edit => "Edit mode — rest pose / hierarchy".to_owned(),
            AppMode::Pose => "Pose mode — FK rotate".to_owned(),
            AppMode::Shape => "Shape mode — Grab / Inflate / Smooth on shape keys".to_owned(),
        };
    }

    /// Turns the inspector to the selection where that changed; `euler` are the
    /// angles of the selected bone.
    pub fn sync_inspector_from_selection(&mut self, euler: Vec3)
        requires
            old(self).wf(),
        ensures
            final(self).wf(),
            final(self)@ == ({
                let a = old(self)@;
                if a.edit_bone == a.rig.selection {
                    a
                } else {
                    match a.rig.selection {
                        None => AppView { edit_bone: None, ..a },
                        Some(id) => match node_get(a.scene.nodes, id.node) {
                            Some(_) => inspecting(a, id, euler),
                            None => AppView { edit_bone: Some(id), ..a },
                        },
                    }
                }
            }),
    {
        let same = match (self.edit_bone, self.rig.selection) {
            (Some(a), Some(b)) => a == b,
            (None, None) => true,
            _ => false,
        };
        if same {
            return;
        }
        self.edit_bone = self.rig.selection;
        if let Some(id) = self.rig.selection {
            if let Some(i) = self.scene.find_node(id.node) {
                assert(self.scene@.nodes[i as int].local == self.scene.nodes@[i as int].local);
                self.edit_euler_deg = euler;
                self.edit_translation = self.scene.nodes[i].local.translation;
            }
        }
    }

    /// Shows in the inspector where `bone` is, its angles being `euler`.
    pub fn sync_inspector_live(&mut self, bone: BoneId, euler: Vec3)
        requires
            old(self).wf(),
        ensures
            final(self).wf(),
            final(self)@ == inspecting(old(self)@, bone, euler),
    {
        if let Some(i) = self.scene.find_node(bone.node) {
            assert(self.scene@.nodes[i as int].local == self.scene.nodes@[i as int].local);
            self.edit_euler_deg = euler;
            self.edit_translation = self.scene.nodes[i].local.translation;
            self.edit_bone = Some(bone);
        }
    }

    /// The inspected bone gets the translation that the inspector shows, and is
    /// bound there in Edit.
    pub fn apply_inspector_translation(&mut self)
        requires
            old(self).wf(),
        ensures
            final(self).wf(),
            final(self)@ == ({
                let a = old(self)@;
                match a.edit_bone {
                    None => a,
                    Some(id) => match node_get(a.scene.nodes, id.node) {
                        Some(n) => placed_by_hand(
                            a,
                            id,
                            Transform { translation: a.edit_translation, ..n.local },
                        ),
                        None => AppView { rig: RigView { overlay_dirty: true, ..a.rig }, ..a },
                    },
                }
            }),
    {
        let id = match self.edit_bone {
            Some(id) => id,
            None => {
                return;
            },
        };
        match self.scene.find_node(id.node) {
            Some(i) => {
                assert(self.scene@.nodes[i as int].local == self.scene.nodes@[i as int].local);
                let local = self.scene.nodes[i].local;
                self.place_by_hand(id, Transform { translation: self.edit_translation, ..local });
            },
            None => {
                self.rig.invalidate_weight_overlay();
            },
        }
    }

    /// The inspected bone gets `rotation`, which is that of the angles that the
    /// inspector shows, and is bound there in Edit.
    pub fn apply_inspector_euler(&mut self, rotation: Quat)
        requires
            old(self).wf(),
        ensures
            final(self).wf(),
            final(self)@ == ({
                let a = old(self)@;
                match a.edit_bone {
                    None => a,
                    Some(id) => match node_get(a.scene.nodes, id.node) {
                        Some(n) => placed_by_hand(a, id, Transform { rotation, ..n.local }),
                        None => AppView { rig: RigView { overlay_dirty: true, ..a.rig }, ..a },
                    },
                }
            }),
    {
        let id = match self.edit_bone {
            Some(id) => id,
            None => {
                return;
            },
        };
        match self.scene.find_node(id.node) {
            Some(i) => {
                assert(self.scene@.nodes[i as int].local == self.scene.nodes@[i as int].local);
                let local = self.scene.nodes[i].local;
                self.place_by_hand(id, Transform { rotation, ..local });
            },
            None => {
                self.rig.invalidate_weight_overlay();
            },
        }
    }

    /// `id` gets the local transform `local`, and is bound there in Edit.
    fn place_by_hand(&mut self, id: BoneId, local: Transform)
        requires
            old(self).wf(),
        ensures
            final(self).wf(),
            final(self)@ == placed_by_hand(old(self)@, id, local),
    {
        self.scene.set_local(id.node, local);
        self.rig.invalidate_weight_overlay();
        if self.rig.mode == AppMode::Edit {
            self.rig.write_bind_for(&self.scene, id);
        }
    }

    /// Back to bind pose, from the menu.
    pub fn reset_pose(&mut self)
        requires
            old(self).wf(),
        ensures
            final(self).wf(),
            final(self)@ == (AppView {
                rig: pose_reset(old(self)@.rig),
                scene: SceneView {
                    nodes: crate::rig_pose::reposed(
                        old(self)@.scene.nodes,
                        crate::rig_pose::all_bones(old(self)@.rig.bones),
                        old(self)@.rig.bind_locals,
                    ),
                    ..old(self)@.scene
                },
                edit_bone: None,
                status: "Pose reset to bind."@,
                ..old(self)@
            }),
    {
        self.rig.reset_pose(&mut self.scene);
        self.edit_bone = None;
        self.status = "Pose reset to bind.".to_owned();
    }

    /// Whether frames must keep coming: while dragging, and in Pose while soft
    /// chains or drivers are on or a driver is being edited.
    pub fn update(&self) -> (r: bool)
        ensures
            r == (self@.drag is Some || (self@.rig.mode == AppMode::Pose && (soft_on(self@.rig)
                || drivers_on(self@.rig) || self@.editing_driver is Some))),
    {
        if self.drag.is_some() {
            return true;
        }
        if self.rig.mode != AppMode::Pose {
            return false;
        }
        let mut i: usize = 0;
        while i < self.rig.soft_chains.len()
            invariant
                i <= self.rig.soft_chains@.len(),
                self@.rig.mode == AppMode::Pose,
                forall|j: int| 0 <= j < i ==> !(#[trigger] self@.rig.soft_chains[j]).enabled,
            decreases self.rig.soft_chains.len() - i,
        {
            assert(self@.rig.soft_chains[i as int].enabled == self.rig.soft_chains@[i as int].enabled);
            if self.rig.soft_chains[i].enabled {
                return true;
            }
            i = i + 1;
        }
        let mut k: usize = 0;
        while k < self.rig.drivers.len()
            invariant
                k <= self.rig.drivers@.len(),
                self@.rig.mode == AppMode::Pose,
                forall|j: int| 0 <= j < k ==> !(#[trigger] self@.rig.drivers[j]).enabled,
            decreases self.rig.drivers.len() - k,
        {
            assert(self@.rig.drivers[k as int].enabled == self.rig.drivers@[k as int].enabled);
            if self.rig.drivers[k].enabled {
                return true;
            }
            k = k + 1;
        }
        self.editing_driver.is_some()
    }
}

/// `a` with the bone `id` at the local transform `local`, and bound there in
/// Edit.
pub open spec fn placed_by_hand(a: AppView, id: BoneId, local: Transform) -> AppView {
    let nodes = crate::scene::with_local(a.scene.nodes, id.node, local);
    AppView {
        scene: SceneView { nodes, ..a.scene },
        rig: RigView {
            overlay_dirty: true,
            bind_locals: if a.rig.mode == AppMode::Edit {
                match node_get(nodes, id.node) {
                    Some(n) => a.rig.bind_locals.insert(id.node.key_of(), n.local),
                    None => a.rig.bind_locals,
                }
            } else {
                a.rig.bind_locals
            },
            ..a.rig
        },
        ..a
    }
}

pub open spec fn soft_on(r: RigView) -> bool {
    exists|i: int| 0 <= i < r.soft_chains.len() && (#[trigger] r.soft_chains[i]).enabled
}

pub open spec fn drivers_on(r: RigView) -> bool {
    exists|i: int| 0 <= i < r.drivers.len() && (#[trigger] r.drivers[i]).enabled
}

} // verus!
