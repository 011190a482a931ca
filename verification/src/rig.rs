//! The rig document: bones and bind pose on top of a scene, with the chains,
//! colliders, drivers and editor state that belong to them.

use vstd::prelude::*;
use std::collections::HashMap;
use crate::bones::{bones_view, bone_at, bone_pos, forest, has_bone, BoneId, BoneInfo, BoneView};
use crate::driver::{Driver, DriverView};
use crate::geom::{Color, Mat4, Quat, Rect, Scalar, Transform, Vec3};
use crate::scene::{MeshHandle, NodeHandle};

verus! {

#[derive(Clone, Copy, Debug, PartialEq, Eq, Structural)]
pub enum AppMode {
    /// Create / reparent / rest-pose transforms.
    Edit,
    /// FK pose on top of bind.
    Pose,
    /// Shape keys / morph sculpt (bind pose).
    Shape,
}

#[derive(Clone, Copy, Debug, PartialEq, Eq, Structural)]
pub enum Tool {
    Select,
    /// Edit: place / extrude a child bone.
    AddBone,
    Translate,
    Rotate,
    /// Shape mode: sculpt brush (`brush_kind`).
    Brush,
    /// Pose: soft-grab a soft-chain particle (test / poke physics).
    SoftGrab,
}

/// Sculpt brush mode (Shape + `Tool::Brush`).
#[derive(Clone, Copy, Debug, PartialEq, Eq, Structural)]
pub enum BrushKind {
    Grab,
    /// Push / pull along vertex normals.
    Inflate,
    /// Laplacian relax toward neighbors.
    Smooth,
}

/// How the Move tool applies translation (Pose). Edit always uses FK.
#[derive(Clone, Copy, Debug, PartialEq, Eq, Structural)]
pub enum MoveMode {
    /// Local/world translate of selection roots.
    Fk,
    /// CCD Auto-IK: short chain pull.
    AutoIk,
    /// Soft CCD with root falloff (whole ancestor chain).
    Verlet,
}

/// Gizmo / transform axis space.
#[derive(Clone, Copy, Debug, PartialEq, Eq, Structural)]
pub enum TransformSpace {
    Local,
    World,
}

impl Default for AppMode {
    fn default() -> (r: Self)
        ensures
            r == AppMode::Pose,
    {
        AppMode::Pose
    }
}

impl Default for Tool {
    fn default() -> (r: Self)
        ensures
            r == Tool::Select,
    {
        Tool::Select
    }
}

impl Default for BrushKind {
    fn default() -> (r: Self)
        ensures
            r == BrushKind::Grab,
    {
        BrushKind::Grab
    }
}

impl Default for MoveMode {
    fn default() -> (r: Self)
        ensures
            r == MoveMode::Fk,
    {
        MoveMode::Fk
    }
}

impl Default for TransformSpace {
    fn default() -> (r: Self)
        ensures
            r == TransformSpace::Local,
    {
        TransformSpace::Local
    }
}

/// Configured IK: deform chain + control target/pole bones.
pub struct IkChain {
    pub id: u32,
    pub name: String,
    /// Effector (hand / foot / chain end) — position we reach for.
    pub tip: BoneId,
    /// Bones that rotate, root-first (any length ≥ 1).
    pub bones: Vec<BoneId>,
    /// Control bone (`deform: false`) — drag this in Pose.
    pub target: BoneId,
    /// Control bone — bend / pole preference.
    pub pole: BoneId,
    pub enabled: bool,
    /// Segment lengths bones[i]→bones[i+1], last → tip (for 2-bone analytic).
    pub lengths: Vec<Scalar>,
    /// `tip_world_rot = target_world_rot * tip_rot_offset` (set at Create IK).
    pub tip_rot_offset: Quat,
}

/// What an IK chain holds.
#[verifier::ext_equal]
pub struct IkView {
    pub id: u32,
    pub name: Seq<char>,
    pub tip: BoneId,
    pub bones: Seq<BoneId>,
    pub target: BoneId,
    pub pole: BoneId,
    pub enabled: bool,
    pub lengths: Seq<Scalar>,
    pub tip_rot_offset: Quat,
}

impl View for IkChain {
    type V = IkView;

    open spec fn view(&self) -> IkView {
        IkView {
            id: self.id,
            name: self.name@,
            tip: self.tip,
            bones: self.bones@,
            target: self.target,
            pole: self.pole,
            enabled: self.enabled,
            lengths: self.lengths@,
            tip_rot_offset: self.tip_rot_offset,
        }
    }
}

#[derive(Clone, Copy, Debug, PartialEq, Eq, Structural)]
pub enum IkControlKind {
    Target,
    Pole,
}

/// Soft capsule collider attached to a bone (local medial axis + radius).
#[derive(Clone, Copy, Debug, PartialEq, Eq, Structural)]
pub struct BoneCollider {
    pub id: u32,
    pub bone: BoneId,
    pub enabled: bool,
    /// Capsule segment start in bone local space.
    pub a_local: Vec3,
    /// Capsule segment end in bone local space.
    pub b_local: Vec3,
    pub radius: Scalar,
    /// Soft push amount (0 = jelly, 1 = firmer — still penetrable).
    pub softness: Scalar,
}

/// Secondary dynamics: gravity + spring-to-pose + support plane (hair / cloth / soft tissue).
pub struct SoftChain {
    pub id: u32,
    pub name: String,
    /// Fixed parent of `bones[0]` (follows body, not simulated).
    pub anchor: BoneId,
    /// Soft joints root→tip (linear). `bones[0]` is pinned to animated pose.
    pub bones: Vec<BoneId>,
    /// Rest length bones[i-1]→bones[i] (index 0 unused).
    pub lengths: Vec<Scalar>,
    /// Virtual particle past the tip (along tip +Y), so the last bone also swings.
    pub tip_length: Scalar,
    /// Support plane normal in `anchor` local space (points "out" of the body).
    pub support_normal_local: Vec3,
    pub enabled: bool,
    /// World gravity acceleration (m/s²-ish in scene units).
    pub gravity: Scalar,
    /// Spring accel toward animated rest (1/s²). Sag ≈ gravity / stiffness.
    pub stiffness: Scalar,
    /// Velocity decay rate (1/s). Frame-rate independent.
    pub damping: Scalar,
    /// How much motion trails the soft root (0 = glued, 1 = normal, >1 = exaggerated).
    pub inertia: Scalar,
    /// Radians from animated rest direction (cone).
    pub max_angle: Scalar,
    /// Runtime Verlet state (world). Includes virtual tip as last particle.
    pub prev_pos: Vec<Vec3>,
    pub curr_pos: Vec<Vec3>,
    /// Previous frame world matrix of soft root (`bones[0]`) for motion inheritance.
    pub prev_root_world: Mat4,
    /// Soft-root world velocity (for inertia / fictitious force).
    pub prev_root_vel: Vec3,
    pub initialized: bool,
    /// 1 just after Soft Grab release; decays each frame to soften spring snap-back.
    pub grab_relax: Scalar,
}

/// What a soft chain holds.
#[verifier::ext_equal]
pub struct SoftView {
    pub id: u32,
    pub name: Seq<char>,
    pub anchor: BoneId,
    pub bones: Seq<BoneId>,
    pub lengths: Seq<Scalar>,
    pub tip_length: Scalar,
    pub support_normal_local: Vec3,
    pub enabled: bool,
    pub gravity: Scalar,
    pub stiffness: Scalar,
    pub damping: Scalar,
    pub inertia: Scalar,
    pub max_angle: Scalar,
    pub prev_pos: Seq<Vec3>,
    pub curr_pos: Seq<Vec3>,
    pub prev_root_world: Mat4,
    pub prev_root_vel: Vec3,
    pub initialized: bool,
    pub grab_relax: Scalar,
}

impl View for SoftChain {
    type V = SoftView;

    open spec fn view(&self) -> SoftView {
        SoftView {
            id: self.id,
            name: self.name@,
            anchor: self.anchor,
            bones: self.bones@,
            lengths: self.lengths@,
            tip_length: self.tip_length,
            support_normal_local: self.support_normal_local,
            enabled: self.enabled,
            gravity: self.gravity,
            stiffness: self.stiffness,
            damping: self.damping,
            inertia: self.inertia,
            max_angle: self.max_angle,
            prev_pos: self.prev_pos@,
            curr_pos: self.curr_pos@,
            prev_root_world: self.prev_root_world,
            prev_root_vel: self.prev_root_vel,
            initialized: self.initialized,
            grab_relax: self.grab_relax,
        }
    }
}

/// One coloured triangle of the weight overlay.
#[derive(Clone, Copy, Debug, PartialEq, Eq, Structural)]
pub struct OverlayTri {
    pub a: Vec3,
    pub b: Vec3,
    pub c: Vec3,
    pub color: Color,
}

/// Cached weight triangles; rebuilt only when dirty (selection / pose / load).
pub struct WeightOverlayCache {
    pub dirty: bool,
    pub tris: Vec<OverlayTri>,
}

pub struct RigDocument {
    pub source_path: Option<String>,
    pub model_root: Option<NodeHandle>,
    pub bones: Vec<BoneInfo>,
    /// Place of each bone in `bones`, by node key.
    pub bone_index: HashMap<u64, usize>,
    /// Active bone (gizmo / inspector). Always ∈ `selected` when `Some`.
    pub selection: Option<BoneId>,
    /// Multi-selection set; no bone occurs twice.
    pub selected: Vec<BoneId>,
    /// Local transforms at bind (load) time, by node key.
    pub bind_locals: HashMap<u64, Transform>,
    pub show_skeleton: bool,
    pub show_mesh: bool,
    /// Heat-map overlay for selected bone influence on skinned meshes.
    pub show_weights: bool,
    /// Debug wire capsules for bone colliders.
    pub show_colliders: bool,
    pub weight_overlay: WeightOverlayCache,
    pub mode: AppMode,
    pub tool: Tool,
    pub move_mode: MoveMode,
    pub transform_space: TransformSpace,
    /// Configured IK limbs (arms / legs).
    pub ik_chains: Vec<IkChain>,
    /// Soft / secondary bone chains (gravity + support).
    pub soft_chains: Vec<SoftChain>,
    /// Soft capsule colliders on bones (body / breast volume, etc.).
    pub colliders: Vec<BoneCollider>,
    /// Node-graph drivers, evaluated in Pose.
    pub drivers: Vec<Driver>,
    /// Mesh used for shape-key editing.
    pub active_mesh: Option<MeshHandle>,
    /// Active morph target index on `active_mesh`.
    pub active_shape: Option<usize>,
    /// Grab brush radius in world units.
    pub brush_radius: Scalar,
    /// Grab brush strength multiplier (0–1).
    pub brush_strength: Scalar,
    pub brush_kind: BrushKind,
    /// Screen-space rect of the 3D viewport (updated each UI frame).
    pub viewport_rect: Rect,
    /// Counter for default bone names.
    pub next_bone_serial: u32,
    pub next_ik_serial: u32,
    pub next_soft_serial: u32,
    pub next_collider_serial: u32,
    pub next_shape_serial: u32,
}

/// The rig document as a mathematical value.
#[verifier::ext_equal]
pub struct RigView {
    pub source_path: Option<Seq<char>>,
    pub model_root: Option<NodeHandle>,
    pub bones: Seq<BoneView>,
    pub selection: Option<BoneId>,
    pub selected: Set<BoneId>,
    pub bind_locals: Map<u64, Transform>,
    pub show_skeleton: bool,
    pub show_mesh: bool,
    pub show_weights: bool,
    pub show_colliders: bool,
    pub overlay_dirty: bool,
    pub overlay_tris: Seq<OverlayTri>,
    pub mode: AppMode,
    pub tool: Tool,
    pub move_mode: MoveMode,
    pub transform_space: TransformSpace,
    pub ik_chains: Seq<IkView>,
    pub soft_chains: Seq<SoftView>,
    pub colliders: Seq<BoneCollider>,
    pub drivers: Seq<DriverView>,
    pub active_mesh: Option<MeshHandle>,
    pub active_shape: Option<usize>,
    pub brush_radius: Scalar,
    pub brush_strength: Scalar,
    pub brush_kind: BrushKind,
    pub viewport_rect: Rect,
    pub next_bone_serial: u32,
    pub next_ik_serial: u32,
    pub next_soft_serial: u32,
    pub next_collider_serial: u32,
    pub next_shape_serial: u32,
}

pub open spec fn ik_view(s: Seq<IkChain>) -> Seq<IkView> {
    Seq::new(s.len(), |i: int| s[i]@)
}

pub open spec fn soft_view(s: Seq<SoftChain>) -> Seq<SoftView> {
    Seq::new(s.len(), |i: int| s[i]@)
}

pub open spec fn drivers_view(s: Seq<Driver>) -> Seq<DriverView> {
    Seq::new(s.len(), |i: int| s[i]@)
}

pub open spec fn text_opt(s: Option<String>) -> Option<Seq<char>> {
    match s {
        Some(t) => Some(t@),
        None => None,
    }
}

impl View for RigDocument {
    type V = RigView;

    open spec fn view(&self) -> RigView {
        RigView {
            source_path: text_opt(self.source_path),
            model_root: self.model_root,
            bones: bones_view(self.bones@),
            selection: self.selection,
            selected: self.selected@.to_set(),
            bind_locals: self.bind_locals@,
            show_skeleton: self.show_skeleton,
            show_mesh: self.show_mesh,
            show_weights: self.show_weights,
            show_colliders: self.show_colliders,
            overlay_dirty: self.weight_overlay.dirty,
            overlay_tris: self.weight_overlay.tris@,
            mode: self.mode,
            tool: self.tool,
            move_mode: self.move_mode,
            transform_space: self.transform_space,
            ik_chains: ik_view(self.ik_chains@),
            soft_chains: soft_view(self.soft_chains@),
            colliders: self.colliders@,
            drivers: drivers_view(self.drivers@),
            active_mesh: self.active_mesh,
            active_shape: self.active_shape,
            brush_radius: self.brush_radius,
            brush_strength: self.brush_strength,
            brush_kind: self.brush_kind,
            viewport_rect: self.viewport_rect,
            next_bone_serial: self.next_bone_serial,
            next_ik_serial: self.next_ik_serial,
            next_soft_serial: self.next_soft_serial,
            next_collider_serial: self.next_collider_serial,
            next_shape_serial: self.next_shape_serial,
        }
    }
}

/// The index finds every bone at its place, and nothing else.
pub open spec fn index_ok(bs: Seq<BoneView>, index: Map<u64, usize>) -> bool {
    &&& forall|id: BoneId|
        #[trigger] has_bone(bs, id) ==> index.contains_key(id.node.key_of())
            && index[id.node.key_of()] == bone_pos(bs, id)
    &&& forall|id: BoneId|
        #[trigger] index.contains_key(id.node.key_of()) ==> has_bone(bs, id)
}

/// Ids of IK chains are distinct and already given out; a chain has bones and
/// a length for each.
pub open spec fn ik_ok(chains: Seq<IkView>, next: u32) -> bool {
    &&& forall|i: int|
        0 <= i < chains.len() ==> (#[trigger] chains[i]).id < next && chains[i].bones.len() >= 1
            && chains[i].lengths.len() == chains[i].bones.len()
    &&& forall|i: int, j: int|
        0 <= i < j < chains.len() ==> (#[trigger] chains[i]).id != (#[trigger] chains[j]).id
}

/// Ids of soft chains are distinct and already given out; a chain has at least
/// a root and a tip.
pub open spec fn soft_ok(chains: Seq<SoftView>, next: u32) -> bool {
    &&& forall|i: int|
        0 <= i < chains.len() ==> (#[trigger] chains[i]).id < next && chains[i].bones.len() >= 2
            && chains[i].lengths.len() == chains[i].bones.len()
    &&& forall|i: int, j: int|
        0 <= i < j < chains.len() ==> (#[trigger] chains[i]).id != (#[trigger] chains[j]).id
}

/// Ids of colliders are distinct and already given out, and no bone has two.
pub open spec fn colliders_ok(cs: Seq<BoneCollider>, next: u32) -> bool {
    &&& forall|i: int| 0 <= i < cs.len() ==> (#[trigger] cs[i]).id < next
    &&& forall|i: int, j: int|
        0 <= i < j < cs.len() ==> (#[trigger] cs[i]).id != (#[trigger] cs[j]).id && cs[i].bone
            != cs[j].bone
}

/// What holds of every rig document, seen as a value.
pub open spec fn rig_ok(r: RigView) -> bool {
    &&& forest(r.bones)
    &&& r.selection matches Some(a) ==> r.selected.contains(a)
    &&& ik_ok(r.ik_chains, r.next_ik_serial)
    &&& soft_ok(r.soft_chains, r.next_soft_serial)
    &&& colliders_ok(r.colliders, r.next_collider_serial)
}

impl RigDocument {
    /// What holds of every rig document.
    pub open spec fn wf(self) -> bool {
        &&& rig_ok(self@)
        &&& index_ok(self@.bones, self.bone_index@)
        &&& self.selected@.no_duplicates()
    }

    /// The bone with id `id`.
    pub fn bone(&self, id: BoneId) -> (r: Option<&BoneInfo>)
        requires
            self.wf(),
        ensures
            match r {
                Some(b) => has_bone(self@.bones, id) && b@ == self@.bones[bone_pos(
                    self@.bones,
                    id,
                )] && b@.id == id,
                None => !has_bone(self@.bones, id),
            },
    {
        broadcast use vstd::std_specs::hash::group_hash_axioms;

        match self.bone_index.get(&id.node.key()) {
            Some(i) => {
                assert(bone_at(self@.bones, id, *i as int));
                Some(&self.bones[*i])
            },
            None => None,
        }
    }
}

} // verus!
