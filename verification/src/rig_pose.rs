//! Bind pose, modes and the life of a document: capturing and restoring poses,
//! switching modes, starting anew, growing the skeleton, shape keys.

use vstd::prelude::*;
use crate::bones::{bone_at, has_bone, BoneId, BoneView};
use crate::driver::lists_bone;
use crate::forest_edit::{leaf, with_bone};
use crate::geom::{identity_quat, quat_identity, scalar, scalar_of, splat3, vec3_splat, Transform, Vec3, BITS_ONE, BITS_ZERO};
use crate::pose_laws::law_mode_pose;
use crate::rig::{AppMode, BrushKind, MoveMode, RigDocument, RigView, Tool, TransformSpace};
use crate::rig_chains::sim_reset;
use crate::rig_edit::{bone_node, fresh};
use crate::rig_select::{empty_rig, lemma_no_bones, BITS_0_08, BITS_0_65};
use crate::scene::{
    first_mesh_of, has_node, key_handle, lemma_key_handle, lemma_node_pos, node_at, node_get,
    scene_ok, MeshHandle, MeshView, NodeHandle, NodeView, Scene, SceneView,
};
use crate::text::{decimal, decimal_of, join};

verus! {

broadcast use crate::scene::lemma_key_injective;

/// Bit pattern of `0.35`.
pub const BITS_FIRST_BONE: u32 = 0x3EB3_3333;

/// The local transforms of the bones that have a node, by key.
pub open spec fn captured(bs: Seq<BoneView>, nodes: Seq<NodeView>) -> Map<u64, Transform> {
    Map::new(
        |k: u64| has_bone(bs, BoneId { node: key_handle(k) }) && has_node(nodes, key_handle(k)),
        |k: u64| (node_get(nodes, key_handle(k))->0).local,
    )
}

/// `n` with the bind transform of its key, where it is one of `which` and has one.
pub open spec fn restored(n: NodeView, which: Set<BoneId>, binds: Map<u64, Transform>) -> NodeView {
    if which.contains(BoneId { node: n.handle }) && binds.contains_key(n.handle.key_of()) {
        NodeView { local: binds[n.handle.key_of()], ..n }
    } else {
        n
    }
}

/// All nodes, the bones of `which` among them in bind pose.
pub open spec fn reposed(
    nodes: Seq<NodeView>,
    which: Set<BoneId>,
    binds: Map<u64, Transform>,
) -> Seq<NodeView> {
    nodes.map_values(|n: NodeView| restored(n, which, binds))
}

/// The bones of the document as a set.
pub open spec fn all_bones(bs: Seq<BoneView>) -> Set<BoneId> {
    Set::new(|id: BoneId| has_bone(bs, id))
}

/// `r` after its pose was reset.
pub open spec fn pose_reset(r: RigView) -> RigView {
    RigView { soft_chains: sim_reset(r.soft_chains), overlay_dirty: true, ..r }
}

/// `r` without its model. What is shown, the mode, the tool, the drivers and
/// the viewport stay.
pub open spec fn model_cleared(r: RigView) -> RigView {
    RigView {
        show_skeleton: r.show_skeleton,
        show_mesh: r.show_mesh,
        show_colliders: r.show_colliders,
        mode: r.mode,
        tool: r.tool,
        drivers: r.drivers,
        viewport_rect: r.viewport_rect,
        ..empty_rig()
    }
}

/// A scene without nodes, skins and meshes.
pub open spec fn scene_cleared() -> SceneView {
    SceneView { nodes: Seq::empty(), skins: Seq::empty(), meshes: Seq::empty() }
}

/// No translation, no rotation, no scaling.
pub open spec fn no_transform() -> Transform {
    Transform {
        translation: vec3_splat(scalar_of(BITS_ZERO)),
        rotation: quat_identity(),
        scale: vec3_splat(scalar_of(BITS_ONE)),
    }
}

/// The first child of a new skeleton stands a little above its root.
pub open spec fn first_bone_local() -> Transform {
    Transform {
        translation: Vec3 {
            x: scalar_of(BITS_ZERO),
            y: scalar_of(BITS_FIRST_BONE),
            z: scalar_of(BITS_ZERO),
        },
        ..no_transform()
    }
}

/// The skeleton a new document starts with.
pub open spec fn starter_bones(root: BoneId, tip: BoneId) -> Seq<BoneView> {
    with_bone(
        with_bone(Seq::empty(), leaf(root, "Root"@, None, true)),
        leaf(tip, "Bone"@, Some(root), true),
    )
}

pub open spec fn starter_nodes(root: NodeHandle, tip: NodeHandle) -> Seq<NodeView> {
    seq![
        bone_node(root, "Root"@, None, no_transform()),
        bone_node(tip, "Bone"@, Some(BoneId { node: root }), first_bone_local()),
    ]
}

/// Default name of bone number `n`.
pub open spec fn bone_name(n: u32) -> Seq<char> {
    "Bone_"@ + decimal_of(n as nat)
}

/// `r` grown by a bone under the default name, which ends up selected and bound
/// to `local`.
pub open spec fn bone_grown(
    r: RigView,
    id: BoneId,
    parent: Option<BoneId>,
    local: Transform,
) -> RigView {
    RigView {
        bones: with_bone(r.bones, leaf(id, bone_name(r.next_bone_serial), parent, true)),
        next_bone_serial: (r.next_bone_serial + 1) as u32,
        selected: Set::empty().insert(id),
        selection: Some(id),
        overlay_dirty: true,
        bind_locals: r.bind_locals.insert(id.node.key_of(), local),
        ..r
    }
}

/// The tool after switching to a mode with tool `t` in hand.
pub open spec fn tool_in_mode(t: Tool, mode: AppMode) -> Tool {
    match mode {
        AppMode::Edit => if t == Tool::Translate || t == Tool::AddBone || t == Tool::Rotate {
            t
        } else {
            Tool::Translate
        },
        AppMode::Pose => Tool::Rotate,
        AppMode::Shape => Tool::Brush,
    }
}

/// `r` over scene `s` after switching to `mode`.
pub open spec fn mode_set(r: RigView, s: SceneView, mode: AppMode) -> RigView {
    if r.mode == mode {
        r
    } else {
        match mode {
            AppMode::Edit => RigView { mode, tool: tool_in_mode(r.tool, mode), ..pose_reset(r) },
            AppMode::Pose => RigView {
                mode,
                tool: tool_in_mode(r.tool, mode),
                bind_locals: captured(r.bones, s.nodes),
                ..r
            },
            AppMode::Shape => RigView {
                mode,
                tool: tool_in_mode(r.tool, mode),
                active_mesh: if r.active_mesh is None {
                    first_mesh_of(s.nodes)
                } else {
                    r.active_mesh
                },
                ..pose_reset(r)
            },
        }
    }
}

/// The scene after switching to `mode`: Edit and Shape work on the bind pose.
pub open spec fn mode_scene(r: RigView, s: SceneView, mode: AppMode) -> SceneView {
    if r.mode == mode || mode == AppMode::Pose {
        s
    } else {
        SceneView { nodes: reposed(s.nodes, all_bones(r.bones), r.bind_locals), ..s }
    }
}

/// There is a mesh `h`.
pub open spec fn has_mesh(meshes: Seq<MeshView>, h: MeshHandle) -> bool {
    exists|i: int| 0 <= i < meshes.len() && (#[trigger] meshes[i]).handle == h
}

/// The mesh that shape keys are made on.
pub open spec fn shape_mesh(r: RigView, s: SceneView) -> Option<MeshHandle> {
    if r.active_mesh is Some {
        r.active_mesh
    } else {
        first_mesh_of(s.nodes)
    }
}

/// After capturing, whatever the pose became, resetting gives every bone the
/// transform that was captured.
pub proof fn law_reset_restores(bs: Seq<BoneView>, s0: SceneView, s1: SceneView, i: int)
    requires
        scene_ok(s0),
        s0.nodes.len() == s1.nodes.len(),
        forall|j: int|
            0 <= j < s0.nodes.len() ==> (#[trigger] s1.nodes[j]).handle == s0.nodes[j].handle,
        0 <= i < s0.nodes.len(),
        has_bone(bs, BoneId { node: s0.nodes[i].handle }),
    ensures
        reposed(s1.nodes, all_bones(bs), captured(bs, s0.nodes))[i].local == s0.nodes[i].local,
{
    let h = s0.nodes[i].handle;
    assert(s1.nodes[i].handle == h);
    lemma_key_handle(h.key_of(), h);
    assert(node_at(s0.nodes, h, i));
    lemma_node_pos(s0, h, i);
}

/// Resetting twice is resetting once.
pub proof fn law_reset_idempotent(nodes: Seq<NodeView>, which: Set<BoneId>, binds: Map<u64, Transform>)
    ensures
        reposed(reposed(nodes, which, binds), which, binds) == reposed(nodes, which, binds),
{
    assert(reposed(reposed(nodes, which, binds), which, binds) =~= reposed(nodes, which, binds));
}

/// Switching to the mode one is in changes nothing.
pub proof fn law_same_mode(r: RigView, s: SceneView)
    ensures
        mode_set(r, s, r.mode) == r,
        mode_scene(r, s, r.mode) == s,
{
}

/// In every mode one can switch to, the tool is one that belongs there.
pub proof fn law_mode_tool(r: RigView, s: SceneView, mode: AppMode)
    requires
        r.mode != mode,
    ensures
        mode_set(r, s, mode).mode == mode,
        mode == AppMode::Pose ==> mode_set(r, s, mode).tool == Tool::Rotate,
        mode == AppMode::Shape ==> mode_set(r, s, mode).tool == Tool::Brush,
        mode == AppMode::Edit ==> mode_set(r, s, mode).tool == Tool::Translate || mode_set(
            r,
            s,
            mode,
        ).tool == Tool::AddBone || mode_set(r, s, mode).tool == Tool::Rotate,
{
}

impl RigDocument {
    /// Remembers the present pose as bind pose.
    pub fn capture_bind_pose(&mut self, scene: &Scene)
        requires
            old(self).wf(),
            scene.wf(),
        ensures
            final(self).wf(),
            final(self)@ == (RigView {
                bind_locals: captured(old(self)@.bones, scene@.nodes),
                ..old(self)@
            }),
    {
        broadcast use vstd::std_specs::hash::group_hash_axioms;

        self.bind_locals.clear();
        let ghost bs = self@.bones;
        let ghost all = captured(bs, scene@.nodes);
        let mut i: usize = 0;
        while i < self.bones.len()
            invariant
                i <= self.bones@.len(),
                bs == self@.bones,
                scene.wf(),
                all == captured(bs, scene@.nodes),
                self@ == (RigView { bind_locals: self@.bind_locals, ..old(self)@ }),
                self.bone_index == old(self).bone_index,
                self.selected == old(self).selected,
                forall|k: u64| #[trigger]
                    self@.bind_locals.contains_key(k) ==> all.contains_key(k)
                        && self@.bind_locals[k] == all[k],
                forall|j: int|
                    0 <= j < i && all.contains_key((#[trigger] bs[j]).id.node.key_of())
                        ==> self@.bind_locals.contains_key(bs[j].id.node.key_of()),
            decreases self.bones.len() - i,
        {
            let h = self.bones[i].id.node;
            let ghost m = self@.bind_locals;
            proof {
                assert(bs[i as int].id.node == h);
                assert(bone_at(bs, bs[i as int].id, i as int));
                lemma_key_handle(h.key_of(), h);
            }
            match scene.find_node(h) {
                Some(at) => {
                    self.bind_locals.insert(h.key(), scene.nodes[at].local);
                    assert(self@.bind_locals == m.insert(h.key_of(), scene@.nodes[at as int].local));
                },
                None => {},
            }
            i = i + 1;
        }
        assert forall|k: u64| all.contains_key(k) implies #[trigger] self@.bind_locals.contains_key(
            k,
        ) by {
            let id = BoneId { node: key_handle(k) };
            lemma_key_handle(k, id.node);
            let j = crate::bones::bone_pos(bs, id);
            assert(bone_at(bs, id, j));
            assert(bs[j].id.node.key_of() == k);
        }
        assert(self@.bind_locals =~= all);
    }

    /// Gives the nodes of the listed bones their bind transforms.
    fn restore_nodes(&self, scene: &mut Scene, only_selected: bool)
        requires
            self.wf(),
            old(scene).wf(),
        ensures
            final(scene).wf(),
            final(scene)@ == (SceneView {
                nodes: reposed(
                    old(scene)@.nodes,
                    if only_selected {
                        self@.selected
                    } else {
                        all_bones(self@.bones)
                    },
                    self@.bind_locals,
                ),
                ..old(scene)@
            }),
    {
        broadcast use vstd::std_specs::hash::group_hash_axioms;

        let ghost which = if only_selected {
            self@.selected
        } else {
            all_bones(self@.bones)
        };
        let ghost want = reposed(scene@.nodes, which, self@.bind_locals);
        let ghost s0 = scene@;
        let n = scene.nodes.len();
        let mut i: usize = 0;
        while i < n
            invariant
                i <= n,
                n == scene.nodes@.len(),
                n == s0.nodes.len(),
                self.wf(),
                which == (if only_selected {
                    self@.selected
                } else {
                    all_bones(self@.bones)
                }),
                want == reposed(s0.nodes, which, self@.bind_locals),
                scene@ == (SceneView { nodes: scene@.nodes, ..s0 }),
                forall|j: int| 0 <= j < i ==> scene@.nodes[j] == want[j],
                forall|j: int| i <= j < n ==> scene@.nodes[j] == s0.nodes[j],
            decreases n - i,
        {
            let ghost was = scene@.nodes;
            assert(was[i as int] == s0.nodes[i as int]);
            let id = BoneId { node: scene.nodes[i].handle };
            let chosen = if only_selected {
                lists_bone(&self.selected, id)
            } else {
                self.bone(id).is_some()
            };
            if chosen {
                match self.bind_locals.get(&id.node.key()) {
                    Some(t) => {
                        scene.nodes[i].local = *t;
                    },
                    None => {},
                }
            }
            assert(forall|j: int| 0 <= j < n && j != i ==> scene@.nodes[j] == was[j]);
            assert(scene@.nodes[i as int] =~= want[i as int]);
            i = i + 1;
        }
        assert(scene@.nodes =~= want);
        proof {
            assert forall|i: int, j: int| 0 <= i < j < want.len() implies (
            #[trigger] want[i]).handle.index != (#[trigger] want[j]).handle.index by {
                assert(want[i].handle == s0.nodes[i].handle);
                assert(want[j].handle == s0.nodes[j].handle);
            }
            assert(scene@.meshes == s0.meshes);
        }
    }

    /// Puts every bone back into bind pose and restarts the soft chains.
    pub fn reset_pose(&mut self, scene: &mut Scene)
        requires
            old(self).wf(),
            old(scene).wf(),
        ensures
            final(self).wf(),
            final(scene).wf(),
            final(self)@ == pose_reset(old(self)@),
            final(scene)@ == (SceneView {
                nodes: reposed(
                    old(scene)@.nodes,
                    all_bones(old(self)@.bones),
                    old(self)@.bind_locals,
                ),
                ..old(scene)@
            }),
    {
        self.restore_nodes(scene, false);
        self.reset_soft_sim();
        self.invalidate_weight_overlay();
    }

    /// Puts the selected bones back into bind pose.
    pub fn reset_selected(&mut self, scene: &mut Scene)
        requires
            old(self).wf(),
            old(scene).wf(),
        ensures
            final(self).wf(),
            final(scene).wf(),
            final(self)@ == (RigView { overlay_dirty: true, ..old(self)@ }),
            final(scene)@ == (SceneView {
                nodes: reposed(
                    old(scene)@.nodes,
                    old(self)@.selected,
                    old(self)@.bind_locals,
                ),
                ..old(scene)@
            }),
    {
        self.restore_nodes(scene, true);
        self.invalidate_weight_overlay();
    }

    /// Switches the mode: Edit and Shape start from the bind pose, Pose takes
    /// the present pose as bind pose.
    pub fn set_mode(&mut self, scene: &mut Scene, mode: AppMode)
        requires
            old(self).wf(),
            old(scene).wf(),
        ensures
            final(self).wf(),
            final(scene).wf(),
            final(self)@ == mode_set(old(self)@, old(scene)@, mode),
            final(scene)@ == mode_scene(old(self)@, old(scene)@, mode),
            old(self)@.mode != mode && mode != AppMode::Pose ==> forall|i: int|
                0 <= i < old(scene)@.nodes.len() && has_bone(
                    old(self)@.bones,
                    BoneId { node: old(scene)@.nodes[i].handle },
                ) && old(self)@.bind_locals.contains_key(old(scene)@.nodes[i].handle.key_of())
                    ==> (#[trigger] final(scene)@.nodes[i]).local == old(self)@.bind_locals[old(
                    scene,
                )@.nodes[i].handle.key_of()],
    {
        let ghost r0 = self@;
        let ghost s0 = scene@;
        if self.mode == mode {
            return;
        }
        match mode {
            AppMode::Edit => {
                self.reset_pose(scene);
                if !(self.tool == Tool::Translate || self.tool == Tool::AddBone || self.tool
                    == Tool::Rotate) {
                    self.tool = Tool::Translate;
                }
            },
            AppMode::Pose => {
                self.capture_bind_pose(scene);
                self.tool = Tool::Rotate;
            },
            AppMode::Shape => {
                self.reset_pose(scene);
                self.tool = Tool::Brush;
                if self.active_mesh.is_none() {
                    self.active_mesh = scene.first_mesh();
                    proof {
                        lemma_same_meshes(s0.nodes, scene@.nodes);
                    }
                }
            },
        }
        self.mode = mode;
        proof {
            assert forall|i: int|
                mode != AppMode::Pose && 0 <= i < s0.nodes.len() && has_bone(
                    r0.bones,
                    BoneId { node: s0.nodes[i].handle },
                ) && r0.bind_locals.contains_key(s0.nodes[i].handle.key_of()) implies (
            #[trigger] mode_scene(r0, s0, mode).nodes[i]).local == r0.bind_locals[s0.nodes[i].handle.key_of()] by {
                law_mode_pose(r0, s0, mode, i);
            }
        }
    }

    /// Forgets the model and empties the scene.
    pub fn clear_model(&mut self, scene: &mut Scene)
        requires
            old(self).wf(),
        ensures
            final(self).wf(),
            final(scene).wf(),
            final(self)@ == model_cleared(old(self)@),
            final(scene)@ == scene_cleared(),
    {
        broadcast use vstd::std_specs::hash::group_hash_axioms;

        scene.nodes.clear();
        scene.skins.clear();
        scene.meshes.clear();
        assert(scene@ =~= scene_cleared());
        self.source_path = None;
        self.model_root = None;
        self.bones.clear();
        self.bone_index.clear();
        self.selected.clear();
        self.selection = None;
        self.bind_locals.clear();
        self.ik_chains.clear();
        self.soft_chains.clear();
        self.colliders.clear();
        self.active_mesh = None;
        self.active_shape = None;
        self.brush_radius = scalar(BITS_0_08);
        self.brush_strength = scalar(BITS_0_65);
        self.brush_kind = BrushKind::Grab;
        self.next_bone_serial = 1;
        self.next_ik_serial = 1;
        self.next_soft_serial = 1;
        self.next_collider_serial = 1;
        self.next_shape_serial = 1;
        self.weight_overlay.tris.clear();
        self.weight_overlay.dirty = true;
        self.show_weights = false;
        self.move_mode = MoveMode::Fk;
        self.transform_space = TransformSpace::Local;
        proof {
            assert(self@.bones =~= Seq::empty());
            assert(self@.ik_chains =~= Seq::empty());
            assert(self@.soft_chains =~= Seq::empty());
            assert(self@.selected =~= Set::empty());
            assert(self.bone_index@ =~= Map::empty());
            lemma_no_bones(self.bone_index@);
            assert(self@ =~= model_cleared(old(self)@));
        }
    }

    /// Empty scene + root bone (+ tip child so a segment is visible), on the new
    /// nodes `root` and `tip`.
    pub fn new_skeleton(&mut self, scene: &mut Scene, root: NodeHandle, tip: NodeHandle)
        requires
            old(self).wf(),
            root.index != tip.index,
        ensures
            final(self).wf(),
            final(scene).wf(),
            final(scene)@ == (SceneView { nodes: starter_nodes(root, tip), ..scene_cleared() }),
            final(self)@ == (RigView {
                bones: starter_bones(BoneId { node: root }, BoneId { node: tip }),
                selected: Set::empty().insert(BoneId { node: tip }),
                selection: Some(BoneId { node: tip }),
                bind_locals: Map::empty().insert(root.key_of(), no_transform()).insert(
                    tip.key_of(),
                    first_bone_local(),
                ),
                mode: AppMode::Edit,
                tool: Tool::Translate,
                ..model_cleared(old(self)@)
            }),
    {
        self.clear_model(scene);
        let zero = scalar(BITS_ZERO);
        let still = Transform {
            translation: splat3(zero),
            rotation: identity_quat(),
            scale: splat3(scalar(BITS_ONE)),
        };
        let up = Transform {
            translation: Vec3 { x: zero, y: scalar(BITS_FIRST_BONE), z: zero },
            rotation: still.rotation,
            scale: still.scale,
        };
        let root_id = self.insert_bone(scene, root, "Root", None, still, true);
        proof {
            let bs = self@.bones;
            let t = BoneId { node: tip };
            assert(bs.len() == 1 && bs[0].id == root_id && bs[0].parent is None);
            assert(!has_bone(bs, t)) by {
                if has_bone(bs, t) {
                    assert(bone_at(bs, t, crate::bones::bone_pos(bs, t)));
                }
            }
        }
        let tip_id = self.insert_bone(scene, tip, "Bone", Some(root_id), up, true);
        self.set_selection(tip_id);
        self.capture_bind_pose(scene);
        self.mode = AppMode::Edit;
        self.tool = Tool::Translate;
        proof {
            let bs = self@.bones;
            assert(bs == starter_bones(root_id, tip_id));
            assert(scene@.nodes =~= starter_nodes(root, tip));
            let want = Map::<u64, Transform>::empty().insert(root.key_of(), no_transform()).insert(
                tip.key_of(),
                first_bone_local(),
            );
            let got = self@.bind_locals;
            assert(node_at(scene@.nodes, root, 0));
            assert(node_at(scene@.nodes, tip, 1));
            lemma_node_pos(scene@, root, 0);
            lemma_node_pos(scene@, tip, 1);
            assert(bone_at(bs, root_id, 0));
            assert(bone_at(bs, tip_id, 1));
            assert forall|k: u64| got.contains_key(k) <==> want.contains_key(k) by {
                lemma_key_handle(k, root);
                lemma_key_handle(k, tip);
                let id = BoneId { node: key_handle(k) };
                if has_bone(bs, id) {
                    let j = crate::bones::bone_pos(bs, id);
                    assert(bone_at(bs, id, j));
                    assert(j == 0 || j == 1);
                }
            }
            lemma_key_handle(root.key_of(), root);
            lemma_key_handle(tip.key_of(), tip);
            assert(root.key_of() != tip.key_of());
            assert(got =~= want);
        }
    }

    /// Extrude a child from `parent` on the new node `node`.
    pub fn extrude_bone(
        &mut self,
        scene: &mut Scene,
        parent: BoneId,
        node: NodeHandle,
        local: Transform,
    ) -> (r: Option<BoneId>)
        requires
            old(self).wf(),
            old(scene).wf(),
            fresh(old(self)@, old(scene)@, node),
            old(self).next_bone_serial < u32::MAX,
        ensures
            final(self).wf(),
            final(scene).wf(),
            match r {
                Some(id) => {
                    &&& has_bone(old(self)@.bones, parent)
                    &&& id == (BoneId { node })
                    &&& final(self)@ == bone_grown(old(self)@, id, Some(parent), local)
                    &&& final(scene)@ == (SceneView {
                        nodes: old(scene)@.nodes.push(
                            bone_node(
                                node,
                                bone_name(old(self)@.next_bone_serial),
                                Some(parent),
                                local,
                            ),
                        ),
                        ..old(scene)@
                    })
                },
                None => {
                    &&& !has_bone(old(self)@.bones, parent)
                    &&& final(self)@ == old(self)@
                    &&& final(scene)@ == old(scene)@
                },
            },
    {
        if self.bone(parent).is_none() {
            return None;
        }
        Some(self.grow(scene, Some(parent), node, local))
    }

    /// New root (or orphan) on the new node `node`.
    pub fn add_root_at(&mut self, scene: &mut Scene, node: NodeHandle, local: Transform) -> (r: BoneId)
        requires
            old(self).wf(),
            old(scene).wf(),
            fresh(old(self)@, old(scene)@, node),
            old(self).next_bone_serial < u32::MAX,
        ensures
            final(self).wf(),
            final(scene).wf(),
            r == (BoneId { node }),
            final(self)@ == bone_grown(old(self)@, r, None, local),
            final(scene)@ == (SceneView {
                nodes: old(scene)@.nodes.push(
                    bone_node(node, bone_name(old(self)@.next_bone_serial), None, local),
                ),
                ..old(scene)@
            }),
    {
        self.grow(scene, None, node, local)
    }

    /// Adds a bone under the default name, selects it and binds it.
    fn grow(
        &mut self,
        scene: &mut Scene,
        parent: Option<BoneId>,
        node: NodeHandle,
        local: Transform,
    ) -> (r: BoneId)
        requires
            old(self).wf(),
            old(scene).wf(),
            fresh(old(self)@, old(scene)@, node),
            parent != Some(BoneId { node }),
            old(self).next_bone_serial < u32::MAX,
        ensures
            final(self).wf(),
            final(scene).wf(),
            r == (BoneId { node }),
            final(self)@ == bone_grown(old(self)@, r, parent, local),
            final(scene)@ == (SceneView {
                nodes: old(scene)@.nodes.push(
                    bone_node(node, bone_name(old(self)@.next_bone_serial), parent, local),
                ),
                ..old(scene)@
            }),
    {
        let ghost m = scene@.nodes.len() as int;
        let name = join("Bone_", &decimal(self.next_bone_serial as u64));
        self.next_bone_serial = self.next_bone_serial + 1;
        let id = self.insert_bone(scene, node, &name, parent, local, true);
        self.set_selection(id);
        proof {
            assert(node_at(scene@.nodes, node, m));
            lemma_node_pos(scene@, node, m);
        }
        self.write_bind_for(scene, id);
        id
    }

    /// Readies a new shape key: the mesh it goes on and its name.
    pub fn create_shape_key(&mut self, scene: &Scene) -> (r: Option<(MeshHandle, String)>)
        requires
            old(self).wf(),
            scene.wf(),
            old(self).next_shape_serial < u32::MAX,
        ensures
            final(self).wf(),
            match r {
                Some((mesh, name)) => {
                    &&& shape_mesh(old(self)@, scene@) == Some(mesh)
                    &&& has_mesh(scene@.meshes, mesh)
                    &&& name@ == "Key_"@ + decimal_of(old(self)@.next_shape_serial as nat)
                    &&& final(self)@ == (RigView {
                        active_mesh: Some(mesh),
                        next_shape_serial: (old(self)@.next_shape_serial + 1) as u32,
                        ..old(self)@
                    })
                },
                None => {
                    &&& shape_mesh(old(self)@, scene@) matches Some(mesh) ==> !has_mesh(
                        scene@.meshes,
                        mesh,
                    )
                    &&& final(self)@ == (RigView {
                        active_mesh: shape_mesh(old(self)@, scene@),
                        ..old(self)@
                    })
                },
            },
    {
        if self.active_mesh.is_none() {
            self.active_mesh = scene.first_mesh();
        }
        let mesh = match self.active_mesh {
            Some(m) => m,
            None => {
                return None;
            },
        };
        if !scene.holds_mesh(mesh) {
            return None;
        }
        let name = join("Key_", &decimal(self.next_shape_serial as u64));
        self.next_shape_serial = self.next_shape_serial + 1;
        Some((mesh, name))
    }

    /// Shape key `index` was added: it becomes active.
    pub fn shape_key_created(&mut self, index: usize)
        requires
            old(self).wf(),
        ensures
            final(self).wf(),
            final(self)@ == (RigView { active_shape: Some(index), ..old(self)@ }),
    {
        self.active_shape = Some(index);
    }

    /// The shape key that deleting the active one removes.
    pub fn delete_active_shape(&self, scene: &Scene) -> (r: Option<(MeshHandle, usize)>)
        requires
            scene.wf(),
        ensures
            r == (match (self@.active_mesh, self@.active_shape) {
                (Some(mesh), Some(index)) => if has_mesh(scene@.meshes, mesh) {
                    Some((mesh, index))
                } else {
                    None
                },
                _ => None,
            }),
    {
        match (self.active_mesh, self.active_shape) {
            (Some(mesh), Some(index)) => if scene.holds_mesh(mesh) {
                Some((mesh, index))
            } else {
                None
            },
            _ => None,
        }
    }

    /// Shape key `index` was removed and `left` are left: the one in its place
    /// becomes active, or the last.
    pub fn active_shape_deleted(&mut self, index: usize, left: usize)
        requires
            old(self).wf(),
        ensures
            final(self).wf(),
            final(self)@ == (RigView {
                active_shape: if left == 0 {
                    None
                } else if index < left {
                    Some(index)
                } else {
                    Some((left - 1) as usize)
                },
                ..old(self)@
            }),
    {
        self.active_shape = if left == 0 {
            None
        } else if index < left {
            Some(index)
        } else {
            Some(left - 1)
        };
    }

    /// Bones without parent, in order.
    pub fn roots(&self) -> (r: Vec<BoneId>)
        ensures
            r@ == self@.bones.filter(|b: BoneView| b.parent is None).map_values(|b: BoneView| b.id),
    {
        let ghost all = self@.bones;
        let ghost p = |b: BoneView| b.parent is None;
        let ghost q = |b: BoneView| b.id;
        let mut out: Vec<BoneId> = Vec::new();
        let mut i: usize = 0;
        proof {
            crate::lists::lemma_filter_ends(all, p);
        }
        assert(out@ =~= Seq::<BoneView>::empty().map_values(q));
        while i < self.bones.len()
            invariant
                i <= self.bones@.len(),
                all == self@.bones,
                p == (|b: BoneView| b.parent is None),
                q == (|b: BoneView| b.id),
                out@ == all.take(i as int).filter(p).map_values(q),
            decreases self.bones.len() - i,
        {
            let b = &self.bones[i];
            assert(b@ == all[i as int]);
            proof {
                crate::lists::lemma_filter_step(all, p, i as int);
            }
            if b.parent.is_none() {
                out.push(b.id);
                assert(all.take(i as int).filter(p).push(b@).map_values(q) =~= all.take(
                    i as int,
                ).filter(p).map_values(q).push(b.id));
            }
            i = i + 1;
        }
        out
    }

    /// Shows or hides every node that carries a mesh.
    pub fn apply_mesh_visibility(&self, scene: &mut Scene)
        requires
            old(scene).wf(),
        ensures
            final(scene).wf(),
            final(scene)@ == (SceneView {
                nodes: old(scene)@.nodes.map_values(
                    |n: NodeView| shown_as(n, self@.show_mesh),
                ),
                ..old(scene)@
            }),
    {
        let ghost s0 = scene@;
        let ghost want = s0.nodes.map_values(|n: NodeView| shown_as(n, self@.show_mesh));
        let n = scene.nodes.len();
        let mut i: usize = 0;
        while i < n
            invariant
                i <= n,
                n == scene.nodes@.len(),
                n == s0.nodes.len(),
                want == s0.nodes.map_values(|n: NodeView| shown_as(n, self@.show_mesh)),
                scene@ == (SceneView { nodes: scene@.nodes, ..s0 }),
                forall|j: int| 0 <= j < i ==> scene@.nodes[j] == want[j],
                forall|j: int| i <= j < n ==> scene@.nodes[j] == s0.nodes[j],
            decreases n - i,
        {
            let ghost was = scene@.nodes;
            assert(was[i as int] == s0.nodes[i as int]);
            if scene.nodes[i].mesh.is_some() {
                scene.nodes[i].visible = self.show_mesh;
            }
            assert(forall|j: int| 0 <= j < n && j != i ==> scene@.nodes[j] == was[j]);
            assert(scene@.nodes[i as int] =~= want[i as int]);
            i = i + 1;
        }
        assert(scene@.nodes =~= want);
        proof {
            assert forall|i: int, j: int| 0 <= i < j < want.len() implies (
            #[trigger] want[i]).handle.index != (#[trigger] want[j]).handle.index by {
                assert(want[i].handle == s0.nodes[i].handle);
                assert(want[j].handle == s0.nodes[j].handle);
            }
            assert(scene@.meshes == s0.meshes);
        }
    }
}

/// A node that carries a mesh, shown or not.
pub open spec fn shown_as(n: NodeView, visible: bool) -> NodeView {
    if n.mesh is Some {
        NodeView { visible, ..n }
    } else {
        n
    }
}

impl Scene {
    /// Whether there is a mesh `h`.
    pub fn holds_mesh(&self, h: MeshHandle) -> (r: bool)
        ensures
            r == has_mesh(self@.meshes, h),
    {
        let mut i: usize = 0;
        while i < self.meshes.len()
            invariant
                i <= self.meshes@.len(),
                forall|j: int| 0 <= j < i ==> (#[trigger] self@.meshes[j]).handle != h,
            decreases self.meshes.len() - i,
        {
            assert(self@.meshes[i as int].handle == self.meshes@[i as int].handle);
            if self.meshes[i].handle == h {
                return true;
            }
            i = i + 1;
        }
        false
    }
}

/// Moving nodes does not change which mesh comes first.
proof fn lemma_same_meshes(a: Seq<NodeView>, b: Seq<NodeView>)
    requires
        a.len() == b.len(),
        forall|i: int| 0 <= i < a.len() ==> (#[trigger] a[i]).mesh == b[i].mesh,
    ensures
        first_mesh_of(a) == first_mesh_of(b),
    decreases a.len(),
{
    if a.len() > 0 {
        let s = a.skip(1);
        let t = b.skip(1);
        assert forall|i: int| 0 <= i < s.len() implies (#[trigger] s[i]).mesh == t[i].mesh by {
            assert(a[i + 1].mesh == b[i + 1].mesh);
        }
        lemma_same_meshes(s, t);
        assert(a[0].mesh == b[0].mesh);
    }
}

} // verus!
