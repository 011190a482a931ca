use model_rig::bones::BoneId;
use model_rig::geom::{identity_quat, splat3, Scalar, Transform, Vec3};
use model_rig::rig::{AppMode, IkControlKind, RigDocument, Tool};
use model_rig::rig_chains::{CapsuleGeometry, IkGeometry, SoftGeometry};
use model_rig::scene::{Mesh, MeshHandle, Node, NodeHandle, Scene, Skin, SkinHandle};
use model_rig::skeleton::{JointLook, Stick};

fn f(x: f32) -> Scalar {
    Scalar { bits: x.to_bits() }
}

fn v3(x: f32, y: f32, z: f32) -> Vec3 {
    Vec3 { x: f(x), y: f(y), z: f(z) }
}

fn moved(y: f32) -> Transform {
    Transform { translation: v3(0.0, y, 0.0), rotation: identity_quat(), scale: splat3(f(1.0)) }
}

fn h(i: u32) -> NodeHandle {
    NodeHandle { index: i, generation: 0 }
}

fn b(i: u32) -> BoneId {
    BoneId { node: h(i) }
}

fn empty() -> Scene {
    Scene { nodes: Vec::new(), skins: Vec::new(), meshes: Vec::new() }
}

fn node(i: u32, name: &str, parent: Option<u32>) -> Node {
    Node {
        handle: h(i),
        name: name.to_string(),
        parent: parent.map(h),
        local: moved(i as f32),
        mesh: None,
        skin: None,
        visible: true,
    }
}

/// A root with a spine of `n` bones above it, and a second child of the root.
fn spine(n: u32) -> (RigDocument, Scene) {
    let mut rig = RigDocument::default();
    let mut scene = empty();
    rig.insert_bone(&mut scene, h(0), "Root", None, moved(0.0), true);
    for i in 1..=n {
        let name = format!("Spine_{}", i);
        rig.insert_bone(&mut scene, h(i), &name, Some(b(i - 1)), moved(i as f32), true);
    }
    rig.insert_bone(&mut scene, h(100), "Side", Some(b(0)), moved(0.5), true);
    rig.capture_bind_pose(&scene);
    (rig, scene)
}

fn ik_geometry(n: usize) -> IkGeometry {
    IkGeometry {
        lengths: vec![f(1.0); n],
        target_pos: v3(0.0, 3.0, 0.0),
        target_rot: identity_quat(),
        pole_pos: v3(1.0, 1.0, 0.0),
    }
}

fn soft_geometry(n: usize) -> SoftGeometry {
    SoftGeometry {
        lengths: vec![f(1.0); n],
        tip_length: f(0.65),
        support_normal_local: v3(0.0, 1.0, 0.0),
    }
}

fn capsule() -> CapsuleGeometry {
    CapsuleGeometry { a_local: v3(0.0, 0.0, 0.0), b_local: v3(0.0, 1.0, 0.0), radius: f(0.35) }
}

#[test]
fn bones_form_a_tree() {
    let (rig, scene) = spine(3);
    assert_eq!(rig.bones.len(), 5);
    assert_eq!(scene.nodes.len(), 5);
    assert_eq!(rig.bone(b(0)).unwrap().children, vec![b(1), b(100)]);
    assert_eq!(rig.bone(b(2)).unwrap().parent, Some(b(1)));
    assert!(rig.bone(b(50)).is_none());
    assert_eq!(rig.roots(), vec![b(0)]);
    assert_eq!(rig.chain_depth(b(0)), 4);
    assert_eq!(rig.deepest_descendant(b(0)), b(3));
}

#[test]
fn new_skeleton_has_two_bones() {
    let mut rig = RigDocument::default();
    let mut scene = empty();
    rig.new_skeleton(&mut scene, h(4), h(5));
    assert_eq!(rig.bones.len(), 2);
    assert_eq!(rig.bones[0].name, "Root");
    assert_eq!(rig.bones[1].name, "Bone");
    assert_eq!(rig.selection, Some(b(5)));
    assert!(rig.mode == AppMode::Edit);
    assert!(rig.tool == Tool::Translate);
    assert_eq!(scene.nodes[1].local.translation, v3(0.0, 0.35, 0.0));
}

#[test]
fn extruded_bones_are_numbered_and_selected() {
    let (mut rig, mut scene) = spine(1);
    let first = rig.next_bone_serial;
    let id = rig.extrude_bone(&mut scene, b(1), h(7), moved(0.2)).unwrap();
    assert_eq!(id, b(7));
    assert_eq!(rig.bone(id).unwrap().name, format!("Bone_{}", first));
    assert_eq!(rig.next_bone_serial, first + 1);
    assert_eq!(rig.selection, Some(id));
    assert_eq!(rig.bind_locals.get(&h(7).key()).copied(), Some(moved(0.2)));
    assert!(rig.extrude_bone(&mut scene, b(77), h(8), moved(0.2)).is_none());
    let root = rig.add_root_at(&mut scene, h(9), moved(4.0));
    assert_eq!(rig.bone(root).unwrap().parent, None);
}

#[test]
fn selection_keeps_an_active_bone() {
    let (mut rig, _) = spine(3);
    rig.set_selection(b(1));
    rig.toggle_selection(b(2));
    assert_eq!(rig.selection, Some(b(2)));
    assert!(rig.is_selected(b(1)));
    rig.toggle_selection(b(2));
    assert!(!rig.is_selected(b(2)));
    assert_eq!(rig.selection, Some(b(1)));
    rig.select_bones(&vec![b(3), b(2)], true);
    assert_eq!(rig.selected_bones().len(), 3);
    assert_eq!(rig.selected_bones()[0], rig.selection.unwrap());
    rig.select_bones(&vec![b(3)], false);
    assert_eq!(rig.selected_bones(), vec![b(3)]);
    rig.clear_selection();
    assert!(rig.selection.is_none());
    assert!(rig.selected_bones().is_empty());
}

#[test]
fn selection_roots_have_no_selected_parent() {
    let (mut rig, _) = spine(3);
    rig.select_bones(&vec![b(1), b(2), b(100)], false);
    let active = rig.selection.unwrap();
    let roots = rig.selection_roots();
    assert_eq!(roots.len(), 2);
    assert!(roots.contains(&b(1)));
    assert!(roots.contains(&b(100)));
    if roots.contains(&active) {
        assert_eq!(roots[0], active);
    }
    rig.select_bones(&vec![b(1), b(3)], false);
    assert_eq!(rig.selection_roots().len(), 2);
}

#[test]
fn deleting_a_branch_leaves_no_trace() {
    let (mut rig, mut scene) = spine(3);
    rig.set_selection(b(2));
    rig.create_capsule_collider(b(3), capsule()).unwrap();
    rig.create_ik_from_tip(&mut scene, b(3), 2, h(20), h(21), ik_geometry(2)).unwrap();
    rig.delete_bone_subtree(&mut scene, b(2));
    assert!(rig.bone(b(2)).is_none());
    assert!(rig.bone(b(3)).is_none());
    assert!(rig.bone(b(20)).is_none());
    assert!(rig.bone(b(21)).is_none());
    assert!(rig.bone(b(1)).unwrap().children.is_empty());
    assert!(rig.colliders.is_empty());
    assert!(rig.ik_chains.is_empty());
    assert!(rig.bind_locals.get(&h(3).key()).is_none());
    assert_eq!(scene.nodes.len(), 3);
    assert_eq!(rig.bones.len(), 3);
    rig.delete_bone_subtree(&mut scene, b(2));
    assert_eq!(rig.bones.len(), 3);
}

#[test]
fn a_branch_runs_through_all_descendants() {
    let (rig, _) = spine(3);
    let all = rig.branch(b(1));
    assert_eq!(all.len(), 3);
    assert!(all.contains(&b(1)) && all.contains(&b(2)) && all.contains(&b(3)));
}

#[test]
fn ik_chains_bring_two_controls() {
    let (mut rig, mut scene) = spine(3);
    let id = rig.create_ik_from_tip(&mut scene, b(3), 2, h(20), h(21), ik_geometry(2)).unwrap();
    let c = rig.ik_chain_for_tip(b(3)).unwrap();
    assert_eq!(c.id, id);
    assert_eq!(c.name, "IK_Spine_3\u{d7}2");
    assert_eq!(c.bones, vec![b(1), b(2)]);
    assert!(c.enabled);
    assert!(rig.ik_control_kind(b(20)) == Some(IkControlKind::Target));
    assert!(rig.ik_control_kind(b(21)) == Some(IkControlKind::Pole));
    assert!(rig.ik_control_kind(b(3)).is_none());
    assert_eq!(rig.bone(b(20)).unwrap().name, "Spine_3.IK");
    assert_eq!(rig.bone(b(21)).unwrap().name, "Spine_3.Pole");
    assert_eq!(rig.selection, Some(b(20)));
    rig.set_ik_enabled(id, false);
    assert!(!rig.ik_chains[0].enabled);
    rig.remove_ik_chain(&mut scene, id);
    assert!(rig.ik_chains.is_empty());
    assert!(rig.bone(b(20)).is_none());
    assert!(rig.bone(b(21)).is_none());
    assert_eq!(rig.bones.len(), 5);
}

#[test]
fn ik_chains_are_refused() {
    let (mut rig, mut scene) = spine(3);
    assert_eq!(
        rig.create_ik_from_tip(&mut scene, b(0), 1, h(20), h(21), ik_geometry(1)).err(),
        Some("Tip needs at least one parent bone")
    );
    assert_eq!(
        rig.create_ik_from_tip(&mut scene, b(2), 5, h(20), h(21), ik_geometry(5)).err(),
        Some("Not enough ancestors for this chain length")
    );
    rig.create_ik_from_tip(&mut scene, b(3), 1, h(20), h(21), ik_geometry(1)).unwrap();
    assert_eq!(
        rig.create_ik_from_tip(&mut scene, b(3), 1, h(30), h(31), ik_geometry(1)).err(),
        Some("IK already exists on this tip")
    );
    assert_eq!(
        rig.create_ik_from_tip(&mut scene, b(20), 1, h(30), h(31), ik_geometry(1)).err(),
        Some("Cannot create IK on a control bone")
    );
}

#[test]
fn soft_chains_hang_from_a_branching_bone() {
    let (mut rig, mut scene) = spine(3);
    let (anchor, bones) = rig.collect_linear_soft_chain(b(2)).unwrap();
    assert_eq!(anchor, b(0));
    assert_eq!(bones, vec![b(1), b(2), b(3)]);
    let id = rig.create_soft_from_bone(b(2), soft_geometry(3)).unwrap();
    let c = rig.soft_chain_containing(b(3)).unwrap();
    assert_eq!(c.id, id);
    assert_eq!(c.name, "Soft_Spine_1\u{d7}3");
    assert_eq!(c.gravity, f(9.8));
    assert_eq!(c.stiffness, f(45.0));
    assert_eq!(c.damping, f(2.5));
    assert_eq!(c.max_angle, f(95f32.to_radians()));
    assert!(!c.initialized);
    assert_eq!(
        rig.create_soft_from_bone(b(3), soft_geometry(3)).err(),
        Some("Bone already in a Soft chain")
    );
    rig.set_soft_enabled(id, false);
    assert!(!rig.soft_chains[0].enabled);
    rig.remove_soft_chain(id);
    assert!(rig.soft_chains.is_empty());
    rig.create_ik_from_tip(&mut scene, b(3), 1, h(20), h(21), ik_geometry(1)).unwrap();
    assert_eq!(
        rig.create_soft_from_bone(b(20), soft_geometry(2)).err(),
        Some("Cannot create Soft on an IK control bone")
    );
}

#[test]
fn soft_chains_are_refused() {
    let (mut rig, mut scene) = spine(1);
    assert_eq!(rig.create_soft_from_bone(b(9), soft_geometry(2)).err(), Some("Invalid bone"));
    assert_eq!(
        rig.create_soft_from_bone(b(100), soft_geometry(2)).err(),
        Some("Need at least 2 bones (root + tip). Extrude a child first")
    );
    assert_eq!(
        rig.create_soft_from_bone(b(0), soft_geometry(2)).err(),
        Some("Soft chain needs a parent anchor")
    );
    for i in 2..40 {
        rig.insert_bone(&mut scene, h(i), "S", Some(b(i - 1)), moved(1.0), true);
    }
    assert_eq!(
        rig.create_soft_from_bone(b(1), soft_geometry(2)).err(),
        Some("Soft chain too long")
    );
}

#[test]
fn a_bone_has_one_collider() {
    let (mut rig, _) = spine(1);
    let id = rig.create_capsule_collider(b(1), capsule()).unwrap();
    assert_eq!(rig.collider_on_bone(b(1)).unwrap().id, id);
    assert_eq!(rig.colliders[0].softness, f(0.35));
    assert_eq!(
        rig.create_capsule_collider(b(1), capsule()).err(),
        Some("Bone already has a collider")
    );
    assert_eq!(rig.create_capsule_collider(b(9), capsule()).err(), Some("Unknown bone"));
    assert_eq!(rig.first_child(b(0)), Some(b(1)));
    rig.remove_collider(id);
    assert!(rig.collider_on_bone(b(1)).is_none());
}

#[test]
fn a_reset_restores_the_bind_pose() {
    let (mut rig, mut scene) = spine(2);
    scene.set_local(h(1), moved(9.0));
    scene.set_local(h(2), moved(9.0));
    rig.set_selection(b(2));
    rig.reset_selected(&mut scene);
    assert_eq!(scene.nodes[1].local, moved(9.0));
    assert_eq!(scene.nodes[2].local, moved(2.0));
    rig.reset_pose(&mut scene);
    assert_eq!(scene.nodes[1].local, moved(1.0));
}

#[test]
fn modes_bring_their_tools() {
    let (mut rig, mut scene) = spine(2);
    rig.set_mode(&mut scene, AppMode::Edit);
    rig.set_mode(&mut scene, AppMode::Pose);
    assert!(rig.tool == Tool::Rotate);
    scene.set_local(h(1), moved(9.0));
    rig.set_mode(&mut scene, AppMode::Edit);
    assert_eq!(scene.nodes[1].local, moved(1.0));
    assert!(rig.tool == Tool::Rotate);
    rig.set_mode(&mut scene, AppMode::Shape);
    assert!(rig.tool == Tool::Brush);
    rig.set_mode(&mut scene, AppMode::Edit);
    assert!(rig.tool == Tool::Translate);
}

#[test]
fn bones_are_read_from_skins() {
    let mut scene = empty();
    scene.nodes.push(node(0, "Armature", None));
    scene.nodes.push(node(1, "Hip", Some(0)));
    scene.nodes.push(node(2, "Helper", Some(1)));
    scene.nodes.push(node(3, "", Some(2)));
    scene.skins.push(Skin {
        handle: SkinHandle { index: 0, generation: 0 },
        joints: vec![h(3), h(1)],
    });
    assert!(scene.is_acyclic());
    let mut rig = RigDocument::default();
    rig.rebuild_bones(&scene);
    assert_eq!(rig.bones.len(), 2);
    assert_eq!(rig.bones[0].name, "Hip");
    assert_eq!(rig.bones[0].parent, None);
    assert_eq!(rig.bones[1].name, "Bone_3");
    assert_eq!(rig.bones[1].parent, Some(b(1)));
    assert_eq!(rig.bones[0].children, vec![b(3)]);
    assert!(rig.bones[1].deform);
}

#[test]
fn without_skins_every_node_is_a_bone() {
    let mut scene = empty();
    scene.nodes.push(node(0, "A", None));
    scene.nodes.push(node(1, "B", Some(0)));
    let mut rig = RigDocument::default();
    rig.rebuild_bones(&scene);
    assert_eq!(rig.bones.len(), 2);
    assert!(!rig.bones[0].deform);
    assert_eq!(rig.bones[1].parent, Some(b(0)));
}

#[test]
fn joints_are_relinked_to_their_bone_parents() {
    let mut scene = empty();
    scene.nodes.push(node(1, "Hip", None));
    scene.nodes.push(node(2, "Helper", Some(1)));
    scene.nodes.push(node(3, "Knee", Some(2)));
    scene.skins.push(Skin {
        handle: SkinHandle { index: 0, generation: 0 },
        joints: vec![h(1), h(3)],
    });
    let mut rig = RigDocument::default();
    rig.rebuild_bones(&scene);
    let steps = rig.relink_steps(&scene);
    assert_eq!(steps.len(), 1);
    assert_eq!(rig.bones[steps[0]].id, b(3));
    rig.relink_joint_parents(&mut scene, &steps, &vec![moved(5.0)]);
    assert_eq!(scene.nodes[2].parent, Some(h(1)));
    assert_eq!(scene.nodes[2].local, moved(5.0));
}

#[test]
fn shape_keys_are_numbered() {
    let mesh = MeshHandle { index: 0, generation: 0 };
    let mut scene = empty();
    let mut n = node(0, "Body", None);
    n.mesh = Some(mesh);
    scene.nodes.push(n);
    scene.meshes.push(Mesh { handle: mesh, morph_targets: Vec::new(), morph_weights: Vec::new() });
    let mut rig = RigDocument::default();
    let first = rig.next_shape_serial;
    let (m, name) = rig.create_shape_key(&scene).unwrap();
    assert_eq!(m, mesh);
    assert_eq!(name, format!("Key_{}", first));
    assert_eq!(rig.active_mesh, Some(mesh));
    rig.shape_key_created(0);
    assert_eq!(rig.active_shape, Some(0));
    assert_eq!(rig.delete_active_shape(&scene), Some((mesh, 0)));
    rig.active_shape_deleted(0, 0);
    assert_eq!(rig.active_shape, None);
    rig.active_shape = Some(4);
    rig.active_shape_deleted(4, 4);
    assert_eq!(rig.active_shape, Some(3));
    assert!(RigDocument::default().create_shape_key(&empty()).is_none());
}

#[test]
fn hidden_meshes_are_hidden_in_the_scene() {
    let mesh = MeshHandle { index: 0, generation: 0 };
    let mut scene = empty();
    let mut n = node(0, "Body", None);
    n.mesh = Some(mesh);
    scene.nodes.push(n);
    scene.nodes.push(node(1, "Bone", None));
    let mut rig = RigDocument::default();
    rig.show_mesh = false;
    rig.apply_mesh_visibility(&mut scene);
    assert!(!scene.nodes[0].visible);
    assert!(scene.nodes[1].visible);
}

#[test]
fn pulls_walk_up_a_chain() {
    let (rig, scene) = spine(4);
    assert_eq!(rig.build_chain(b(4), 3), vec![b(2), b(3), b(4)]);
    let start = rig.begin_pull(&scene, b(4), 3).unwrap();
    assert_eq!(start.chain.len(), 3);
    assert_eq!(start.start_locals.len(), 3);
    assert!(rig.begin_pull(&scene, b(0), 3).is_none());
}

#[test]
fn disabled_ik_chains_give_no_job() {
    let (mut rig, mut scene) = spine(3);
    let id = rig.create_ik_from_tip(&mut scene, b(3), 2, h(20), h(21), ik_geometry(2)).unwrap();
    let jobs = rig.evaluate_ik_chains();
    assert_eq!(jobs.len(), 1);
    assert_eq!(jobs[0].chain, 0);
    rig.set_ik_enabled(id, false);
    assert!(rig.evaluate_ik_chains().is_empty());
}

#[test]
fn the_skeleton_is_drawn_without_controls() {
    let (mut rig, mut scene) = spine(2);
    rig.create_ik_from_tip(&mut scene, b(2), 1, h(20), h(21), ik_geometry(1)).unwrap();
    rig.set_selection(b(1));
    let s = rig.draw_rig_debug().unwrap();
    assert_eq!(
        s.sticks,
        vec![
            Stick { bone: b(0), tip: Some(b(1)), selected: false },
            Stick { bone: b(0), tip: Some(b(100)), selected: false },
            Stick { bone: b(1), tip: Some(b(2)), selected: true },
            Stick { bone: b(2), tip: None, selected: false },
            Stick { bone: b(100), tip: None, selected: false },
        ]
    );
    assert_eq!(s.joints.len(), 6);
    assert_eq!(s.joints[1].look, JointLook::Selected);
    assert_eq!(s.joints[4].look, JointLook::Target);
    assert_eq!(s.joints[5].look, JointLook::Pole);
    rig.toggle_selection(b(20));
    assert_eq!(rig.joint_look(b(20)), JointLook::SelectedControl);
    rig.show_skeleton = false;
    assert!(rig.draw_rig_debug().is_none());
}

#[test]
fn bones_by_name_and_pattern() {
    let (rig, _) = spine(2);
    assert_eq!(rig.bone_by_name("Spine_2"), Some(b(2)));
    assert_eq!(rig.bone_by_name("Nobody"), None);
    assert!(rig.require_bone("Nobody").is_err());
    assert_eq!(rig.bones_matching("Spine*"), vec!["Spine_1".to_string(), "Spine_2".to_string()]);
}

#[test]
fn a_root_anchors_the_chain_below_it() {
    let mut rig = RigDocument::default();
    let mut scene = empty();
    rig.new_skeleton(&mut scene, h(0), h(1));
    let root = rig.roots()[0];
    let mid = rig.selection.unwrap();
    let tip = rig.extrude_bone(&mut scene, mid, h(2), moved(0.2)).unwrap();
    assert_eq!(rig.collect_linear_soft_chain(mid), Ok((root, vec![mid, tip])));
    assert_eq!(rig.collect_linear_soft_chain(tip), Ok((root, vec![mid, tip])));
    assert_eq!(rig.collect_linear_soft_chain(root), Err("Soft chain needs a parent anchor"));
    assert_eq!(rig.create_soft_from_bone(mid, soft_geometry(2)), Ok(1));
}

#[test]
fn chains_are_capped() {
    let (rig, _) = spine(4);
    assert!(rig.build_chain(b(4), 0).is_empty());
    assert_eq!(rig.build_chain(b(4), 1), vec![b(4)]);
    assert_eq!(rig.build_chain(b(1), 9), vec![b(0), b(1)]);
}

#[test]
fn lengths_have_a_floor() {
    let (mut rig, mut scene) = spine(3);
    let mut geo = soft_geometry(3);
    geo.lengths = vec![f(5.0), f(0.0), f(f32::NAN)];
    rig.create_soft_from_bone(b(2), geo).unwrap();
    assert_eq!(rig.soft_chains[0].lengths, vec![f(0.0), f(0.001), f(0.001)]);
    let mut geo = ik_geometry(2);
    geo.lengths = vec![f(-1.0), f(0.5)];
    rig.create_ik_from_tip(&mut scene, b(3), 2, h(20), h(21), geo).unwrap();
    assert_eq!(rig.ik_chains[0].lengths, vec![f(0.001), f(0.5)]);
    let mut geo = capsule();
    geo.radius = f(0.002);
    rig.create_capsule_collider(b(1), geo).unwrap();
    assert_eq!(rig.colliders[0].radius, f(0.01));
}

#[test]
fn an_ik_chain_can_be_taken_back() {
    let (mut rig, mut scene) = spine(3);
    let bones = rig.bones.len();
    let binds = rig.bind_locals.clone();
    let id = rig.create_ik_from_tip(&mut scene, b(3), 2, h(20), h(21), ik_geometry(2)).unwrap();
    assert_eq!(rig.bones.len(), bones + 2);
    rig.remove_ik_chain(&mut scene, id);
    assert_eq!(rig.bones.len(), bones);
    assert_eq!(scene.nodes.len(), bones);
    assert_eq!(rig.bind_locals, binds);
    assert!(rig.ik_chains.is_empty());
    assert!(rig.selection.is_none() && rig.selected.is_empty());
    let next = rig.create_ik_from_tip(&mut scene, b(3), 2, h(20), h(21), ik_geometry(2)).unwrap();
    assert_ne!(next, id);
}
