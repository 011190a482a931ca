use model_rig::bones::BoneId;
use model_rig::driver::NodeSpace;
use model_rig::drivers_panel::morph_label;
use model_rig::frame::{
    shortcut_of, EditKey, FrameInput, HostState, MouseKey, OrbitState, PointerPlace, Projection,
};
use model_rig::geom::{identity_quat, splat3, Quat, Scalar, Transform, Vec2, Vec3};
use model_rig::kinds::DriverNodeKind;
use model_rig::rig::{AppMode, Tool};
use model_rig::rig_app::RigApp;
use model_rig::scene::{Mesh, MeshHandle, Node, NodeHandle, Skin, SkinHandle};
use model_rig::session::{AppState, Drag, GizmoAxis};
use model_rig::tools::{stroke_applied, verlet_begun, Ask};

fn f(x: f32) -> Scalar {
    Scalar { bits: x.to_bits() }
}

fn v3(x: f32, y: f32, z: f32) -> Vec3 {
    Vec3 { x: f(x), y: f(y), z: f(z) }
}

fn moved(y: f32) -> Transform {
    Transform { translation: v3(0.0, y, 0.0), rotation: identity_quat(), scale: splat3(f(1.0)) }
}

fn h(i: u32) -> NodeHandle {
    NodeHandle { index: i, generation: 0 }
}

fn b(i: u32) -> BoneId {
    BoneId { node: h(i) }
}

fn state() -> AppState {
    let mut s = AppState::new();
    s.new_skeleton(h(0), h(1));
    s
}

fn space() -> NodeSpace {
    NodeSpace {
        pan: Vec2 { x: f(0.0), y: f(0.0) },
        links: Vec::new(),
        next_link_id: 1,
        selected_nodes: Vec::new(),
        selected_link: None,
    }
}

fn over() -> PointerPlace {
    PointerPlace { over_viewport: true, over_view_gizmo: false, has_drag: false }
}

#[test]
fn the_inspector_keeps_what_is_typed() {
    let mut s = state();
    assert!(s.edit_bone.is_none());
    s.sync_inspector_from_selection(v3(1.0, 2.0, 3.0));
    assert_eq!(s.edit_bone, Some(b(1)));
    assert_eq!(s.edit_euler_deg, v3(1.0, 2.0, 3.0));
    assert_eq!(s.edit_translation, v3(0.0, 0.35, 0.0));
    // Once in step, what is being typed stays.
    s.sync_inspector_from_selection(v3(9.0, 9.0, 9.0));
    assert_eq!(s.edit_euler_deg, v3(1.0, 2.0, 3.0));
    s.sync_inspector_live(b(0), v3(4.0, 5.0, 6.0));
    assert_eq!(s.edit_bone, Some(b(0)));
    assert_eq!(s.edit_euler_deg, v3(4.0, 5.0, 6.0));
}

#[test]
fn inspected_transforms_are_bound_in_edit_only() {
    let mut s = state();
    s.edit_translation = v3(0.0, 9.0, 0.0);
    s.apply_inspector_translation();
    assert_eq!(s.scene.nodes[1].local, moved(0.35));
    s.sync_inspector_from_selection(splat3(f(0.0)));
    s.edit_translation = v3(0.0, 2.0, 0.0);
    s.apply_inspector_translation();
    assert_eq!(s.scene.nodes[1].local, moved(2.0));
    assert_eq!(s.rig.bind_locals.get(&h(1).key()).copied(), Some(moved(2.0)));
    s.rig.mode = AppMode::Pose;
    s.edit_translation = v3(0.0, 3.0, 0.0);
    s.apply_inspector_translation();
    assert_eq!(s.scene.nodes[1].local, moved(3.0));
    assert_eq!(s.rig.bind_locals.get(&h(1).key()).copied(), Some(moved(2.0)));
}

#[test]
fn the_inspector_turns_without_moving() {
    let mut s = state();
    let turn = Quat { x: f(1.0), y: f(0.0), z: f(0.0), w: f(0.0) };
    s.apply_inspector_euler(turn);
    assert_eq!(s.scene.nodes[1].local, moved(0.35));
    s.sync_inspector_from_selection(splat3(f(0.0)));
    s.edit_translation = v3(5.0, 5.0, 5.0);
    s.apply_inspector_euler(turn);
    let turned = Transform { rotation: turn, ..moved(0.35) };
    assert_eq!(s.scene.nodes[1].local, turned);
    assert_eq!(s.rig.bind_locals.get(&h(1).key()).copied(), Some(turned));
    s.apply_inspector_translation();
    assert_eq!(s.scene.nodes[1].local.rotation, turn);
    assert_eq!(s.scene.nodes[1].local.translation, v3(5.0, 5.0, 5.0));
    assert_eq!(s.scene.nodes[0].local.rotation, identity_quat());
    s.edit_bone = Some(b(9));
    s.rig.weight_overlay.dirty = false;
    s.apply_inspector_translation();
    assert!(s.rig.weight_overlay.dirty);
    assert_eq!(s.scene.nodes[1].local.rotation, turn);
}

#[test]
fn the_status_tells_of_the_selection() {
    let mut s = state();
    s.status_from_selection();
    assert_eq!(s.status, "Selected: Bone");
    s.rig.toggle_selection(b(0));
    s.status_from_selection();
    assert_eq!(s.status, "Selected: 2 bones");
    s.rig.clear_selection();
    s.status_from_selection();
    assert_eq!(s.status, "Selection cleared.");
    assert_eq!(s.loaded_status("a.glb"), "Loaded a.glb · 2 bones (1 with parent) · Pose mode");
}

#[test]
fn a_session_starts_over() {
    let mut s = state();
    s.ik_create_length = 9;
    s.editing_driver = Some(3);
    s.driver_spawn_page = 2;
    s.gizmo_hover = Some(GizmoAxis::X);
    s.resync_camera = false;
    s.reset_session_state();
    assert_eq!(s.ik_create_length, 2);
    assert!(s.editing_driver.is_none());
    assert_eq!(s.driver_spawn_page, 0);
    assert!(s.gizmo_hover.is_none());
    assert!(s.resync_camera && s.clear_gpu_cache);
}

#[test]
fn a_loaded_model_is_posed() {
    let mut s = state();
    s.rig.clear_model(&mut s.scene);
    assert!(s.rig.bones.is_empty() && s.scene.nodes.is_empty());
    for (i, name) in [(5, "hips"), (6, "leg")] {
        s.scene.nodes.push(Node {
            handle: h(i),
            name: name.to_string(),
            parent: if i == 6 { Some(h(5)) } else { None },
            local: moved(i as f32),
            mesh: None,
            skin: None,
            visible: true,
        });
    }
    s.scene.skins.push(Skin {
        handle: SkinHandle { index: 0, generation: 0 },
        joints: vec![h(5), h(6)],
    });
    s.rig.model_loaded(&s.scene, "m.glb".to_string(), h(5));
    s.rig.finish_load(&s.scene);
    assert_eq!(s.rig.bones.len(), 2);
    assert_eq!(s.rig.bone(b(6)).unwrap().parent, Some(b(5)));
    assert_eq!(s.rig.bone_level(b(5)) + 1, s.rig.bone_level(b(6)));
    assert_eq!(s.rig.bind_locals.get(&h(6).key()).copied(), Some(moved(6.0)));
    assert!(s.rig.mode == AppMode::Pose && s.rig.tool == Tool::Rotate);
    assert_eq!(s.rig.source_path.as_deref(), Some("m.glb"));
}

#[test]
fn a_session_at_rest_stops_drawing() {
    let mut s = state();
    assert!(!RigApp::update(&s));
    assert!(!RigApp::keep_drawing(&s, true));
    s.edit_bone = Some(b(1));
    assert!(RigApp::keep_drawing(&s, true));
    assert!(!RigApp::keep_drawing(&s, false));
    let id = s.driver_added(space());
    assert!(s.rig.mode == AppMode::Pose);
    assert!(RigApp::update(&s) && RigApp::keep_drawing(&s, false));
    s.driver_enabled(id, false);
    s.editor_closed();
    assert!(s.editing_driver.is_none());
    assert!(!RigApp::update(&s));
    s.rig.mode = AppMode::Edit;
    s.drag = Some(Drag::Sculpt { mesh: MeshHandle { index: 0, generation: 0 } });
    assert!(RigApp::update(&s));
}

#[test]
fn skinning_is_reported() {
    let mut s = state();
    s.skinning_switched("DQS", true);
    assert_eq!(s.status, "Skinning: DQS (dual quaternion)");
    s.skinning_switched("LBS", false);
    assert_eq!(s.status, "Skinning: LBS (matrix blend)");
    assert!(s.rig.weight_overlay.dirty);
}

#[test]
fn strokes_make_the_overlay_stale() {
    let mut s = state();
    s.rig.weight_overlay.dirty = false;
    stroke_applied(&mut s);
    assert!(s.rig.weight_overlay.dirty);
}

#[test]
fn a_soft_pull_needs_an_arrow() {
    let mut s = state();
    assert_eq!(verlet_begun(&mut s, None), Ask::BeginTranslate);
    assert!(!s.has_drag());
    verlet_begun(&mut s, Some(GizmoAxis::Y));
    match s.drag {
        Some(Drag::Verlet { bone, axis }) => assert!(bone == b(1) && axis == GizmoAxis::Y),
        _ => panic!("no pull"),
    }
}

#[test]
fn bones_are_bound_where_they_are_left() {
    let mut s = state();
    s.scene.nodes[1].local = moved(7.0);
    s.rig.commit_binds(&s.scene, &vec![b(1)]);
    assert_eq!(s.rig.bind_locals.get(&h(1).key()).copied(), Some(moved(7.0)));
}

#[test]
fn editing_a_graph_is_reported() {
    let mut s = state();
    let id = s.driver_added(space());
    assert!(!s.editor_request(id, true));
    s.rig.drivers[0].space.selected_nodes = vec!["n1".to_string(), "n2".to_string()];
    assert!(s.editor_request(id, true));
    assert_eq!(s.status, "Delete 2 node(s)");
    assert!(s.editor_request(id, false));
    assert_eq!(s.status, "Clone 2 node(s)");
    assert!(!s.editor_request(id + 1, false));
    s.driver_spawn_page = 2;
    s.editor_spawned(id, DriverNodeKind::Remap, Vec2 { x: f(0.0), y: f(0.0) });
    assert_eq!(s.status, format!("Spawned {}", DriverNodeKind::Remap.title()));
    assert_eq!(s.driver_spawn_page, 0);
}

#[test]
fn a_morph_node_takes_the_active_shape() {
    let mut s = state();
    assert!(s.morph_taken().is_none());
    assert_eq!(s.status, "Select an active shape key first");
    let mesh = MeshHandle { index: 3, generation: 0 };
    s.scene.meshes.push(Mesh {
        handle: mesh,
        morph_targets: vec!["smile".to_string()],
        morph_weights: vec![f(0.0)],
    });
    s.rig.active_mesh = Some(mesh);
    s.rig.active_shape = Some(0);
    assert_eq!(s.morph_taken(), Some((mesh, 0)));
    assert_eq!(s.status, "Morph ← smile");
    assert_eq!(morph_label(Some(mesh), 4), "shape #4");
    assert_eq!(morph_label(None, 4), "(no morph)");
    s.rig.weight_overlay.dirty = false;
    s.shape_clicked(0, true);
    assert!(s.rig.weight_overlay.dirty && s.rig.mode == AppMode::Shape);
    s.mesh_chosen(mesh);
    assert!(s.rig.active_shape.is_none());
    assert!(!s.rig.is_driven(mesh, 0));
}

#[test]
fn shortcuts_type_nothing() {
    let mut input = FrameInput::default();
    input.type_text("a\u{8}b\u{85}");
    assert_eq!(input.text, "ab");
    input.ctrl = true;
    assert!(input.shortcut_mod());
    input.type_text("c");
    assert_eq!(input.text, "ab");
    assert!(shortcut_of("c") == Some(EditKey::Copy));
    assert!(shortcut_of("C").is_none());
}

#[test]
fn widgets_see_no_mouse_while_the_camera_turns() {
    let mut host = HostState::new(Projection::Perspective);
    host.mouse_input(MouseKey::Left, true, over());
    host.input.commit_text("k");
    assert!(host.ui_input().left.pressed);
    host.mouse_input(MouseKey::Right, true, over());
    let seen = host.ui_input();
    assert!(!seen.left.pressed && !seen.left.down && !seen.right.down);
    assert_eq!(seen.text, "k");
}

#[test]
fn frames_come_slower_at_rest() {
    let mut host = HostState::new(Projection::Perspective);
    host.ui_done(true, false, false, false, false);
    assert!(host.want_capture_mouse && !host.want_capture_keyboard && !host.animating);
    assert_eq!(host.wait_ms(false), 33);
    assert_eq!(host.wait_ms(true), 8);
    host.ui_done(false, false, false, true, false);
    assert_eq!(host.wait_ms(false), 8);
}

#[test]
fn turning_leaves_an_axis_view() {
    let mut o = OrbitState::new(Projection::Perspective);
    assert_eq!(o.motion(false), (false, false));
    o.snap();
    o.orbiting = true;
    assert_eq!(o.motion(true), (false, false));
    assert!(o.projection == Projection::Orthographic);
    assert_eq!(o.motion(false), (true, false));
    assert!(o.projection == Projection::Perspective);
    assert!(!o.snapping);
}
