use model_rig::bones::BoneId;
use model_rig::geom::{identity_quat, splat3, Scalar, Transform, Vec2, Vec3};
use model_rig::rig::{AppMode, BrushKind, MoveMode, Tool};
use model_rig::scene::{Mesh, MeshHandle, NodeHandle};
use model_rig::session::{AppState, Drag, GizmoAxis};
use model_rig::toolbar::Toggle;
use model_rig::tools::{
    bone_picked, drag_applied, extruded, grab_begun, grounded, handle_tools, hovered, ik_begun,
    marquee_boxed, marquee_clicked, marquee_is_click, mesh_picked, rotate_begun, stroke_begun,
    translate_begun, Ask, PointerFrame, ShapeRef, ToolFrame,
};

fn f(x: f32) -> Scalar {
    Scalar { bits: x.to_bits() }
}

fn at(x: f32, y: f32) -> Vec2 {
    Vec2 { x: f(x), y: f(y) }
}

fn zero() -> Vec3 {
    splat3(f(0.0))
}

fn moved(y: f32) -> Transform {
    Transform {
        translation: Vec3 { x: f(0.0), y: f(y), z: f(0.0) },
        rotation: identity_quat(),
        scale: splat3(f(1.0)),
    }
}

fn h(i: u32) -> NodeHandle {
    NodeHandle { index: i, generation: 0 }
}

fn b(i: u32) -> BoneId {
    BoneId { node: h(i) }
}

fn state() -> AppState {
    let mut s = AppState::new();
    s.new_skeleton(h(0), h(1));
    s
}

fn frame(pressed: bool, down: bool, released: bool) -> ToolFrame {
    ToolFrame {
        pointer: PointerFrame { pos: at(5.0, 6.0), pressed, down, released, ctrl: false },
        over: true,
        ui_wants_mouse: false,
    }
}

#[test]
fn a_new_skeleton_is_ready_to_edit() {
    let s = state();
    assert_eq!(s.rig.bones.len(), 2);
    assert!(s.rig.mode == AppMode::Edit);
    assert_eq!(s.status, "New skeleton · Edit mode · Extrude (E) / Add / Translate");
    assert!(!s.has_drag());
}

#[test]
fn the_translate_tool_looks_for_its_arrows() {
    let mut s = state();
    assert_eq!(handle_tools(&mut s, &frame(true, true, false)), Ask::HoverTranslate);
    assert_eq!(hovered(&mut s, &frame(true, true, false), Some(GizmoAxis::X)), Ask::BeginTranslate);
    assert_eq!(s.gizmo_hover, Some(GizmoAxis::X));
    let ask =
        translate_begun(&mut s, &frame(true, true, false), Some((GizmoAxis::X, vec![b(1)])));
    assert_eq!(ask, Ask::Done);
    assert!(matches!(s.drag, Some(Drag::Translate { .. })));
    assert_eq!(handle_tools(&mut s, &frame(false, true, false)), Ask::DragTranslate);
}

#[test]
fn an_edit_drag_binds_where_it_ends() {
    let mut s = state();
    translate_begun(&mut s, &frame(true, true, false), Some((GizmoAxis::X, vec![b(1)])));
    drag_applied(&mut s, &vec![(h(1), moved(7.0))], zero());
    assert_eq!(s.scene.nodes[1].local, moved(7.0));
    assert_ne!(s.rig.bind_locals.get(&h(1).key()).copied(), Some(moved(7.0)));
    handle_tools(&mut s, &frame(false, false, true));
    assert!(!s.has_drag());
    assert_eq!(s.rig.bind_locals.get(&h(1).key()).copied(), Some(moved(7.0)));
}

#[test]
fn a_pose_drag_keeps_the_bind_pose() {
    let mut s = state();
    s.set_mode(AppMode::Pose);
    let bind = s.rig.bind_locals.get(&h(1).key()).copied();
    assert_eq!(handle_tools(&mut s, &frame(true, true, false)), Ask::HoverRotate);
    assert_eq!(hovered(&mut s, &frame(true, true, false), None), Ask::BeginRotate);
    rotate_begun(&mut s, &frame(true, true, false), Some((GizmoAxis::Y, vec![b(1)])));
    assert_eq!(handle_tools(&mut s, &frame(false, true, false)), Ask::DragRotate);
    drag_applied(&mut s, &vec![(h(1), moved(7.0))], zero());
    handle_tools(&mut s, &frame(false, false, true));
    assert_eq!(s.rig.bind_locals.get(&h(1).key()).copied(), bind);
    assert_eq!(s.scene.nodes[1].local, moved(7.0));
}

#[test]
fn pose_moves_pull_chains() {
    let mut s = state();
    s.set_mode(AppMode::Pose);
    s.rig.tool = Tool::Translate;
    s.rig.move_mode = MoveMode::AutoIk;
    assert_eq!(hovered(&mut s, &frame(true, true, false), None), Ask::BeginIk);
    ik_begun(&mut s, Some(GizmoAxis::Xy));
    assert_eq!(handle_tools(&mut s, &frame(false, true, false)), Ask::DragIk);
    assert_eq!(s.gizmo_hover, Some(GizmoAxis::Xy));
    s.clear_drags();
    s.rig.move_mode = MoveMode::Verlet;
    assert_eq!(hovered(&mut s, &frame(true, true, false), None), Ask::BeginVerlet);
}

#[test]
fn the_add_tool_grows_and_places() {
    let mut s = state();
    s.rig.tool = Tool::AddBone;
    assert_eq!(handle_tools(&mut s, &frame(true, true, false)), Ask::Extrude { parent: b(1) });
    extruded(&mut s, b(1), h(2), moved(0.3));
    assert_eq!(s.status, "Extruded bone");
    assert_eq!(s.rig.bone(b(2)).unwrap().parent, Some(b(1)));
    s.rig.clear_selection();
    assert_eq!(handle_tools(&mut s, &frame(true, true, false)), Ask::Ground);
    grounded(&mut s, h(3), moved(0.0));
    assert_eq!(s.status, "Added root bone");
    assert_eq!(s.rig.bone(b(3)).unwrap().parent, None);
}

#[test]
fn ctrl_draws_a_marquee() {
    let mut s = state();
    s.rig.tool = Tool::Select;
    let mut press = frame(true, true, false);
    press.pointer.ctrl = true;
    assert_eq!(handle_tools(&mut s, &press), Ask::Done);
    assert!(matches!(s.drag, Some(Drag::Marquee { additive: true, .. })));
    let mut go = frame(false, true, false);
    go.pointer.pos = at(50.0, 60.0);
    handle_tools(&mut s, &go);
    let ask = handle_tools(&mut s, &frame(false, false, true));
    assert_eq!(
        ask,
        Ask::FinishMarquee { start: at(5.0, 6.0), current: at(50.0, 60.0), additive: true }
    );
    marquee_boxed(&mut s, &frame(false, false, true), &vec![b(0)], true);
    assert!(s.rig.is_selected(b(0)));
    assert!(s.rig.is_selected(b(1)));
    assert_eq!(s.status, "Selected: 2 bones");
    marquee_clicked(&mut s, &frame(false, false, true), Some(b(0)));
    assert!(!s.rig.is_selected(b(0)));
}

#[test]
fn picking_selects_or_clears() {
    let mut s = state();
    s.rig.tool = Tool::Select;
    assert_eq!(handle_tools(&mut s, &frame(true, true, false)), Ask::PickBone);
    bone_picked(&mut s, true, Some(b(0)));
    assert_eq!(s.rig.selection, Some(b(0)));
    assert_eq!(s.status, "Selected: Root");
    bone_picked(&mut s, true, None);
    assert_eq!(s.rig.selection, None);
    assert_eq!(s.status, "Selection cleared.");
}

#[test]
fn the_pointer_elsewhere_does_nothing() {
    let mut s = state();
    s.rig.tool = Tool::Select;
    let mut fr = frame(true, true, false);
    fr.over = false;
    assert_eq!(handle_tools(&mut s, &fr), Ask::Done);
    fr.over = true;
    fr.ui_wants_mouse = true;
    assert_eq!(handle_tools(&mut s, &fr), Ask::Done);
}

#[test]
fn strokes_ask_for_a_shape_key() {
    let mesh = MeshHandle { index: 3, generation: 0 };
    let mut s = state();
    s.scene.meshes.push(Mesh {
        handle: mesh,
        morph_targets: vec!["A".to_string()],
        morph_weights: vec![f(0.0)],
    });
    s.set_mode(AppMode::Shape);
    assert_eq!(handle_tools(&mut s, &frame(true, true, false)), Ask::Done);
    assert_eq!(s.status, "Create / select a shape key first");
    s.rig.active_mesh = Some(mesh);
    s.rig.active_shape = Some(0);
    assert_eq!(
        handle_tools(&mut s, &frame(true, true, false)),
        Ask::BeginStroke { raise: Some(ShapeRef { mesh, index: 0 }) }
    );
    s.scene.meshes[0].morph_weights[0] = f(0.05);
    assert_eq!(
        handle_tools(&mut s, &frame(true, true, false)),
        Ask::BeginStroke { raise: None }
    );
    s.rig.brush_kind = BrushKind::Inflate;
    stroke_begun(&mut s, &frame(true, true, false), Some(mesh));
    assert_eq!(s.status, "Inflate…");
    let mut go = frame(false, true, false);
    go.pointer.ctrl = true;
    assert_eq!(handle_tools(&mut s, &go), Ask::Stroke { invert: true });
    handle_tools(&mut s, &frame(false, false, true));
    assert!(!s.has_drag());
    s.rig.tool = Tool::Select;
    assert_eq!(handle_tools(&mut s, &frame(true, true, false)), Ask::PickMesh);
    mesh_picked(&mut s, Some(mesh));
    assert_eq!(s.rig.active_mesh, Some(mesh));
}

#[test]
fn soft_joints_are_grabbed_in_pose() {
    let mut s = state();
    s.set_mode(AppMode::Pose);
    s.rig.tool = Tool::SoftGrab;
    assert_eq!(handle_tools(&mut s, &frame(true, true, false)), Ask::BeginGrab);
    grab_begun(&mut s, None);
    assert_eq!(s.status, "Soft Grab: click a soft joint");
    grab_begun(&mut s, Some((4, b(1))));
    assert_eq!(handle_tools(&mut s, &frame(false, true, false)), Ask::DragSoft);
}

#[test]
fn a_toggle_shows_what_it_was_switched_to() {
    let mut s = state();
    for t in Toggle::all() {
        let n = t.options().len();
        for i in 0..n {
            if s.toggle_shown(t) {
                s.toggle_switched(t, i);
                if s.toggle_shown(t) {
                    assert_eq!(s.toggle_index(t), i, "{}", t.id());
                }
            }
        }
    }
}

#[test]
fn move_modes_say_what_they_do() {
    let mut s = state();
    s.set_mode(AppMode::Pose);
    s.toggle_switched(Toggle::PoseTool, 1);
    s.toggle_switched(Toggle::Move, 1);
    assert!(s.rig.move_mode == MoveMode::AutoIk);
    assert_eq!(s.status, "Move · IK (CCD, short chain)");
}

#[test]
fn a_short_marquee_is_a_click() {
    assert!(marquee_is_click(f(0.0)) && marquee_is_click(f(4.99)));
    assert!(!marquee_is_click(f(5.0)) && !marquee_is_click(f(f32::NAN)));
}
