use model_rig::bones::BoneId;
use model_rig::frame::{
    shortcut_key, AfterUi, EditKey, FrameCount, FrameInput, GizmoShown, HostState, Hotkey,
    KeyReply, MouseKey, OrbitState, PointerPlace, Projection,
};
use model_rig::geom::Scalar;
use model_rig::ranking::{rank, Ranking};
use model_rig::rig::{AppMode, Tool};
use model_rig::scene::NodeHandle;
use model_rig::session::AppState;
use model_rig::view_gizmo::{draw_order, hit_test, ViewAxis};

fn f(x: f32) -> Scalar {
    Scalar { bits: x.to_bits() }
}

fn h(i: u32) -> NodeHandle {
    NodeHandle { index: i, generation: 0 }
}

fn state() -> AppState {
    let mut s = AppState::new();
    s.new_skeleton(h(0), h(1));
    s
}

fn over() -> PointerPlace {
    PointerPlace { over_viewport: true, over_view_gizmo: false, has_drag: false }
}

#[test]
fn a_click_is_seen_for_one_frame() {
    let mut host = HostState::new(Projection::Perspective);
    host.mouse_input(MouseKey::Left, true, over());
    assert!(host.input.left.pressed && host.input.left.down);
    host.frame_done();
    assert!(!host.input.left.pressed && host.input.left.down);
    host.mouse_input(MouseKey::Left, false, over());
    assert!(host.input.left.released && !host.input.left.down);
    host.frame_done();
    assert!(!host.input.left.released);
}

#[test]
fn losing_focus_ends_a_turn_of_the_camera() {
    let mut host = HostState::new(Projection::Perspective);
    host.mouse_input(MouseKey::Middle, true, over());
    assert!(host.orbit.active());
    host.focus_lost();
    assert!(!host.orbit.active());
    assert!(host.input.middle.down);
}

#[test]
fn shortcuts_are_read_without_case() {
    assert!(shortcut_key("C") == Some(EditKey::Copy));
    assert!(shortcut_key("v") == Some(EditKey::Paste));
    assert!(shortcut_key("x") == Some(EditKey::Cut));
    assert!(shortcut_key("A") == Some(EditKey::SelectAll));
    assert!(shortcut_key("q").is_none());
}

#[test]
fn typed_text_is_collected_until_the_frame_ends() {
    let mut input = FrameInput::default();
    input.commit_text("ab");
    assert_eq!(input.text, "ab");
    input.edit_key(EditKey::Enter);
    assert!(input.keys.enter);
    input.begin_paste(Some("clip".to_string()));
    assert!(input.keys.paste);
    assert_eq!(input.clipboard_paste, "clip");
    input.clear_edges();
    assert_eq!(input.text, "");
    assert!(!input.keys.enter);
    assert!(!input.keys.paste);
}

#[test]
fn hotkeys_pick_tools() {
    let mut s = state();
    assert_eq!(s.key_pressed(Hotkey::Rotate, false), KeyReply::Nothing);
    assert!(s.rig.tool == Tool::Rotate);
    assert_eq!(s.status, "Tool: Rotate");
    s.key_pressed(Hotkey::Move, false);
    assert!(s.rig.tool == Tool::Translate);
    s.key_pressed(Hotkey::Add, false);
    assert!(s.rig.tool == Tool::AddBone);
    let sel = BoneId { node: h(1) };
    assert_eq!(s.key_pressed(Hotkey::Extrude, false), KeyReply::Extrude(sel));
}

#[test]
fn tab_switches_between_edit_and_pose() {
    let mut s = state();
    s.key_pressed(Hotkey::Tab, false);
    assert!(s.rig.mode == AppMode::Pose);
    s.key_pressed(Hotkey::Tab, false);
    assert!(s.rig.mode == AppMode::Edit);
}

#[test]
fn escape_clears_then_leaves() {
    let mut s = state();
    assert_eq!(s.key_pressed(Hotkey::Escape, false), KeyReply::Nothing);
    assert!(s.rig.selection.is_none());
    assert_eq!(s.key_pressed(Hotkey::Escape, false), KeyReply::Exit);
}

#[test]
fn the_gizmo_follows_the_tool() {
    let mut s = state();
    let sel = BoneId { node: h(1) };
    assert_eq!(s.gizmo_shown(), GizmoShown::Translate(sel));
    s.rig.tool = Tool::Rotate;
    assert_eq!(s.gizmo_shown(), GizmoShown::Rotate(sel));
    s.rig.clear_selection();
    assert_eq!(s.gizmo_shown(), GizmoShown::Nothing);
}

#[test]
fn frames_need_a_window() {
    let host = HostState::new(Projection::Perspective);
    let mut s = state();
    assert!(host.redraw(&mut s, 0, 10, over()).is_none());
    assert!(host.redraw(&mut s, 10, 10, over()).is_some());
}

#[test]
fn the_view_gizmo_takes_the_press() {
    let mut host = HostState::new(Projection::Perspective);
    let mut s = state();
    let p = PointerPlace { over_viewport: true, over_view_gizmo: true, has_drag: false };
    host.mouse_input(MouseKey::Left, true, p);
    match host.after_ui(p, false) {
        AfterUi::HitTest => {}
        _ => panic!("no hit test"),
    }
    host.axis_clicked(&mut s, Some(ViewAxis::PosX), p, false);
    assert_eq!(s.status, format!("View {} · ortho", ViewAxis::PosX.label_view()));
}

#[test]
fn snapping_turns_orthographic() {
    let mut o = OrbitState::new(Projection::Perspective);
    assert!(!o.active());
    o.snap();
    assert!(o.projection == Projection::Orthographic);
    o.arrived();
    assert!(!o.snapping);
}

#[test]
fn axes_are_drawn_back_to_front() {
    let depths = vec![f(1.0), f(-1.0), f(0.5), f(-0.5), f(0.25), f(-0.25)];
    let order = draw_order(&depths);
    assert_eq!(order, vec![0, 2, 4, 5, 3, 1]);
    let mut hits = vec![false; 6];
    assert!(hit_test(&depths, &hits).is_none());
    hits[2] = true;
    assert_eq!(hit_test(&depths, &hits), Some(ViewAxis::all()[2]));
}

#[test]
fn ranking_is_stable() {
    let keys = vec![f(2.0), f(1.0), f(2.0), f(-1.0)];
    assert_eq!(rank(&keys, Ranking::Rising), vec![3, 1, 0, 2]);
    assert_eq!(rank(&keys, Ranking::Falling), vec![0, 2, 1, 3]);
    assert_eq!(rank(&keys, Ranking::TotalRising), vec![3, 1, 0, 2]);
}

#[test]
fn axis_labels() {
    assert!(ViewAxis::PosX.is_positive());
    assert!(!ViewAxis::NegX.is_positive());
    assert_eq!(ViewAxis::PosY.label(), Some("Y"));
    assert_eq!(ViewAxis::NegY.label(), None);
}

#[test]
fn of_two_tips_the_front_one_is_picked() {
    let depths = vec![f(1.0), f(-1.0), f(0.5), f(-0.5), f(0.25), f(-0.25)];
    let hits = vec![true, false, true, true, false, true];
    assert_eq!(hit_test(&depths, &hits), Some(ViewAxis::NegY));
    let flat = vec![f(0.0); 6];
    assert_eq!(hit_test(&flat, &hits), Some(ViewAxis::PosX));
}

#[test]
fn frames_are_counted_by_the_second() {
    let mut c = FrameCount::new();
    assert_eq!(c.frame_passed(f(0.4)), None);
    assert_eq!(c.frame_passed(f(0.8)), None);
    assert_eq!((c.seconds, c.frames), (f(0.8), 2));
    assert_eq!(c.frame_passed(f(1.0)), Some((f(1.0), 3)));
    assert_eq!((c.seconds, c.frames), (f(0.0), 0));
    assert_eq!(c.frame_passed(f(f32::NAN)), None);
}

#[test]
fn the_brush_is_drawn_in_shape_mode() {
    let mut s = state();
    s.rig.tool = Tool::Brush;
    assert!(!s.brush_shown());
    s.rig.mode = AppMode::Shape;
    assert!(s.brush_shown());
    s.rig.tool = Tool::Select;
    assert!(!s.brush_shown());
}
