use model_rig::bone_list::{bone_chosen, bone_from_selection, bone_select_index, space_chosen};
use model_rig::bone_tree::{bone_tree_id, branch_end};
use model_rig::bones::BoneId;
use model_rig::bones_panel::chain_label;
use model_rig::driver::NodeSpace;
use model_rig::geom::{identity_quat, splat3, Scalar, Transform, Vec2, Vec3};
use model_rig::inspector::{ColliderEdit, Inspection, Section, SoftField};
use model_rig::kinds::{DriverNodeKind, DriverSpace};
use model_rig::rig::{AppMode, IkControlKind};
use model_rig::rig_app::{RigApp, ViewItem};
use model_rig::rig_chains::{CapsuleGeometry, IkGeometry, SoftGeometry};
use model_rig::scene::{Mesh, MeshHandle, Node, NodeHandle};
use model_rig::session::AppState;
use model_rig::shapes_panel::brush_hint;

fn f(x: f32) -> Scalar {
    Scalar { bits: x.to_bits() }
}

fn at(x: f32, y: f32) -> Vec2 {
    Vec2 { x: f(x), y: f(y) }
}

fn moved(y: f32) -> Transform {
    Transform {
        translation: Vec3 { x: f(0.0), y: f(y), z: f(0.0) },
        rotation: identity_quat(),
        scale: splat3(f(1.0)),
    }
}

fn h(i: u32) -> NodeHandle {
    NodeHandle { index: i, generation: 0 }
}

fn b(i: u32) -> BoneId {
    BoneId { node: h(i) }
}

fn space() -> NodeSpace {
    NodeSpace {
        pan: at(0.0, 0.0),
        links: Vec::new(),
        next_link_id: 1,
        selected_nodes: Vec::new(),
        selected_link: None,
    }
}

/// Root, Bone, then two more above, and a second child of the root.
fn state() -> AppState {
    let mut s = AppState::new();
    s.new_skeleton(h(0), h(1));
    s.rig.insert_bone(&mut s.scene, h(2), "arm", Some(b(1)), moved(1.0), true);
    s.rig.insert_bone(&mut s.scene, h(3), "Hand", Some(b(2)), moved(1.0), true);
    s.rig.insert_bone(&mut s.scene, h(4), "Side", Some(b(0)), moved(1.0), true);
    s.rig.capture_bind_pose(&s.scene);
    s
}

fn ik_geometry(n: usize) -> IkGeometry {
    IkGeometry {
        lengths: vec![f(1.0); n],
        target_pos: splat3(f(0.0)),
        target_rot: identity_quat(),
        pole_pos: splat3(f(1.0)),
    }
}

fn soft_geometry(n: usize) -> SoftGeometry {
    SoftGeometry {
        lengths: vec![f(1.0); n],
        tip_length: f(0.65),
        support_normal_local: splat3(f(0.0)),
    }
}

#[test]
fn bones_are_listed_by_name_without_case() {
    let s = state();
    let rows = s.rig.bones_sorted();
    let names: Vec<&str> = rows.iter().map(|r| r.name.as_str()).collect();
    assert_eq!(names, vec!["arm", "Bone", "Hand", "Root", "Side"]);
    assert_eq!(bone_select_index(&rows, Some(b(3))), 3);
    assert_eq!(bone_select_index(&rows, None), 0);
    assert_eq!(bone_chosen(&rows, 3), Some(b(3)));
    assert_eq!(bone_chosen(&rows, 0), None);
}

#[test]
fn lowercasing_goes_beyond_ascii() {
    let mut s = state();
    s.rig.bones[4].name = "\u{c9}paule".to_string();
    s.rig.bones[3].name = "\u{e9}cart".to_string();
    let rows = s.rig.bones_sorted();
    let names: Vec<&str> = rows.iter().map(|r| r.name.as_str()).collect();
    assert_eq!(names, vec!["arm", "Bone", "Root", "\u{e9}cart", "\u{c9}paule"]);
}

#[test]
fn a_node_takes_the_selected_bone() {
    assert_eq!(bone_from_selection(Some(b(2))).0, Some(b(2)));
    assert_eq!(bone_from_selection(None).0, None);
    assert_eq!(space_chosen(0), DriverSpace::Local);
    assert_eq!(space_chosen(1), DriverSpace::World);
    assert_eq!(space_chosen(2), DriverSpace::BindOffset);
}

#[test]
fn the_tree_lists_every_bone_under_its_parent() {
    let s = state();
    let rows = s.rig.bone_tree();
    let shape: Vec<(BoneId, usize, bool)> = rows.iter().map(|r| (r.id, r.depth, r.leaf)).collect();
    assert_eq!(
        shape,
        vec![
            (b(0), 0, false),
            (b(1), 1, false),
            (b(2), 2, false),
            (b(3), 3, true),
            (b(4), 1, true)
        ]
    );
    let ends: Vec<usize> = (0..5).map(|i| branch_end(&rows, i)).collect();
    assert_eq!(ends, vec![5, 4, 4, 4, 5]);
    for r in &rows {
        assert_eq!(s.rig.bone_of_line(&bone_tree_id(r.id)), Some(r.id));
    }
    assert_eq!(s.rig.bone_of_line("nothing"), None);
}

#[test]
fn tree_clicks_select() {
    let mut s = state();
    let line = bone_tree_id(b(2));
    s.tree_selected(Some(b(1)), Some(&line));
    assert_eq!(s.rig.selection, Some(b(2)));
    assert_eq!(s.status, "Selected: arm");
}

#[test]
fn extrude_and_delete_buttons() {
    let mut s = state();
    s.rig.clear_selection();
    assert_eq!(s.extrude_clicked(), None);
    assert_eq!(s.status, "Select a bone to extrude");
    s.rig.set_selection(b(2));
    assert_eq!(s.extrude_clicked(), Some(b(2)));
    s.delete_clicked();
    assert_eq!(s.status, "Deleted bone subtree");
    assert!(s.rig.bone(b(2)).is_none());
    assert!(s.rig.bone(b(3)).is_none());
}

#[test]
fn ik_buttons_in_the_inspector() {
    let mut s = state();
    s.ik_create_length = 2;
    assert!(s.create_ik_clicked(b(3), h(20), h(21), ik_geometry(2)));
    let id = s.rig.ik_chains[0].id;
    assert_eq!(s.rig.selection, Some(b(20)));
    match s.inspector_panel_body() {
        Inspection::Bone(i) => {
            assert!(i.role == Some(IkControlKind::Target));
        }
        _ => panic!("no bone"),
    }
    let name = s.rig.ik_chains[0].name.clone();
    s.ik_switch_clicked(id, &name, true);
    assert!(!s.rig.ik_chains[0].enabled);
    s.ik_select_clicked(id);
    assert_eq!(s.rig.selection, Some(b(20)));
    s.remove_ik_clicked(id);
    assert_eq!(s.status, "IK removed");
    assert!(s.rig.ik_chains.is_empty());
    assert!(!s.create_ik_clicked(b(0), h(20), h(21), ik_geometry(2)));
    assert_eq!(s.status, "Tip needs at least one parent bone");
}

#[test]
fn the_ik_length_stays_in_range() {
    let mut s = state();
    s.ik_create_length = 1;
    s.ik_length_stepped(false);
    assert_eq!(s.ik_create_length, 1);
    s.ik_length_stepped(true);
    assert_eq!(s.ik_create_length, 2);
    s.ik_create_length = 32;
    s.ik_length_stepped(true);
    assert_eq!(s.ik_create_length, 32);
}

#[test]
fn soft_buttons_in_the_inspector() {
    let mut s = state();
    assert!(s.create_soft_clicked(b(2), soft_geometry(3)));
    assert_eq!(s.status, "Soft created · Pose mode: gravity + support plane");
    let id = s.rig.soft_chains[0].id;
    s.soft_field_edited(id, SoftField::Gravity, f(3.0));
    assert_eq!(s.rig.soft_chains[0].gravity, f(3.0));
    let name = s.rig.soft_chains[0].name.clone();
    s.soft_select_clicked(id);
    assert_eq!(s.rig.selection, Some(b(1)));
    s.soft_switch_clicked(id, &name, true);
    assert!(!s.rig.soft_chains[0].enabled);
    s.remove_soft_clicked(id);
    assert_eq!(s.status, "Soft removed");
    assert!(s.rig.soft_chains.is_empty());
}

#[test]
fn collider_buttons_in_the_inspector() {
    let mut s = state();
    let geo = || CapsuleGeometry {
        a_local: splat3(f(0.0)),
        b_local: splat3(f(1.0)),
        radius: f(0.1),
    };
    assert!(s.add_collider_clicked(b(2), geo()));
    assert_eq!(s.status, "Capsule collider added");
    let id = s.rig.colliders[0].id;
    s.collider_field_edited(id, ColliderEdit::Radius(f(9.0)));
    assert_eq!(s.rig.colliders[0].radius, f(0.5));
    s.collider_field_edited(id, ColliderEdit::Radius(f(0.0)));
    assert_eq!(s.rig.colliders[0].radius, f(0.001));
    assert!(!s.add_collider_clicked(b(2), geo()));
    assert_eq!(s.status, "Bone already has a collider");
    s.remove_collider_clicked(id);
    assert_eq!(s.status, "Collider removed");
}

#[test]
fn the_inspector_follows_the_selection() {
    let mut s = state();
    s.rig.clear_selection();
    assert!(matches!(s.inspector_panel_body(), Inspection::Nothing));
    s.rig.set_selection(b(2));
    match s.inspector_panel_body() {
        Inspection::Bone(i) => {
            assert_eq!(i.name, "arm");
            assert_eq!(i.parent, Some("Bone".to_string()));
            assert!(i.collider == Section::Create);
            assert!(i.many.is_none());
        }
        _ => panic!("no bone"),
    }
    s.rig.toggle_selection(b(3));
    match s.inspector_panel_body() {
        Inspection::Bone(i) => assert_eq!(i.many, Some(2)),
        _ => panic!("no bone"),
    }
}

#[test]
fn drivers_come_and_go() {
    let mut s = state();
    let id = s.driver_added(space());
    assert_eq!(s.rig.drivers.len(), 1);
    s.driver_renamed(id, "Elbow".to_string());
    s.driver_enabled(id, false);
    let rows = s.driver_rows();
    assert_eq!(rows[0].name, "Elbow");
    assert!(!rows[0].enabled);
    s.driver_opened(id);
    assert_eq!(s.status, "Editing Elbow");
    assert_eq!(s.driver_editor_window(), Some("Driver — Elbow".to_string()));
    s.editor_spawned(id, DriverNodeKind::Float, at(0.0, 0.0));
    assert_eq!(s.rig.drivers[0].nodes.len(), 1);
    assert_eq!(s.status, format!("Spawned {}", DriverNodeKind::Float.title()));
    s.driver_removed(id);
    assert_eq!(s.status, format!("Removed driver #{}", id));
    assert!(s.driver_editor_window().is_none());
    assert!(s.rig.drivers.is_empty());
}

#[test]
fn shape_keys_come_and_go() {
    let mesh = MeshHandle { index: 6, generation: 0 };
    let mut s = state();
    assert!(s.shape_wanted().is_none());
    assert_eq!(s.status, "No mesh for shape key");
    s.scene.nodes.push(Node {
        handle: h(30),
        name: String::new(),
        parent: None,
        local: moved(0.0),
        mesh: Some(mesh),
        skin: None,
        visible: true,
    });
    s.scene.meshes.push(Mesh { handle: mesh, morph_targets: Vec::new(), morph_weights: Vec::new() });
    let rows = s.scene.shape_meshes();
    assert_eq!(rows.len(), 1);
    assert_eq!(rows[0].label, "Mesh 6");
    let (m, name) = s.shape_wanted().unwrap();
    assert_eq!(m, mesh);
    s.scene.meshes[0].morph_targets.push(name);
    s.scene.meshes[0].morph_weights.push(f(1.0));
    s.shape_added(0);
    assert_eq!(s.status, "Created shape key #0");
    let p = s.shapes_panel().unwrap();
    assert_eq!(p.keys.len(), 1);
    assert!(p.keys[0].selected);
    assert_eq!(s.shape_deleted(0), Some((mesh, 0)));
    assert_eq!(s.status, "Deleted shape key");
    assert_eq!(s.rig.active_shape, None);
}

#[test]
fn the_view_menu_toggles() {
    let mut s = state();
    assert_eq!(s.view_item_label(ViewItem::Skeleton), "Hide Skeleton");
    s.view_item_clicked(ViewItem::Skeleton);
    assert!(!s.rig.show_skeleton);
    assert_eq!(s.view_item_label(ViewItem::Skeleton), "Show Skeleton");
    s.view_item_clicked(ViewItem::Skeleton);
    assert!(s.rig.show_skeleton);
    assert!(!RigApp::title().is_empty());
}

#[test]
fn mode_changes_are_told() {
    let mut s = state();
    s.set_mode(AppMode::Pose);
    assert_eq!(s.status, "Pose mode — FK rotate");
    s.scene.set_local(h(2), moved(9.0));
    s.reset_pose();
    assert_eq!(s.status, "Pose reset to bind.");
    assert_eq!(s.scene.nodes[2].local, moved(1.0));
    assert!(brush_hint(s.rig.brush_kind).contains("drag"));
    assert_ne!(chain_label("IK", true), chain_label("IK", false));
}
