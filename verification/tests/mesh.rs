use model_rig::bones::BoneId;
use model_rig::geom::{identity_quat, splat3, Color, Scalar, Transform, Vec3};
use model_rig::gizmo::{
    drag_bones, handle_frame, highlight, pick_rotate_axis, pick_translate_axis, rotate_axes,
    world_axis_of, HandleHits, RingHit, Side,
};
use model_rig::mesh_faces::{build_adjacency, nearest_face, sound_faces, Face};
use model_rig::order::{hold_between, nearest_bone, nearest_place};
use model_rig::rig::{BrushKind, OverlayTri, RigDocument};
use model_rig::scene::{Mesh, MeshHandle, Node, NodeHandle, Scene, Skin, SkinHandle};
use model_rig::sculpt::{
    begin_stroke, collect_brush_verts, pick_mesh, BrushVert, MeshHit, MeshSize, PickTarget,
    StrokeWork,
};
use model_rig::session::GizmoAxis;
use model_rig::weights::MeshSkin;

fn f(x: f32) -> Scalar {
    Scalar { bits: x.to_bits() }
}

fn still() -> Transform {
    Transform { translation: splat3(f(0.0)), rotation: identity_quat(), scale: splat3(f(1.0)) }
}

fn h(i: u32) -> NodeHandle {
    NodeHandle { index: i, generation: 0 }
}

fn b(i: u32) -> BoneId {
    BoneId { node: h(i) }
}

fn mesh(i: u32) -> MeshHandle {
    MeshHandle { index: i, generation: 0 }
}

fn skin(i: u32) -> SkinHandle {
    SkinHandle { index: i, generation: 0 }
}

fn node(i: u32, m: Option<MeshHandle>, s: Option<SkinHandle>) -> Node {
    Node {
        handle: h(i),
        name: "n".to_string(),
        parent: None,
        local: still(),
        mesh: m,
        skin: s,
        visible: true,
    }
}

fn shaped_scene() -> Scene {
    Scene {
        nodes: vec![node(0, Some(mesh(0)), None)],
        skins: Vec::new(),
        meshes: vec![Mesh {
            handle: mesh(0),
            morph_targets: vec!["Key_1".to_string()],
            morph_weights: vec![f(0.0)],
        }],
    }
}

fn vert(v: usize) -> BrushVert {
    BrushVert { vertex: v, falloff: f(1.0) }
}

#[test]
fn faces_beyond_the_vertices_are_dropped() {
    let faces = sound_faces(&vec![0, 1, 2, 1, 2, 9, 2, 1, 3, 0], 4);
    assert_eq!(faces, vec![Face { a: 0, b: 1, c: 2 }, Face { a: 2, b: 1, c: 3 }]);
}

#[test]
fn neighbours_are_mutual_and_listed_once() {
    let adj = build_adjacency(&vec![0, 1, 2, 2, 1, 3], 5);
    assert_eq!(adj[0], vec![1, 2]);
    assert_eq!(adj[1], vec![0, 2, 3]);
    assert_eq!(adj[2], vec![1, 0, 3]);
    assert_eq!(adj[3], vec![1, 2]);
    assert!(adj[4].is_empty());
}

#[test]
fn the_first_of_the_nearest_faces_is_hit() {
    let hits = vec![None, Some(f(2.0)), Some(f(1.0)), Some(f(1.0)), Some(f(-1.0))];
    assert_eq!(nearest_face(&hits), Some(2));
    assert_eq!(nearest_face(&vec![None, Some(f(-0.5))]), None);
    assert_eq!(nearest_place(&vec![None, Some(f(2.0)), Some(f(1.0))]), Some(2));
    assert_eq!(nearest_bone(&vec![(f(2.0), b(1)), (f(1.0), b(2))]), Some(b(2)));
}

#[test]
fn comparisons_agree_with_floats() {
    let xs = [0.0f32, -0.0, 1.0, -1.0, 0.05, f32::MAX, f32::INFINITY, f32::NAN, -1e-45];
    for &a in &xs {
        assert_eq!(f(a).is_nan(), a.is_nan());
        for &c in &xs {
            assert_eq!(f(a).reaches(&f(c)), a >= c);
            let m = f32::from_bits(f(a).or_larger(&f(c)).bits);
            assert!(m == a.max(c) || (m.is_nan() && a.max(c).is_nan()));
        }
        let held = f32::from_bits(hold_between(f(a), f(0.0), f(1.0)).bits);
        assert!(held == a.clamp(0.0, 1.0) || held.is_nan());
    }
}

#[test]
fn hidden_and_empty_meshes_are_not_picked() {
    let mut scene = shaped_scene();
    scene.nodes.push(node(1, Some(mesh(1)), None));
    scene.nodes.push(node(2, None, None));
    scene.nodes.push(node(3, Some(mesh(0)), None));
    scene.nodes[3].visible = false;
    let sizes = vec![
        MeshSize { handle: mesh(0), vertices: 4, indices: 6 },
        MeshSize { handle: mesh(1), vertices: 2, indices: 6 },
    ];
    assert_eq!(scene.pick_targets(&sizes), vec![PickTarget { node: h(0), mesh: mesh(0) }]);
    let hits = vec![
        MeshHit { node: h(0), mesh: mesh(0), t: f(3.0) },
        MeshHit { node: h(1), mesh: mesh(1), t: f(2.0) },
    ];
    assert_eq!(pick_mesh(&hits), Some(hits[1]));
    assert_eq!(pick_mesh(&Vec::new()), None);
}

#[test]
fn the_brush_covers_what_it_reaches() {
    let d = vec![f(0.0), f(0.5), f(0.6), f(0.50001)];
    assert_eq!(collect_brush_verts(&d, f(0.5)), vec![0, 1]);
    assert_eq!(collect_brush_verts(&d, f(0.0)), vec![0]);
    assert_eq!(collect_brush_verts(&vec![f(0.00005)], f(-1.0)), vec![0]);
}

#[test]
fn strokes_need_the_active_shape() {
    let scene = shaped_scene();
    let mut rig = RigDocument::default();
    let hit = Some(PickTarget { node: h(0), mesh: mesh(0) });
    let tri = vec![0u32, 1, 2];
    assert!(begin_stroke(&scene, &rig, hit, vec![vert(0)], 3, &tri).is_none());
    rig.active_mesh = Some(mesh(0));
    rig.active_shape = Some(1);
    assert!(begin_stroke(&scene, &rig, hit, vec![vert(0)], 3, &tri).is_none());
    rig.active_shape = Some(0);
    assert!(begin_stroke(&scene, &rig, None, vec![vert(0)], 3, &tri).is_none());
    assert!(begin_stroke(&scene, &rig, hit, Vec::new(), 3, &tri).is_none());
    rig.brush_kind = BrushKind::Grab;
    let d = begin_stroke(&scene, &rig, hit, vec![vert(0)], 3, &tri).unwrap();
    assert_eq!(d.shape, 0);
    assert!(d.adjacency.is_empty());
    rig.brush_kind = BrushKind::Smooth;
    let d = begin_stroke(&scene, &rig, hit, vec![vert(0)], 3, &tri).unwrap();
    assert_eq!(d.adjacency.len(), 3);
}

#[test]
fn strokes_follow_the_pointer_on_their_mesh() {
    let scene = shaped_scene();
    let mut rig = RigDocument::default();
    rig.active_mesh = Some(mesh(0));
    rig.active_shape = Some(0);
    rig.brush_kind = BrushKind::Smooth;
    let hit = Some(PickTarget { node: h(0), mesh: mesh(0) });
    let off = Some(PickTarget { node: h(1), mesh: mesh(1) });
    let tri = vec![0u32, 1, 2];
    let mut d = begin_stroke(&scene, &rig, hit, vec![vert(0)], 4, &tri).unwrap();
    match d.apply_stroke(off, vec![vert(1)], 4, &tri, false) {
        StrokeWork::Smooth { jobs } => {
            assert_eq!(jobs.len(), 1);
            assert_eq!(jobs[0].vertex, 0);
            assert_eq!(jobs[0].neighbours, vec![1, 2]);
        }
        _ => panic!("not smooth"),
    }
    match d.apply_stroke(hit, vec![vert(3), vert(2)], 4, &tri, false) {
        StrokeWork::Smooth { jobs } => {
            assert_eq!(jobs.len(), 1);
            assert_eq!(jobs[0].vertex, 2);
        }
        _ => panic!("not smooth"),
    }
    assert!(matches!(d.apply_stroke(hit, Vec::new(), 4, &tri, false), StrokeWork::Nothing));
    d.kind = BrushKind::Inflate;
    assert!(matches!(
        d.apply_stroke(hit, vec![vert(1)], 4, &tri, true),
        StrokeWork::Inflate { inwards: true }
    ));
    d.kind = BrushKind::Grab;
    assert!(matches!(d.apply_stroke(hit, vec![vert(2)], 4, &tri, true), StrokeWork::Grab));
    assert_eq!(d.verts, vec![vert(1)]);
}

#[test]
fn the_overlay_shows_what_selected_bones_pull() {
    let scene = Scene {
        nodes: vec![node(0, Some(mesh(0)), Some(skin(0))), node(1, None, None), node(2, None, None)],
        skins: vec![Skin { handle: skin(0), joints: vec![h(1), h(2)] }],
        meshes: Vec::new(),
    };
    let one = |j: u16, w: f32| ([j, 0, 0, 0], [f(w), f(0.0), f(0.0), f(0.0)]);
    let verts = [one(1, 1.0), one(1, 0.5), one(0, 1.0), one(0, 1.0), one(9, 1.0)];
    let ms = vec![MeshSkin {
        handle: mesh(0),
        vertices: 5,
        joints: Some(verts.iter().map(|v| v.0).collect()),
        weights: Some(verts.iter().map(|v| v.1).collect()),
        indices: vec![0, 1, 2, 2, 3, 4, 0, 1, 7],
    }];
    let mut rig = RigDocument::default();
    assert!(rig.rebuild_weight_overlay(&scene, &ms).is_empty());
    rig.set_selection(b(2));
    let parts = rig.rebuild_weight_overlay(&scene, &ms);
    assert_eq!(parts.len(), 1);
    assert_eq!(parts[0].part.node, h(0));
    assert_eq!(parts[0].faces.len(), 1);
    assert_eq!(parts[0].faces[0].face, Face { a: 0, b: 1, c: 2 });
    assert_eq!(parts[0].faces[0].weight, f(1.0));
    assert_eq!(parts[0].needed, vec![true, true, true, false, false]);
    rig.set_selection(b(7));
    assert!(rig.rebuild_weight_overlay(&scene, &ms).is_empty());
}

#[test]
fn the_overlay_is_made_anew_once() {
    let mut rig = RigDocument::default();
    rig.show_weights = true;
    assert!(!rig.overlay_shown());
    rig.set_selection(b(1));
    assert!(rig.overlay_shown());
    assert!(rig.overlay_stale());
    let p: Vec3 = splat3(f(0.0));
    let color = Color { r: f(1.0), g: f(1.0), b: f(1.0), a: f(1.0) };
    rig.overlay_rebuilt(vec![OverlayTri { a: p, b: p, c: p, color }]);
    assert!(!rig.overlay_stale());
    assert_eq!(rig.weight_overlay.tris.len(), 1);
    rig.invalidate_weight_overlay();
    assert!(rig.overlay_stale());
}

#[test]
fn the_best_ring_is_picked() {
    let hit = |e: f32, s: f32| Some(RingHit { error: f(e), score: f(s) });
    assert_eq!(pick_rotate_axis(hit(0.1, 3.0), hit(0.1, 2.0), None), Some(GizmoAxis::Y));
    assert_eq!(pick_rotate_axis(hit(0.1, 2.0), hit(0.1, 2.0), None), Some(GizmoAxis::X));
    assert_eq!(pick_rotate_axis(hit(0.1, 3.0), hit(0.5, 2.0), None), Some(GizmoAxis::X));
    assert_eq!(pick_rotate_axis(None, None, hit(0.5, 1.0)), None);
    assert_eq!(rotate_axes(), vec![GizmoAxis::X, GizmoAxis::Y, GizmoAxis::Z]);
}

#[test]
fn arrows_and_squares_compete() {
    let mut hits = HandleHits {
        x: f(0.5),
        y: f(0.05),
        z: f(0.5),
        reach: f(0.1),
        xy: None,
        yz: None,
        zx: None,
    };
    assert_eq!(pick_translate_axis(&hits), Some(GizmoAxis::Y));
    hits.yz = Some(f(0.01));
    assert_eq!(pick_translate_axis(&hits), Some(GizmoAxis::Yz));
    hits.yz = None;
    hits.y = f(0.1);
    assert_eq!(pick_translate_axis(&hits), None);
}

#[test]
fn handles_move_in_their_frame() {
    let x = handle_frame(GizmoAxis::X).unwrap();
    assert_eq!((x.along, x.also, x.normal, x.u, x.v), (Side::X, None, Side::X, Side::Y, Side::Z));
    let zx = handle_frame(GizmoAxis::Zx).unwrap();
    assert_eq!((zx.along, zx.also, zx.normal), (Side::Z, Some(Side::X), Side::Y));
    assert!(handle_frame(GizmoAxis::Uniform).is_none());
    assert_eq!(world_axis_of(GizmoAxis::Z), Side::Z);
    assert_eq!(world_axis_of(GizmoAxis::Xy), Side::Y);
    assert_eq!(highlight(None, Some(GizmoAxis::Y)), Some(GizmoAxis::Y));
    assert_eq!(highlight(Some(GizmoAxis::X), Some(GizmoAxis::Y)), Some(GizmoAxis::X));
}

#[test]
fn drags_take_existing_bones() {
    let scene = shaped_scene();
    assert_eq!(drag_bones(&scene, b(0), &Vec::new()), Some(vec![b(0)]));
    assert_eq!(drag_bones(&scene, b(0), &vec![b(4), b(0)]), Some(vec![b(0)]));
    assert_eq!(drag_bones(&scene, b(4), &Vec::new()), None);
}
