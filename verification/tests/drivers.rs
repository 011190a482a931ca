use model_rig::bone_list::BoneRow;
use model_rig::bones::BoneId;
use model_rig::driver::{Driver, DriverVal, NodeLink, NodeSpace};
use model_rig::evaluate::DriverPass;
use model_rig::geom::{identity_quat, splat3, Scalar, Transform, Vec2, Vec3};
use model_rig::graph::{BoneSetOp, MathOp, MorphWrite};
use model_rig::kinds::{DriverNodeKind, DriverSpace, PortType};
use model_rig::node_body::Field;
use model_rig::rig::RigDocument;
use model_rig::scene::{Mesh, MeshHandle, Node, NodeHandle, Scene};

fn f(x: f32) -> Scalar {
    Scalar { bits: x.to_bits() }
}

fn at(x: f32, y: f32) -> Vec2 {
    Vec2 { x: f(x), y: f(y) }
}

fn v3(x: f32, y: f32, z: f32) -> Vec3 {
    Vec3 { x: f(x), y: f(y), z: f(z) }
}

fn space() -> NodeSpace {
    NodeSpace {
        pan: at(0.0, 0.0),
        links: Vec::new(),
        next_link_id: 1,
        selected_nodes: Vec::new(),
        selected_link: None,
    }
}

fn still() -> Transform {
    Transform { translation: v3(0.0, 0.0, 0.0), rotation: identity_quat(), scale: splat3(f(1.0)) }
}

fn h(i: u32) -> NodeHandle {
    NodeHandle { index: i, generation: 0 }
}

fn math(op: MathOp) -> DriverVal {
    match op {
        MathOp::Add(a, b) => {
            DriverVal::F(f(f32::from_bits(a.bits) + f32::from_bits(b.bits)))
        }
        _ => DriverVal::F(f(0.0)),
    }
}

fn trs(_: BoneId, _: DriverSpace) -> Option<Transform> {
    Some(Transform { translation: v3(1.0, 2.0, 3.0), ..still() })
}

fn show(_: DriverVal) -> String {
    "shown".to_string()
}

#[test]
fn spawned_nodes_have_distinct_ids() {
    let mut d = Driver::new(3, "D".to_string(), space());
    let a = d.spawn_node(DriverNodeKind::Float, at(0.0, 0.0));
    let b = d.spawn_node(DriverNodeKind::Float, at(0.0, 0.0));
    assert_ne!(a, b);
    d.apply_deletes(&vec![b.clone()], Vec::new());
    let c = d.spawn_node(DriverNodeKind::Float, at(0.0, 0.0));
    assert_ne!(a, c);
    assert_ne!(b, c);
}

#[test]
fn an_input_has_one_link() {
    let mut d = Driver::new(1, "D".to_string(), space());
    let a = d.spawn_node(DriverNodeKind::Float, at(0.0, 0.0));
    let b = d.spawn_node(DriverNodeKind::Float, at(0.0, 0.0));
    let c = d.spawn_node(DriverNodeKind::Add, at(0.0, 0.0));
    d.connect(&a, "value", &c, "a").unwrap();
    d.connect(&b, "value", &c, "a").unwrap();
    d.connect(&a, "value", &c, "b").unwrap();
    assert_eq!(d.space.links.len(), 2);
    assert_eq!(d.space.links[0].from_node, b);
    assert_eq!(d.space.links[0].id, 2);
    assert!(d.space.links[0].ty == PortType::Float);
    assert_eq!(d.space.next_link_id, 4);
    assert_eq!(d.connect("x", "out", &c, "a").err(), Some("unknown node 'x'".to_string()));
    assert_eq!(d.connect(&a, "out", "y", "a").err(), Some("unknown node 'y'".to_string()));
    assert_eq!(d.space.links.len(), 2);
}

#[test]
fn values_convert() {
    assert_eq!(DriverVal::F(f(2.0)).as_f(), f(2.0));
    assert_eq!(DriverVal::V3(v3(4.0, 5.0, 6.0)).as_v3(), v3(4.0, 5.0, 6.0));
    assert_eq!(DriverVal::Q(identity_quat()).as_q(), identity_quat());
}

#[test]
fn clones_are_shifted_and_renamed() {
    let mut d = Driver::new(1, "D".to_string(), space());
    let a = d.spawn_node(DriverNodeKind::Float, at(1.0, 2.0));
    let shift = |p: Vec2| at(f32::from_bits(p.x.bits) + 20.0, f32::from_bits(p.y.bits) + 20.0);
    let pairs = d.apply_clones(&vec![a.clone(), "nobody".to_string()], &shift);
    assert_eq!(pairs.len(), 1);
    assert_eq!(pairs[0].0, a);
    assert_ne!(pairs[0].1, a);
    assert_eq!(d.nodes.len(), 2);
    assert_eq!(d.nodes[1].id, pairs[0].1);
    assert_eq!(d.nodes[1].pos, at(21.0, 22.0));
}

#[test]
fn a_sum_reaches_its_morph() {
    let mesh = MeshHandle { index: 0, generation: 0 };
    let mut d = Driver::new(1, "D".to_string(), space());
    let a = d.spawn_node(DriverNodeKind::Float, at(0.0, 0.0));
    let b = d.spawn_node(DriverNodeKind::Add, at(0.0, 0.0));
    let c = d.spawn_node(DriverNodeKind::MorphSet, at(0.0, 0.0));
    let i = d.find(&a).unwrap();
    d.nodes[i].floats[0] = f(0.25);
    let k = d.find(&c).unwrap();
    d.nodes[k].mesh = Some(mesh);
    d.nodes[k].shape = 1;
    d.connect(&a, "value", &b, "a").unwrap();
    d.connect(&a, "value", &b, "b").unwrap();
    d.connect(&b, "out", &c, "in").unwrap();
    assert!(d.drives_morph(mesh, 1));
    assert!(!d.drives_morph(mesh, 0));
    let rig = RigDocument::default();
    let (bones, morphs) = rig.eval_graph(&mut d, &math, &trs, &show);
    assert!(bones.is_empty());
    assert_eq!(morphs, vec![MorphWrite { mesh, shape: 1, weight: f(0.5) }]);
}

#[test]
fn morph_writes_are_kept_in_range_and_last_wins() {
    let mesh = MeshHandle { index: 0, generation: 0 };
    let mut scene = Scene {
        nodes: Vec::new(),
        skins: Vec::new(),
        meshes: vec![Mesh {
            handle: mesh,
            morph_targets: vec!["A".to_string(), "B".to_string()],
            morph_weights: Vec::new(),
        }],
    };
    let touched = scene.write_morphs(&vec![
        MorphWrite { mesh, shape: 1, weight: f(0.3) },
        MorphWrite { mesh, shape: 1, weight: f(7.0) },
        MorphWrite { mesh, shape: 5, weight: f(0.5) },
    ]);
    assert_eq!(touched, vec![mesh]);
    assert_eq!(scene.meshes[0].morph_weights, vec![f(0.0), f(1.0)]);
}

#[test]
fn disabled_drivers_write_nothing() {
    let mut rig = RigDocument::default();
    rig.create_driver(space());
    let d = &mut rig.drivers[0];
    let a = d.spawn_node(DriverNodeKind::MorphSet, at(0.0, 0.0));
    let i = d.find(&a).unwrap();
    d.nodes[i].mesh = Some(MeshHandle { index: 2, generation: 0 });
    let b = d.spawn_node(DriverNodeKind::Float, at(0.0, 0.0));
    d.connect(&b, "value", &a, "in").unwrap();
    let on = rig.evaluate_drivers(DriverPass::PostIk, &math, &trs, &show);
    assert_eq!(on.morphs.len(), 1);
    assert_eq!(on.blend, f(1.0));
    let pre = rig.evaluate_drivers(DriverPass::PreIk, &math, &trs, &show);
    assert!(pre.morphs.is_empty());
    assert_eq!(pre.blend, f(0.55));
    rig.drivers[0].enabled = false;
    let off = rig.evaluate_drivers(DriverPass::PostIk, &math, &trs, &show);
    assert!(off.morphs.is_empty());
}

#[test]
fn a_bone_set_writes_only_what_it_sets() {
    let mut scene = Scene {
        nodes: vec![Node {
            handle: h(0),
            name: "Arm".to_string(),
            parent: None,
            local: still(),
            mesh: None,
            skin: None,
            visible: true,
        }],
        skins: Vec::new(),
        meshes: Vec::new(),
    };
    let driven = Transform {
        translation: v3(1.0, 1.0, 1.0),
        rotation: identity_quat(),
        scale: splat3(f(2.0)),
    };
    let mut op = BoneSetOp {
        bone: BoneId { node: h(0) },
        space: DriverSpace::Local,
        pos: Some(v3(1.0, 1.0, 1.0)),
        rot: None,
        scale: None,
    };
    scene.apply_bone_set(&op, driven);
    assert_eq!(scene.nodes[0].local.translation, v3(1.0, 1.0, 1.0));
    assert_eq!(scene.nodes[0].local.scale, splat3(f(1.0)));
    op.scale = Some(splat3(f(2.0)));
    scene.apply_bone_set(&op, driven);
    assert_eq!(scene.nodes[0].local, driven);
    op.bone = BoneId { node: h(9) };
    scene.apply_bone_set(&op, still());
    assert_eq!(scene.nodes[0].local, driven);
}

#[test]
fn removed_shapes_shift_the_indices() {
    let mesh = MeshHandle { index: 0, generation: 0 };
    let mut d = Driver::new(1, "D".to_string(), space());
    for shape in [0usize, 1, 2] {
        let id = d.spawn_node(DriverNodeKind::MorphSet, at(0.0, 0.0));
        let i = d.find(&id).unwrap();
        d.nodes[i].mesh = Some(mesh);
        d.nodes[i].shape = shape;
    }
    d.on_shape_removed(mesh, 1);
    assert_eq!(d.nodes[0].shape, 0);
    assert_eq!(d.nodes[0].mesh, Some(mesh));
    assert_eq!(d.nodes[2].shape, 1);
    assert!(!d.drives_morph(mesh, 2));
}

#[test]
fn links_given_back_after_deletes_stay() {
    let mut d = Driver::new(1, "D".to_string(), space());
    let a = d.spawn_node(DriverNodeKind::Float, at(0.0, 0.0));
    let b = d.spawn_node(DriverNodeKind::Add, at(0.0, 0.0));
    let link = NodeLink {
        id: 9,
        from_node: a.clone(),
        from_port: "out".to_string(),
        to_node: b,
        to_port: "a".to_string(),
        ty: PortType::Float,
    };
    d.apply_deletes(&vec![a], vec![link]);
    assert_eq!(d.nodes.len(), 1);
    assert_eq!(d.space.links.len(), 1);
}

/// What a Clamp node with bounds `a` and `b` makes of `x`.
fn clamp_of(x: f32, a: f32, b: f32) -> Scalar {
    let mesh = MeshHandle { index: 0, generation: 0 };
    let mut d = Driver::new(1, "D".to_string(), space());
    let num = d.spawn_node(DriverNodeKind::Float, at(0.0, 0.0));
    let cut = d.spawn_node(DriverNodeKind::Clamp, at(0.0, 0.0));
    let out = d.spawn_node(DriverNodeKind::MorphSet, at(0.0, 0.0));
    d.nodes[0].floats[0] = f(x);
    d.nodes[1].floats[0] = f(a);
    d.nodes[1].floats[1] = f(b);
    d.nodes[2].mesh = Some(mesh);
    d.connect(&num, "value", &cut, "in").unwrap();
    d.connect(&cut, "out", &out, "in").unwrap();
    let rig = RigDocument::default();
    let (_, morphs) = rig.eval_graph(&mut d, &math, &trs, &show);
    morphs[0].weight
}

#[test]
fn clamp_nodes_keep_values_between_their_bounds() {
    assert_eq!(clamp_of(0.9, 0.2, 0.6), f(0.6));
    assert_eq!(clamp_of(0.1, 0.6, 0.2), f(0.2));
    assert_eq!(clamp_of(0.4, 0.2, 0.6), f(0.4));
    assert_eq!(clamp_of(0.9, f32::NAN, 0.5), f(0.5));
}

#[test]
fn weights_of_rotations_are_kept_between_zero_and_one() {
    let mut d = Driver::new(1, "D".to_string(), space());
    d.spawn_node(DriverNodeKind::QuatScale, at(0.0, 0.0));
    d.nodes[0].floats[0] = f(7.0);
    let seen = |op: MathOp| match op {
        MathOp::QuatScale(q, t) => {
            assert_eq!(t, f(1.0));
            DriverVal::Q(q)
        }
        _ => panic!("another operation"),
    };
    let rig = RigDocument::default();
    rig.eval_graph(&mut d, &seen, &trs, &show);
    assert_eq!(d.nodes[0].preview, "shown");
}

#[test]
fn a_bone_is_written_in_one_pass() {
    let mut rig = RigDocument::default();
    let mut scene = Scene { nodes: Vec::new(), skins: Vec::new(), meshes: Vec::new() };
    rig.insert_bone(&mut scene, h(0), "Root", None, still(), true);
    rig.create_driver(space());
    let get = rig.drivers[0].spawn_node(DriverNodeKind::BoneGet, at(0.0, 0.0));
    let set = rig.drivers[0].spawn_node(DriverNodeKind::BoneSet, at(0.0, 0.0));
    for n in rig.drivers[0].nodes.iter_mut() {
        n.bone = Some(BoneId { node: h(0) });
    }
    rig.drivers[0].connect(&get, "pos", &set, "pos").unwrap();
    assert!(rig.evaluate_drivers(DriverPass::PreIk, &math, &trs, &show).bones.is_empty());
    let plan = rig.evaluate_drivers(DriverPass::PostIk, &math, &trs, &show);
    assert_eq!(plan.bones.len(), 1);
    assert_eq!(plan.bones[0].pos, Some(v3(1.0, 2.0, 3.0)));
    assert_eq!(plan.bones[0].rot, None);
}

#[test]
fn fields_of_a_node_change_one_thing_each() {
    let mesh = MeshHandle { index: 2, generation: 0 };
    let bone = BoneId { node: h(4) };
    let rows = vec![BoneRow { id: bone, name: "Arm".to_string() }];
    let mut d = Driver::new(1, "D".to_string(), space());
    d.spawn_node(DriverNodeKind::MapRange, at(0.0, 0.0));
    let n = &mut d.nodes[0];
    n.set_number(Field::OutFrom, f(7.0));
    n.set_number(Field::InTo, f(8.0));
    assert_eq!((n.floats[2], n.floats[1]), (f(7.0), f(8.0)));
    n.set_triple(v3(1.0, 2.0, 3.0));
    assert_eq!(n.floats[..3], [f(1.0), f(2.0), f(3.0)]);
    n.set_bone(&rows, 1);
    assert_eq!(n.bone, Some(bone));
    assert_eq!(n.set_bone_from(None), "Select a bone in the viewport first");
    assert_eq!(n.bone, Some(bone));
    n.set_bone(&rows, 0);
    assert_eq!(n.bone, None);
    assert_eq!(n.set_bone_from(Some(bone)), "Bone ← selection");
    assert_eq!(n.bone, Some(bone));
    n.set_space(1);
    assert_eq!(n.space, DriverSpace::World);
    n.set_morph(None);
    assert_eq!(n.mesh, None);
    n.set_morph(Some((mesh, 3)));
    assert_eq!((n.mesh, n.shape), (Some(mesh), 3));
    n.set_pos(at(4.0, 5.0));
    assert_eq!(n.pos, at(4.0, 5.0));
    assert_eq!(n.floats[..3], [f(1.0), f(2.0), f(3.0)]);
}
