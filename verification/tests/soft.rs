use model_rig::bones::BoneId;
use model_rig::geom::{identity_quat, splat3, Quat, Scalar, Transform, Vec3};
use model_rig::pull::pull_joints;
use model_rig::rig::{AppMode, RigDocument};
use model_rig::rig_chains::{CapsuleGeometry, IkGeometry, SoftGeometry};
use model_rig::scene::{NodeHandle, Scene};
use model_rig::soft_sim::{SoftOp, SUBSTEPS};

fn f(x: f32) -> Scalar {
    Scalar { bits: x.to_bits() }
}

fn v3(x: f32, y: f32, z: f32) -> Vec3 {
    Vec3 { x: f(x), y: f(y), z: f(z) }
}

fn moved(y: f32) -> Transform {
    Transform { translation: v3(0.0, y, 0.0), rotation: identity_quat(), scale: splat3(f(1.0)) }
}

fn turned() -> Quat {
    Quat { x: f(1.0), y: f(0.0), z: f(0.0), w: f(0.0) }
}

fn h(i: u32) -> NodeHandle {
    NodeHandle { index: i, generation: 0 }
}

fn b(i: u32) -> BoneId {
    BoneId { node: h(i) }
}

fn geometry(n: usize) -> SoftGeometry {
    SoftGeometry {
        lengths: vec![f(1.0); n],
        tip_length: f(0.65),
        support_normal_local: v3(0.0, 1.0, 0.0),
    }
}

fn capsule() -> CapsuleGeometry {
    CapsuleGeometry { a_local: v3(0.0, 0.0, 0.0), b_local: v3(0.0, 1.0, 0.0), radius: f(0.35) }
}

/// A root with two strands of two bones: 1, 2 and 11, 12, each a soft chain.
fn strands() -> (RigDocument, Scene) {
    let mut rig = RigDocument::default();
    let mut scene = Scene { nodes: Vec::new(), skins: Vec::new(), meshes: Vec::new() };
    rig.insert_bone(&mut scene, h(0), "Root", None, moved(0.0), true);
    for i in [1, 11] {
        rig.insert_bone(&mut scene, h(i), "lock", Some(b(0)), moved(1.0), true);
        rig.insert_bone(&mut scene, h(i + 1), "end", Some(b(i)), moved(1.0), true);
    }
    rig.capture_bind_pose(&scene);
    assert_eq!(rig.create_soft_from_bone(b(1), geometry(2)), Ok(1));
    assert_eq!(rig.create_soft_from_bone(b(12), geometry(2)), Ok(2));
    rig.mode = AppMode::Pose;
    (rig, scene)
}

#[test]
fn soft_chains_start_below_the_fork() {
    let (rig, _) = strands();
    assert_eq!(rig.soft_chains[0].anchor, b(0));
    assert_eq!(rig.soft_chains[0].bones, vec![b(1), b(2)]);
    assert_eq!(rig.soft_chains[1].bones, vec![b(11), b(12)]);
    assert_eq!(rig.plan_soft(b(2)), Err("Bone already in a Soft chain"));
}

#[test]
fn a_frame_of_soft_motion_has_its_order() {
    let (mut rig, _) = strands();
    rig.soft_chains[0].enabled = false;
    let ops = rig.evaluate_soft_chains(Some(2));
    let mut want = vec![SoftOp::Prepare(1)];
    for _ in 0..SUBSTEPS {
        want.push(SoftOp::Integrate(1));
        want.push(SoftOp::Constrain { chain: 1, pulled: true });
        want.push(SoftOp::Collide);
        want.push(SoftOp::Hold(1));
    }
    want.push(SoftOp::Write(1));
    assert_eq!(ops, want);
    rig.mode = AppMode::Edit;
    assert!(rig.evaluate_soft_chains(None).is_empty());
}

#[test]
fn all_chains_move_before_any_is_constrained() {
    let (rig, _) = strands();
    let ops = rig.evaluate_soft_chains(None);
    assert_eq!(
        ops[2..7].to_vec(),
        vec![
            SoftOp::Integrate(0),
            SoftOp::Integrate(1),
            SoftOp::Constrain { chain: 0, pulled: false },
            SoftOp::Constrain { chain: 1, pulled: false },
            SoftOp::Collide,
        ]
    );
    assert_eq!(ops.len(), 2 + SUBSTEPS * 5 + 2);
}

#[test]
fn soft_bones_turn_back_to_bind_in_pose() {
    let (mut rig, mut scene) = strands();
    rig.soft_chains[1].enabled = false;
    for n in scene.nodes.iter_mut() {
        n.local.rotation = turned();
        n.local.translation = v3(5.0, 0.0, 0.0);
    }
    assert!(rig.restore_soft_binds(&mut scene));
    for n in &scene.nodes {
        let held = n.handle == h(1) || n.handle == h(2);
        assert_eq!(n.local.rotation, if held { identity_quat() } else { turned() });
        assert_eq!(n.local.translation, v3(5.0, 0.0, 0.0));
    }
    rig.mode = AppMode::Edit;
    assert!(!rig.restore_soft_binds(&mut scene));
}

#[test]
fn letting_go_takes_the_velocity_out() {
    let (mut rig, _) = strands();
    for c in rig.soft_chains.iter_mut() {
        c.prev_pos = vec![v3(0.0, 0.0, 0.0); 3];
        c.curr_pos = vec![v3(1.0, 2.0, 3.0); 3];
    }
    rig.release_soft_grab(1);
    assert_eq!(rig.soft_chains[0].prev_pos, rig.soft_chains[0].curr_pos);
    assert_eq!(rig.soft_chains[0].grab_relax, f(1.0));
    assert_eq!(rig.soft_chains[1].prev_pos, vec![v3(0.0, 0.0, 0.0); 3]);
}

#[test]
fn every_particle_but_the_root_can_be_grabbed() {
    let (mut rig, _) = strands();
    rig.soft_chains[0].enabled = false;
    rig.soft_chains[1].initialized = true;
    rig.soft_chains[1].curr_pos = vec![v3(0.0, 0.0, 0.0), v3(1.0, 0.0, 0.0), v3(2.0, 0.0, 0.0)];
    let all = rig.soft_candidates();
    assert_eq!(all.len(), 2);
    assert_eq!((all[0].chain_id, all[0].particle, all[0].bone), (2, 1, b(12)));
    assert_eq!(all[0].pos, Some(v3(1.0, 0.0, 0.0)));
    assert!(!all[0].past_tip);
    assert_eq!((all[1].particle, all[1].bone, all[1].past_tip), (2, b(12), true));
    let hit = rig.pick_soft_particle(&vec![Some(f(3.0)), Some(f(2.0))]).unwrap();
    assert_eq!(hit.particle, 2);
    assert!(rig.pick_soft_particle(&vec![None, None]).is_none());
}

#[test]
fn particles_without_a_simulation_stand_on_their_joints() {
    let (rig, _) = strands();
    let all = rig.soft_candidates();
    assert_eq!(all.len(), 4);
    assert!(all.iter().all(|c| c.pos.is_none()));
}

#[test]
fn capsules_ride_on_simulated_bones() {
    let (mut rig, _) = strands();
    rig.create_capsule_collider(b(0), capsule()).unwrap();
    rig.create_capsule_collider(b(12), capsule()).unwrap();
    rig.soft_chains[1].curr_pos = vec![v3(0.0, 0.0, 0.0); 3];
    let places = rig.capsule_places();
    assert_eq!(places[0].soft, None);
    assert_eq!(places[1].soft, Some((1, 1)));
    rig.colliders[0].enabled = false;
    assert_eq!(rig.capsule_places().len(), 1);
    rig.set_selection(b(12));
    rig.show_colliders = true;
    let drawn = rig.drawn_colliders();
    assert_eq!(drawn.len(), 1);
    assert!(drawn[0].1);
    rig.show_colliders = false;
    assert!(rig.drawn_colliders().is_empty());
}

#[test]
fn chains_are_drawn_once_they_have_particles() {
    let (mut rig, _) = strands();
    assert!(rig.drawn_chains().is_empty());
    rig.soft_chains[1].curr_pos = vec![v3(0.0, 0.0, 0.0); 3];
    assert_eq!(rig.drawn_chains(), vec![1]);
    rig.mode = AppMode::Edit;
    assert!(rig.drawn_chains().is_empty());
}

#[test]
fn starting_over_forgets_the_particles() {
    let (mut rig, _) = strands();
    rig.soft_chains[0].initialized = true;
    rig.reset_soft_sim();
    assert!(!rig.soft_chains[0].initialized);
}

#[test]
fn a_pull_goes_from_the_tip_to_the_root() {
    assert_eq!(pull_joints(4, 2), vec![2, 1, 0, 2, 1, 0]);
    assert!(pull_joints(1, 5).is_empty());
    assert!(pull_joints(4, 0).is_empty());
}

#[test]
fn helpers_are_shown_for_enabled_chains() {
    let (mut rig, mut scene) = strands();
    let geo = IkGeometry {
        lengths: vec![f(1.0); 2],
        target_pos: v3(0.0, 3.0, 0.0),
        target_rot: identity_quat(),
        pole_pos: v3(1.0, 1.0, 0.0),
    };
    assert_eq!(rig.plan_ik(b(2), 2), Ok(vec![b(0), b(1)]));
    assert!(rig.plan_ik(b(0), 2).is_err());
    let id = rig.create_ik_from_tip(&mut scene, b(2), 2, h(20), h(21), geo).unwrap();
    assert_eq!(rig.ik_helpers().len(), 1);
    assert!(rig.is_strict_ancestor(b(0), b(2)));
    assert!(!rig.is_strict_ancestor(b(2), b(2)));
    assert!(rig.bone_supports_ik(b(0)));
    assert!(!rig.bone_supports_ik(b(12)));
    rig.set_ik_enabled(id, false);
    assert!(rig.ik_helpers().is_empty());
    assert!(!rig.bone_supports_ik(b(0)));
}
