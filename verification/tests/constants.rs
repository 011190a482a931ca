use model_rig::cpu_profile::{BITS_0_005, BITS_3};
use model_rig::driver::{BITS_0_35, BITS_20, BITS_45, BITS_90};
use model_rig::evaluate::BITS_0_55;
use model_rig::geom::{BITS_0_001, BITS_0_01, BITS_ONE, BITS_ZERO};
use model_rig::gizmo::BITS_0_45;
use model_rig::inspector::BITS_MINUS_0_5;
use model_rig::node_body::{BITS_0_1, BITS_0_5};
use model_rig::order::BITS_0_05;
use model_rig::rig_chains::{BITS_2_5, BITS_95_DEGREES, BITS_9_8, BITS_SOFTNESS, BITS_STIFFNESS};
use model_rig::rig_pose::BITS_FIRST_BONE;
use model_rig::rig_select::{BITS_0_08, BITS_0_65};
use model_rig::sculpt::BITS_0_0001;
use model_rig::tools::BITS_5;

#[test]
fn bit_patterns_are_those_of_the_numbers() {
    let pairs: [(u32, f32); 24] = [
        (BITS_ZERO, 0.0),
        (BITS_ONE, 1.0),
        (BITS_0_005, 0.005),
        (BITS_3, 3.0),
        (BITS_0_35, 0.35),
        (BITS_5, 5.0),
        (BITS_20, 20.0),
        (BITS_45, 45.0),
        (BITS_90, 90.0),
        (BITS_0_55, 0.55),
        (BITS_0_45, 0.45),
        (BITS_0_001, 0.001),
        (BITS_0_01, 0.01),
        (BITS_0_1, 0.1),
        (BITS_0_5, 0.5),
        (BITS_MINUS_0_5, -0.5),
        (BITS_0_05, 0.05),
        (BITS_2_5, 2.5),
        (BITS_9_8, 9.8),
        (BITS_SOFTNESS, 0.35),
        (BITS_STIFFNESS, 45.0),
        (BITS_FIRST_BONE, 0.35),
        (BITS_0_08, 0.08),
        (BITS_0_65, 0.65),
    ];
    for (bits, x) in pairs {
        assert_eq!(bits, x.to_bits(), "{}", x);
    }
    assert_eq!(BITS_0_0001, 1e-4f32.to_bits());
    assert_eq!(BITS_95_DEGREES, 95.0f32.to_radians().to_bits());
}
