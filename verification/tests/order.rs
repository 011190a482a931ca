use model_rig::geom::Scalar;
use model_rig::inspector::{length_dragged, offset_dragged};

fn s(x: f32) -> Scalar {
    Scalar { bits: x.to_bits() }
}

#[test]
fn less_agrees_with_floats() {
    let xs = [
        0.0f32,
        -0.0,
        1.0,
        -1.0,
        0.05,
        f32::MAX,
        f32::MIN,
        f32::INFINITY,
        f32::NEG_INFINITY,
        f32::NAN,
        f32::MIN_POSITIVE,
        1e-45,
        -1e-45,
    ];
    for &a in &xs {
        for &b in &xs {
            assert_eq!(s(a).less(&s(b)), a < b, "{} {}", a, b);
            assert_eq!(
                s(a).precedes(&s(b)),
                a.total_cmp(&b) == std::cmp::Ordering::Less
            );
        }
    }
    assert_eq!(s(0.05).bits, model_rig::order::BITS_0_05);
}

#[test]
fn bounds_hold() {
    assert_eq!(s(1.0).or_smaller(&s(2.0)), s(1.0));
    assert_eq!(s(f32::NAN).or_smaller(&s(2.0)), s(2.0));
    assert_eq!(s(3.0).or_larger(&s(f32::NAN)), s(3.0));
    let (len, off) = length_dragged(s(4.0), s(-3.0));
    assert_eq!((len, off), (s(1.0), s(-0.5)));
    assert_eq!(offset_dragged(s(0.0)), s(0.001));
}
