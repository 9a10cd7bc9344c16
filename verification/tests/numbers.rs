//! Bit patterns compare like the numbers they stand for.

use bevy_particles_and_trails::Scalar;

fn s(x: f32) -> Scalar {
    Scalar::from_bits(x.to_bits())
}

fn samples() -> Vec<f32> {
    vec![
        0.0,
        -0.0,
        1.0,
        -1.0,
        0.9,
        -0.9,
        5.0,
        1.0e-45,
        -1.0e-45,
        f32::MIN_POSITIVE,
        f32::MAX,
        f32::MIN,
        f32::INFINITY,
        f32::NEG_INFINITY,
        f32::NAN,
        -f32::NAN,
        0.5,
        1.5,
        123456.78,
        -3.25,
    ]
}

#[test]
fn order_is_that_of_the_numbers() {
    for a in samples() {
        assert_eq!(s(a).is_finite(), a.is_finite());
        assert_eq!(s(a).is_nan(), a.is_nan());
        assert_eq!(s(a).abs().bits, a.abs().to_bits());
        for b in samples() {
            assert_eq!(s(a).lt(s(b)), a < b, "{a} < {b}");
            assert_eq!(s(a).le(s(b)), a <= b, "{a} <= {b}");
            assert_eq!(s(a).num_eq(s(b)), a == b, "{a} == {b}");
        }
    }
}

#[test]
fn max_and_clamp_are_those_of_the_numbers() {
    for a in samples() {
        let clamped = f32::from_bits(s(a).clamp_unit().bits);
        let expected = a.clamp(0.0, 1.0);
        assert!(clamped == expected || (clamped.is_nan() && expected.is_nan()));
        for b in samples() {
            let larger = f32::from_bits(s(a).max(s(b)).bits);
            let expected = a.max(b);
            assert!(larger == expected || (larger.is_nan() && expected.is_nan()), "{a} {b}");
        }
    }
}

#[test]
fn constants_are_their_numbers() {
    assert_eq!(Scalar::zero(), s(0.0));
    assert_eq!(Scalar::one(), s(1.0));
    assert_eq!(Scalar::neg_one(), s(-1.0));
    assert_eq!(Scalar::infinity(), s(f32::INFINITY));
}
