use which_llm::number::{divide_half_even, power_of_ten, Double};

fn double(x: f64) -> Double {
    Double::from_bits(x.to_bits())
}

const SAMPLES: [f64; 40] = [
    0.0,
    -0.0,
    1.0,
    -1.0,
    0.5,
    1.5,
    2.5,
    0.125,
    0.375,
    0.25,
    0.75,
    0.05,
    0.15,
    1.05,
    1.15,
    62.9,
    55.0,
    0.791,
    153.831,
    14.939,
    1.925,
    2.5e-7,
    0.0075,
    0.004999999,
    0.005,
    0.015,
    0.025,
    1234567.891,
    -0.04,
    -0.06,
    9.995,
    99.995,
    1e15,
    1e20,
    1.7e30,
    4.9e-324,
    2.2250738585072014e-308,
    123456789012345680.0,
    0.1,
    0.3,
];

#[test]
fn fixed_rendering_agrees_with_the_formatting_of_fractions() {
    for x in SAMPLES {
        assert_eq!(double(x).render_fixed(0), format!("{:.0}", x), "{x:?}");
        assert_eq!(double(x).render_fixed(1), format!("{:.1}", x), "{x:?}");
        assert_eq!(double(x).render_fixed(2), format!("{:.2}", x), "{x:?}");
        assert_eq!(double(x).render_fixed(3), format!("{:.3}", x), "{x:?}");
        assert_eq!(double(x).render_fixed(4), format!("{:.4}", x), "{x:?}");
    }
}

#[test]
fn fixed_rendering_of_special_values() {
    assert_eq!(double(f64::NAN).render_fixed(2), "NaN");
    assert_eq!(double(-f64::NAN).render_fixed(2), "NaN");
    assert_eq!(double(f64::INFINITY).render_fixed(2), "inf");
    assert_eq!(double(f64::NEG_INFINITY).render_fixed(2), "-inf");
    assert_eq!(double(f64::MAX).render_fixed(2), "inf");
    assert_eq!(double(-1e300).render_fixed(1), "-inf");
    assert_eq!(double(62.9).render_fixed(2), "62.90");
    assert_eq!(double(0.125).render_fixed(2), "0.12");
    assert_eq!(double(0.375).render_fixed(2), "0.38");
}

#[test]
fn scaling_is_exact() {
    assert_eq!(double(2.5).scaled(1000), Some(2500));
    assert_eq!(double(-2.5).scaled(1000), Some(2500));
    assert_eq!(double(10.0).scaled(500), Some(5000));
    assert_eq!(double(0.5).scaled(1), Some(0));
    assert_eq!(double(1.5).scaled(1), Some(2));
    assert_eq!(double(2.5).scaled(1), Some(2));
    assert_eq!(double(0.0).scaled(u64::MAX), Some(0));
    assert_eq!(double(4.9e-324).scaled(u64::MAX), Some(0));
    assert_eq!(double(f64::NAN).scaled(1), None);
    assert_eq!(double(f64::INFINITY).scaled(1), None);
    assert_eq!(double(1e300).scaled(1), None);
    assert_eq!(
        double(18014398509481984.0).scaled(1),
        Some(18014398509481984)
    );
    assert_eq!(
        double(170141183460469231731687303715884105728.0).scaled(1),
        None
    );
    assert_eq!(
        double(85070591730234615865843651857942052864.0).scaled(1),
        Some(85070591730234615865843651857942052864)
    );
    assert_eq!(
        double(85070591730234615865843651857942052864.0).scaled(2),
        None
    );
}

#[test]
fn flags_of_bit_patterns() {
    assert!(double(1.0).is_finite());
    assert!(!double(f64::INFINITY).is_finite());
    assert!(!double(f64::NAN).is_finite());
    assert!(double(f64::NAN).is_nan());
    assert!(!double(f64::INFINITY).is_nan());
    assert!(double(-0.0).is_negative());
    assert!(!double(0.0).is_negative());
    assert_eq!(double(62.9).to_bits(), 62.9f64.to_bits());
    assert_eq!(double(62.9), Double { bits: 62.9f64.to_bits() });
}

#[test]
fn half_even_division_and_powers_of_ten() {
    assert_eq!(divide_half_even(5, 10), 0);
    assert_eq!(divide_half_even(15, 10), 2);
    assert_eq!(divide_half_even(25, 10), 2);
    assert_eq!(divide_half_even(26, 10), 3);
    assert_eq!(divide_half_even(24, 10), 2);
    assert_eq!(divide_half_even(u128::MAX - 1, 2), u128::MAX / 2);
    assert_eq!(power_of_ten(0), 1);
    assert_eq!(power_of_ten(6), 1_000_000);
    assert_eq!(power_of_ten(18), 1_000_000_000_000_000_000);
}
