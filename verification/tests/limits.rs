use run_report::limits::{
    scaled_limit_of, ResourceLimits, ScaleFactor, DEFAULT_INPUT_SIZE_LIMIT,
    DEFAULT_INSTRUCTIONS_LIMIT, DEFAULT_OUTPUT_SIZE_LIMIT,
};

fn by_floats(default: u64, scale: f64) -> u64 {
    (scale * default as f64) as u64
}

fn next(state: &mut u64) -> u64 {
    *state = state
        .wrapping_mul(6364136223846793005)
        .wrapping_add(1442695040888963407);
    let mut x = *state;
    x ^= x >> 33;
    x = x.wrapping_mul(0xff51afd7ed558ccd);
    x ^= x >> 33;
    x
}

#[test]
fn scale_one_keeps_the_defaults() {
    let limits = ResourceLimits::scaled(ScaleFactor::one());
    assert_eq!(limits.input_size, 128_000);
    assert_eq!(limits.output_size, 20_000);
    assert_eq!(limits.instructions, 11_000_000);
    assert_eq!(ScaleFactor::one(), ScaleFactor::from_bits(1.0_f64.to_bits()));
}

#[test]
fn fractions_are_dropped_not_rounded() {
    let scale = ScaleFactor::from_bits(1.00001_f64.to_bits());
    assert_eq!(scaled_limit_of(DEFAULT_OUTPUT_SIZE_LIMIT, scale), 20_000);
    assert_eq!(scaled_limit_of(DEFAULT_INPUT_SIZE_LIMIT, scale), 128_001);
    assert_eq!(scaled_limit_of(DEFAULT_INSTRUCTIONS_LIMIT, scale), 11_000_110);
    let scale = ScaleFactor::from_bits(1.99999_f64.to_bits());
    assert_eq!(scaled_limit_of(3, scale), 5);
    let scale = ScaleFactor::from_bits(0.7_f64.to_bits());
    assert_eq!(scaled_limit_of(DEFAULT_OUTPUT_SIZE_LIMIT, scale), 14_000);
    let scale = ScaleFactor::from_bits(2.5_f64.to_bits());
    assert_eq!(scaled_limit_of(DEFAULT_INSTRUCTIONS_LIMIT, scale), 27_500_000);
}

#[test]
fn odd_factors_give_the_ends_of_the_range() {
    assert_eq!(scaled_limit_of(5, ScaleFactor::from_bits(f64::NAN.to_bits())), 0);
    assert_eq!(scaled_limit_of(5, ScaleFactor::from_bits(f64::INFINITY.to_bits())), u64::MAX);
    assert_eq!(scaled_limit_of(0, ScaleFactor::from_bits(f64::INFINITY.to_bits())), 0);
    assert_eq!(scaled_limit_of(5, ScaleFactor::from_bits(f64::NEG_INFINITY.to_bits())), 0);
    assert_eq!(scaled_limit_of(5, ScaleFactor::from_bits((-1.0_f64).to_bits())), 0);
    assert_eq!(scaled_limit_of(5, ScaleFactor::from_bits((-0.0_f64).to_bits())), 0);
    assert_eq!(scaled_limit_of(5, ScaleFactor::from_bits(0.0_f64.to_bits())), 0);
    assert_eq!(scaled_limit_of(5, ScaleFactor::from_bits(1e300_f64.to_bits())), u64::MAX);
    assert_eq!(scaled_limit_of(5, ScaleFactor::from_bits(f64::MAX.to_bits())), u64::MAX);
    assert_eq!(scaled_limit_of(5, ScaleFactor::from_bits(f64::MIN_POSITIVE.to_bits())), 0);
    assert_eq!(scaled_limit_of(u64::MAX, ScaleFactor::from_bits(1.0_f64.to_bits())), u64::MAX);
    assert_eq!(scaled_limit_of(5, ScaleFactor::from_bits(1)), 0);
}

#[test]
fn limits_agree_with_float_arithmetic() {
    let defaults = [
        DEFAULT_INPUT_SIZE_LIMIT,
        DEFAULT_OUTPUT_SIZE_LIMIT,
        DEFAULT_INSTRUCTIONS_LIMIT,
        0,
        1,
        3,
        (1 << 53) + 1,
        u64::MAX,
        u64::MAX - 1024,
        12_345_678_901_234_567,
    ];
    let mut state: u64 = 3;
    for step in 0..4000u64 {
        let scale = step as f64 / 1000.0;
        for default in defaults {
            assert_eq!(
                scaled_limit_of(default, ScaleFactor::from_bits(scale.to_bits())),
                by_floats(default, scale),
                "{} * {}",
                default,
                scale
            );
        }
    }
    for _ in 0..20000 {
        let bits = next(&mut state);
        let scale = f64::from_bits(bits);
        for default in defaults {
            assert_eq!(
                scaled_limit_of(default, ScaleFactor::from_bits(bits)),
                by_floats(default, scale),
                "{} * {:?}",
                default,
                scale
            );
        }
    }
    for _ in 0..20000 {
        let scale = (next(&mut state) >> 11) as f64 / (1u64 << 50) as f64;
        let default = next(&mut state) >> (next(&mut state) % 64);
        assert_eq!(
            scaled_limit_of(default, ScaleFactor::from_bits(scale.to_bits())),
            by_floats(default, scale),
            "{} * {:?}",
            default,
            scale
        );
    }
    for exponent in -70..70 {
        for _ in 0..200 {
            let scale = ((next(&mut state) >> 11) as f64) * 2.0_f64.powi(exponent - 52);
            let default = next(&mut state) >> (next(&mut state) % 64);
            assert_eq!(
                scaled_limit_of(default, ScaleFactor::from_bits(scale.to_bits())),
                by_floats(default, scale),
                "{} * {:?}",
                default,
                scale
            );
        }
    }
}
