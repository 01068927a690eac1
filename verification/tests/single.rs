use netrender::single::Single;

fn f(x: f32) -> Single {
    Single::from_bits(x.to_bits())
}

const SAMPLES: [f32; 16] = [
    0.0,
    -0.0,
    1.0,
    -1.0,
    0.5,
    1.5,
    -1.5,
    2.0,
    f32::MIN_POSITIVE,
    1.0e-45,
    -1.0e-45,
    f32::MAX,
    f32::MIN,
    f32::INFINITY,
    f32::NEG_INFINITY,
    f32::NAN,
];

#[test]
fn comparisons_agree_with_the_machine() {
    for a in SAMPLES {
        for b in SAMPLES {
            assert_eq!(f(a).equals(f(b)), a == b, "{a} {b}");
            assert_eq!(f(a).less_than(f(b)), a < b, "{a} {b}");
            assert_eq!(f(a).at_most(f(b)), a <= b, "{a} {b}");
        }
        assert_eq!(f(a).is_nan(), a.is_nan());
    }
}

#[test]
fn clamping_agrees_with_the_machine() {
    for a in SAMPLES {
        assert_eq!(f(a).clamp_unit().to_bits(), a.clamp(0.0, 1.0).to_bits(), "{a}");
    }
}

#[test]
fn rounding_agrees_with_the_machine() {
    let mut x: u32 = 1;
    let mut samples = vec![0, 1, 2, 3, 63, 64, 65, 16777215, 16777216, 16777217, 16777218];
    samples.extend([16777219, 33554434, 33554435, 33554438, 33554442, u32::MAX, u32::MAX - 1]);
    samples.extend([0xFFFF_FF00, 0xFFFF_FF7F, 0xFFFF_FF80, 0xFFFF_FF81, 0x8000_0080, 0x8000_0180]);
    for _ in 0..20000 {
        x = x.wrapping_mul(1664525).wrapping_add(1013904223);
        samples.push(x);
        samples.push(x >> 7);
        samples.push(x >> 19);
    }
    for sample in samples {
        assert_eq!(Single::from_u32(sample).to_bits(), (sample as f32).to_bits(), "{sample}");
    }
}

#[test]
fn zero_and_one_are_what_they_say() {
    assert_eq!(Single::zero().to_bits(), 0.0f32.to_bits());
    assert_eq!(Single::one().to_bits(), 1.0f32.to_bits());
}
