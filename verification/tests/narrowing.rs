use ggml_builder::narrow;

fn check(x: f64) {
    let expected = x as f32;
    assert_eq!(narrow(x.to_bits()), expected.to_bits(), "{:e}", x);
    assert_eq!(narrow((-x).to_bits()), (-expected).to_bits(), "{:e}", -x);
}

#[test]
fn ordinary_numbers_are_narrowed() {
    for x in [0.0, 1.0, 0.1, 1e-5, 1e-6, 10000.0, 500000.0, 4096.0, 3.14159265358979, 16777217.0] {
        check(x);
    }
    assert_eq!(narrow(10000.0f64.to_bits()), 0x461c_4000);
    assert_eq!(narrow(1.0f64.to_bits()), 0x3f80_0000);
}

#[test]
fn ties_go_to_the_even_number() {
    check(1.0 + 2f64.powi(-24));
    check(1.0 + 3.0 * 2f64.powi(-24));
    check(1.0 + 2f64.powi(-24) + 2f64.powi(-50));
    assert_eq!(narrow((1.0 + 2f64.powi(-24)).to_bits()), 0x3f80_0000);
    assert_eq!(narrow((1.0 + 3.0 * 2f64.powi(-24)).to_bits()), 0x3f80_0002);
}

#[test]
fn the_ends_of_the_range_are_kept_apart() {
    check(f32::MAX as f64);
    check(f32::MIN_POSITIVE as f64);
    check(f32::MAX as f64 + 2f64.powi(103));
    check(f32::MAX as f64 + 2f64.powi(102));
    check(3.5e38);
    check(f64::MAX);
    check(f64::INFINITY);
    check(f64::MIN_POSITIVE);
    check(5e-324);
    check(2f64.powi(-149));
    check(2f64.powi(-150));
    check(2f64.powi(-150) * 1.0000001);
    check(2f64.powi(-151));
    check(1.5 * 2f64.powi(-149));
    check(2.5 * 2f64.powi(-149));
    check(2f64.powi(-126) - 2f64.powi(-150));
    check(2f64.powi(-127));
}

#[test]
fn not_a_number_stays_such() {
    assert!(f32::from_bits(narrow(f64::NAN.to_bits())).is_nan());
    assert!(f32::from_bits(narrow(0x7ff0_0000_0000_0001)).is_nan());
    assert_eq!(narrow(0x7ff8_0000_0000_0000), 0x7fc0_0000);
    assert_eq!(narrow(0xfff8_0000_2000_0000), 0xffc0_0001);
}

#[test]
fn many_numbers_are_narrowed() {
    let mut state: u64 = 0x9e37_79b9_7f4a_7c15;
    for _ in 0..200000 {
        state = state.wrapping_mul(6364136223846793005).wrapping_add(1442695040888963407);
        let x = f64::from_bits(state);
        if !x.is_nan() {
            check(x);
        }
        let exponent = 860 + (state >> 40) % 300;
        check(f64::from_bits((exponent << 52) | (state & 0xf_ffff_ffff_ffff)));
        check(f64::from_bits((exponent << 52) | (state & 0xf_ffff_e000_0000) | 0x1000_0000));
    }
}
