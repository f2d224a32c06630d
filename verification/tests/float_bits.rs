use rtop::float_bits::{cpu_usage_text, f32_bits_to_u16, f32_text, f64_bits_to_u16};

fn next(x: &mut u64) -> u64 {
    *x ^= *x << 13;
    *x ^= *x >> 7;
    *x ^= *x << 17;
    *x
}

#[test]
fn f32_text_examples() {
    assert_eq!(f32_text(4.2f32.to_bits()), "4.2");
    assert_eq!(f32_text(0.0f32.to_bits()), "0.0");
    assert_eq!(f32_text((-0.0f32).to_bits()), "-0.0");
    assert_eq!(f32_text(0.25f32.to_bits()), "0.2");
    assert_eq!(f32_text(0.75f32.to_bits()), "0.8");
    assert_eq!(f32_text(f32::INFINITY.to_bits()), "inf");
    assert_eq!(f32_text(f32::NEG_INFINITY.to_bits()), "-inf");
    assert_eq!(f32_text(f32::NAN.to_bits()), "NaN");
    assert_eq!(cpu_usage_text(12.5f32.to_bits()), "12.5%");
}

#[test]
fn f32_text_agrees_with_float_printing() {
    let mut x: u64 = 0x9e37_79b9_7f4a_7c15;
    for _ in 0..30000 {
        let bits = next(&mut x) as u32;
        let f = f32::from_bits(bits);
        assert_eq!(f32_text(bits), format!("{:.1}", f), "bits = {bits:#x}");
    }
    for v in [0.05f32, 0.15, 0.25, 0.35, 99.95, 100.0, 1e-45, 3.4e38, f32::MAX, f32::MIN, f32::MIN_POSITIVE] {
        assert_eq!(f32_text(v.to_bits()), format!("{:.1}", v), "v = {v}");
    }
    for i in 0..2000u32 {
        let v = i as f32 / 20.0;
        assert_eq!(f32_text(v.to_bits()), format!("{:.1}", v), "v = {v}");
    }
}

#[test]
fn casts_to_u16() {
    assert_eq!(f32_bits_to_u16(42.9f32.to_bits()), 42);
    assert_eq!(f32_bits_to_u16((-3.0f32).to_bits()), 0);
    assert_eq!(f32_bits_to_u16(f32::NAN.to_bits()), 0);
    assert_eq!(f32_bits_to_u16(f32::INFINITY.to_bits()), 65535);
    assert_eq!(f32_bits_to_u16(70000.0f32.to_bits()), 65535);
    assert_eq!(f64_bits_to_u16(52.7f64.to_bits()), 52);
    assert_eq!(f64_bits_to_u16(f64::NAN.to_bits()), 0);
    assert_eq!(f64_bits_to_u16(f64::NEG_INFINITY.to_bits()), 0);
    assert_eq!(f64_bits_to_u16(f64::INFINITY.to_bits()), 65535);
    assert_eq!(f64_bits_to_u16(65535.9f64.to_bits()), 65535);
}

#[test]
fn casts_agree_with_as() {
    let mut x: u64 = 0x1234_5678_9abc_def1;
    for _ in 0..30000 {
        let b = next(&mut x);
        let b32 = b as u32;
        assert_eq!(f32_bits_to_u16(b32), f32::from_bits(b32) as u16, "bits = {b32:#x}");
        assert_eq!(f64_bits_to_u16(b), f64::from_bits(b) as u16, "bits = {b:#x}");
    }
    for i in 0..3000u32 {
        let v = i as f32 * 37.3;
        assert_eq!(f32_bits_to_u16(v.to_bits()), v as u16);
        let w = i as f64 * 29.9;
        assert_eq!(f64_bits_to_u16(w.to_bits()), w as u16);
    }
}
