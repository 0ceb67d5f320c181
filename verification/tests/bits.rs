use emu_core::ieee::{from_u64bits, is_finite, is_nan, pack, to_u64bits, unpack, Fields, Width};

#[test]
fn reading_at_single_width_takes_the_low_word() {
    assert_eq!(from_u64bits(Width::Single, 0x1234_5678_9abc_def0), 0x9abc_def0);
    assert_eq!(to_u64bits(Width::Single, 0x1_3f80_0000), 0x3f80_0000);
    assert_eq!(f32::from_bits(from_u64bits(Width::Single, 0xffff_ffff_3fc0_0000) as u32), 1.5);
}

#[test]
fn reading_at_double_width_takes_the_cell() {
    assert_eq!(from_u64bits(Width::Double, 0x1234_5678_9abc_def0), 0x1234_5678_9abc_def0);
    assert_eq!(to_u64bits(Width::Double, 0x1234_5678_9abc_def0), 0x1234_5678_9abc_def0);
    assert_eq!(f64::from_bits(from_u64bits(Width::Double, 1.5f64.to_bits())), 1.5);
}

#[test]
fn storing_undoes_reading() {
    for cell in [0u64, 1, u64::MAX, 0x8000_0000, 0x7ff8_0000_0000_0001, 0xffff_ffff_0000_0000] {
        for w in [Width::Single, Width::Double] {
            let v = from_u64bits(w, cell);
            assert_eq!(to_u64bits(w, v), v);
            assert_eq!(from_u64bits(w, to_u64bits(w, v)), v);
        }
    }
}

#[test]
fn fields_of_one_and_a_half() {
    let f = unpack(Width::Double, 1.5f64.to_bits());
    assert_eq!(f, Fields { negative: false, exponent: 1023, fraction: 1 << 51 });
    let f = unpack(Width::Single, (-1.5f32).to_bits() as u64);
    assert_eq!(f, Fields { negative: true, exponent: 127, fraction: 1 << 22 });
}

#[test]
fn pack_undoes_unpack() {
    for v in [0u64, 1.5f64.to_bits(), (-2.0f64).to_bits(), f64::NAN.to_bits(), u64::MAX] {
        let f = unpack(Width::Double, v);
        assert_eq!(pack(Width::Double, f.negative, f.exponent, f.fraction), v);
        let f = unpack(Width::Single, v);
        assert_eq!(pack(Width::Single, f.negative, f.exponent, f.fraction), v & 0xffff_ffff);
    }
}

#[test]
fn classification_agrees_with_the_host() {
    let values = [0.0f64, -0.0, 1.0, 5e-324, f64::MAX, f64::INFINITY, f64::NEG_INFINITY, f64::NAN];
    for x in values {
        assert_eq!(is_nan(Width::Double, x.to_bits()), x.is_nan());
        assert_eq!(is_finite(Width::Double, x.to_bits()), x.is_finite());
        let y = x as f32;
        assert_eq!(is_nan(Width::Single, y.to_bits() as u64), y.is_nan());
        assert_eq!(is_finite(Width::Single, y.to_bits() as u64), y.is_finite());
    }
    assert!(is_nan(Width::Double, 0x7ff0_0000_0000_0001));
    assert!(is_nan(Width::Single, 0xff80_0001));
    assert!(!is_nan(Width::Single, 0xff80_0000));
}
