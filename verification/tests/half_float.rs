use wmb_scene::half_float::f16_bits_to_f32_bits;

fn round_trip(v: f32) -> f32 {
    let h = half::f16::from_f32(v);
    f32::from_bits(f16_bits_to_f32_bits(h.to_bits()))
}

#[test]
fn half_round_trip_one_point_five() {
    assert_eq!(round_trip(1.5), 1.5);
}

#[test]
fn half_round_trip_exact_values() {
    for v in [0.0f32, -0.0, 1.0, -2.0, 0.25, 65504.0, -65504.0, 0.0009765625] {
        assert_eq!(round_trip(v), v);
    }
}

#[test]
fn half_widening_matches_reference_conversion() {
    // sweep a selection of bit patterns, subnormals included
    for bits in [
        0x0000u16, 0x0001, 0x03FF, 0x0400, 0x3C00, 0x3E00, 0x7BFF, 0x8001, 0xBC00, 0x7C00, 0xFC00,
    ] {
        let ours = f32::from_bits(f16_bits_to_f32_bits(bits));
        let theirs = half::f16::from_bits(bits).to_f32();
        assert_eq!(ours.to_bits(), theirs.to_bits());
    }
}

#[test]
fn half_infinity_widens_to_infinity() {
    assert!(f32::from_bits(f16_bits_to_f32_bits(0x7C00)).is_infinite());
    assert!(f32::from_bits(f16_bits_to_f32_bits(0xFC00)).is_infinite());
}
