use lucid::fixed::{
    cell_index, clamp_to_i32, div_floor, int_sqrt, scale_mul, wide_mul, Vec2, COORD_MAX, SCALE,
};

#[test]
fn division_rounds_down() {
    assert_eq!(div_floor(7, 2), 3);
    assert_eq!(div_floor(-7, 2), -4);
    assert_eq!(div_floor(-8, 2), -4);
    assert_eq!(div_floor(-1, 1_000_000), -1);
    assert_eq!(div_floor(0, 5), 0);
}

#[test]
fn cells_hold_their_lower_edge() {
    assert_eq!(cell_index(0), 0);
    assert_eq!(cell_index(999_999), 0);
    assert_eq!(cell_index(1_000_000), 1);
    assert_eq!(cell_index(-1), -1);
    assert_eq!(cell_index(-1_000_000), -1);
    assert_eq!(cell_index(-1_000_001), -2);
}

#[test]
fn products_are_rescaled() {
    assert_eq!(wide_mul(i64::MAX, i64::MAX), (i64::MAX as i128) * (i64::MAX as i128));
    assert_eq!(scale_mul(1_500_000, 2_000_000), 3_000_000);
    assert_eq!(scale_mul(-1_500_000, 2_000_000), -3_000_000);
    assert_eq!(scale_mul(1, 1), 0);
    assert_eq!(scale_mul(-1, 1), -1);
}

#[test]
fn square_roots_round_down() {
    assert_eq!(int_sqrt(0), 0);
    assert_eq!(int_sqrt(1), 1);
    assert_eq!(int_sqrt(3), 1);
    assert_eq!(int_sqrt(4), 2);
    assert_eq!(int_sqrt(24), 4);
    assert_eq!(int_sqrt(25), 5);
    assert_eq!(int_sqrt(1_000_000_000_000), 1_000_000);
    assert_eq!(int_sqrt(999_999_999_999), 999_999);
    assert_eq!(int_sqrt(8_000_000_000_000_000_000_000_000), 2_828_427_124_746);
}

#[test]
fn vector_lengths() {
    let v = Vec2::new(3_000_000, 4_000_000);
    assert_eq!(v.length_squared(), 25_000_000_000_000);
    assert_eq!(v.length(), 5_000_000);
    assert_eq!(v.distance_squared(&Vec2::new(0, 0)), 25_000_000_000_000);
    assert_eq!(Vec2::new(1, 1).length(), 1);
    assert_eq!(Vec2::new(0, 0).length(), 0);
}

#[test]
fn normalizing_gives_unit_length() {
    assert_eq!(Vec2::new(3_000_000, 4_000_000).normalize(), Vec2::new(600_000, 800_000));
    assert_eq!(Vec2::new(-5, 0).normalize(), Vec2::new(-SCALE, 0));
    assert_eq!(Vec2::new(0, 7).normalize(), Vec2::new(0, SCALE));
}

#[test]
fn normalizing_zero_gives_zero() {
    assert_eq!(Vec2::new(0, 0).normalize(), Vec2::new(0, 0));
}

#[test]
fn world_bounds() {
    assert!(Vec2::new(COORD_MAX, -COORD_MAX).in_bounds());
    assert!(!Vec2::new(COORD_MAX + 1, 0).in_bounds());
    assert!(!Vec2::new(0, -COORD_MAX - 1).in_bounds());
    assert_eq!(Vec2::from_units(2, -3), Vec2::new(2_000_000, -3_000_000));
}

#[test]
fn clamping_to_32_bits() {
    assert_eq!(clamp_to_i32(5), 5);
    assert_eq!(clamp_to_i32(i32::MAX as i128 + 1), i32::MAX);
    assert_eq!(clamp_to_i32(i32::MIN as i128 - 1), i32::MIN);
}
