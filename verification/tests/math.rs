use vent_engine::math::IVec2;

#[test]
fn ivec2_constructors() {
    assert_eq!(IVec2::new(3, -4), IVec2 { x: 3, y: -4 });
    assert_eq!(IVec2::splat(7), IVec2::new(7, 7));
}

#[test]
fn ivec2_scaling() {
    assert_eq!(IVec2::new(3, -4) * 2, IVec2::new(6, -8));
    assert_eq!(-3 * IVec2::new(3, -4), IVec2::new(-9, 12));
    let mut v = IVec2::new(5, 6);
    v.mul_assign(10);
    assert_eq!(v, IVec2::new(50, 60));
    assert_eq!(IVec2::new(i32::MAX, 1) * 1, IVec2::new(i32::MAX, 1));
}

#[test]
fn ivec2_named_vectors() {
    assert_eq!(IVec2::zero(), IVec2::splat(0));
    assert_eq!(IVec2::one(), IVec2::splat(1));
    assert_eq!(IVec2::neg_one(), IVec2::splat(-1));
    assert_eq!(IVec2::min_value(), IVec2::splat(i32::MIN));
    assert_eq!(IVec2::max_value(), IVec2::splat(i32::MAX));
    assert_eq!(IVec2::unit_x(), IVec2::new(1, 0));
    assert_eq!(IVec2::unit_y(), IVec2::new(0, 1));
    assert_eq!(IVec2::neg_unit_x(), IVec2::new(-1, 0));
    assert_eq!(IVec2::neg_unit_y(), IVec2::new(0, -1));
    assert_eq!(IVec2::axes(), [IVec2::new(1, 0), IVec2::new(0, 1)]);
}
