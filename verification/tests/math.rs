use gui_core::math::minmax::MinMax;
use gui_core::math::rectangle::{RectangleI16, RectangleI32, TRectangle};
use gui_core::math::utility::{roundup_multiple_of, roundup_next_power_of_two};
use gui_core::math::vec2::{
    are_orthogonal, dot, is_unit_length, perp, perp_vec, TVec2, Vec2I16, Vec2I32, Vec2U32,
};

#[test]
fn rounds_up_to_powers_of_two() {
    assert_eq!(roundup_next_power_of_two(0), 0);
    assert_eq!(roundup_next_power_of_two(1), 1);
    assert_eq!(roundup_next_power_of_two(2), 2);
    assert_eq!(roundup_next_power_of_two(3), 4);
    assert_eq!(roundup_next_power_of_two(17), 32);
    assert_eq!(roundup_next_power_of_two(1000), 1024);
    assert_eq!(roundup_next_power_of_two(1024), 1024);
    assert_eq!(roundup_next_power_of_two(0x8000_0000), 0x8000_0000);
}

#[test]
fn min_and_max_of_integers() {
    assert_eq!(<i32 as MinMax>::min(-3, 7), -3);
    assert_eq!(<i32 as MinMax>::max(-3, 7), 7);
    assert_eq!(<i16 as MinMax>::min(5, 5), 5);
    assert_eq!(<u32 as MinMax>::max(2, 9), 9);
}

#[test]
fn rectangle_from_points_and_contains() {
    let r = RectangleI32::from_points(1, 2, 11, 7);
    assert_eq!(r, TRectangle::new(1, 2, 10, 5));
    assert!(r.contains_point(1, 2));
    assert!(r.contains_point(11, 7));
    assert!(r.contains_point(5, 5));
    assert!(!r.contains_point(12, 5));
    assert!(!r.contains_point(5, 1));
}

#[test]
fn rectangles_that_touch_intersect() {
    let a = RectangleI32::new(0, 0, 10, 10);
    let b = RectangleI32::new(10, 10, 5, 5);
    let c = RectangleI32::new(11, 0, 5, 5);
    assert!(a.intersect(&b));
    assert!(b.intersect(&a));
    assert!(!a.intersect(&c));
    assert!(!c.intersect(&a));
}

#[test]
fn union_holds_both_rectangles() {
    let a = RectangleI32::new(0, 0, 4, 4);
    let b = RectangleI32::new(6, -2, 2, 3);
    let u = RectangleI32::union(&a, &b);
    assert_eq!(u, RectangleI32::new(0, -2, 8, 6));
    assert_eq!(RectangleI32::union(&a, &a), a);
}

#[test]
fn shrink_and_pad() {
    let r = RectangleI32::new(10, 20, 30, 40);
    assert_eq!(RectangleI32::shrink(&r, 5), RectangleI32::new(15, 25, 20, 30));
    assert_eq!(RectangleI32::shrink(&r, 0), r);
    // a rectangle smaller than the border shrinks to nothing
    let small = RectangleI32::new(0, 0, 4, 4);
    assert_eq!(RectangleI32::shrink(&small, 3), RectangleI32::new(3, 3, 0, 0));
    assert_eq!(
        RectangleI32::pad(&r, TVec2::new(2, 3)),
        RectangleI32::new(12, 23, 26, 34)
    );
}

#[test]
fn vector_products() {
    let a: Vec2I32 = TVec2::new(3, 4);
    let b: Vec2I32 = TVec2::new(-4, 3);
    assert_eq!(a.square_len(), 25);
    assert_eq!(dot(a, b), 0);
    assert!(are_orthogonal(a, b));
    assert_eq!(perp_vec(a), TVec2::new(-4, 3));
    assert_eq!(perp(a, b), -25);
    assert_eq!(perp(a, b), dot(a, perp_vec(b)));
    assert!(is_unit_length(TVec2::new(0, -1)));
    assert!(!is_unit_length(a));
    assert_eq!(TVec2::same(7), TVec2::new(7, 7));
}

#[test]
fn vector_operators() {
    let a: Vec2I32 = TVec2::new(6, -8);
    let b: Vec2I32 = TVec2::new(2, 4);
    assert_eq!(-a, TVec2::new(-6, 8));
    assert_eq!(-(-a), a);
    assert_eq!(a + b, TVec2::new(8, -4));
    assert_eq!(a + b, b + a);
    assert_eq!(a - b, TVec2::new(4, -12));
    assert_eq!((a + b) - b, a);
    assert_eq!(a * 2, TVec2::new(12, -16));
    assert_eq!(2 * a, TVec2::new(12, -16));
    assert_eq!(a * b, TVec2::new(12, -32));
    assert_eq!(a / 2, TVec2::new(3, -4));
    assert_eq!(TVec2::new(7, -7) / 2, TVec2::new(3, -3));
    assert_eq!(a / b, TVec2::new(3, -2));
    let t: (i32, i32) = a.into();
    assert_eq!(t, (6, -8));
}

#[test]
fn rounds_up_to_multiples() {
    assert_eq!(roundup_multiple_of(0, 4), 0);
    assert_eq!(roundup_multiple_of(1, 4), 4);
    assert_eq!(roundup_multiple_of(4, 4), 4);
    assert_eq!(roundup_multiple_of(13, 4), 16);
    assert_eq!(roundup_multiple_of(13, 1), 13);
    assert_eq!(roundup_multiple_of(100, 7), 105);
}

#[test]
fn perpendicular_vector_is_orthogonal() {
    let a: Vec2I32 = TVec2::new(7, -3);
    assert_eq!(dot(a, perp_vec(a)), 0);
    assert!(are_orthogonal(a, perp_vec(a)));
}

#[test]
fn rectangles_sharing_a_point_intersect() {
    let a = RectangleI32::new(0, 0, 5, 5);
    let b = RectangleI32::new(5, 3, 4, 4);
    assert!(a.contains_point(5, 4) && b.contains_point(5, 4));
    assert!(a.intersect(&b));
}

#[test]
fn vector_products_on_other_component_types() {
    let a: Vec2I16 = TVec2::new(3, -4);
    assert_eq!(a.square_len(), 25i16);
    assert_eq!(perp_vec(a), TVec2::new(4i16, 3));
    assert_eq!(perp_vec(perp_vec(a)), TVec2::new(-3i16, 4));
    assert_eq!(perp_vec(TVec2::new(1i16, 0)), TVec2::new(0i16, 1));
    assert_eq!(perp(a, a), 0);
    let b: Vec2I16 = TVec2::new(2, 7);
    assert_eq!(perp(a, b), -perp(b, a));
    assert_eq!(perp(a, b), dot(a, perp_vec(b)));
    let u: Vec2U32 = TVec2::new(6, 8);
    assert_eq!(u.square_len(), 100u32);
    assert_eq!(dot(u, TVec2::new(2u32, 3)), 36);
    assert!(is_unit_length(TVec2::new(0u32, 1)));
    assert!(!is_unit_length(u));
    assert!(are_orthogonal(TVec2::new(5u32, 0), TVec2::new(0u32, 9)));
}

#[test]
fn rectangles_on_other_component_types() {
    let a: RectangleI16 = TRectangle::new(0, 0, 4, 4);
    let b: RectangleI16 = TRectangle::new(6, -2, 2, 3);
    assert_eq!(RectangleI16::union(&a, &b), TRectangle::new(0i16, -2, 8, 6));
    assert_eq!(RectangleI16::union(&a, &b), RectangleI16::union(&b, &a));
    assert_eq!(RectangleI16::union(&a, &a), a);
    assert_eq!(RectangleI16::shrink(&a, 1), TRectangle::new(1i16, 1, 2, 2));
    assert_eq!(
        RectangleI16::pad(&a, TVec2::new(1, 2)),
        TRectangle::new(1i16, 2, 2, 0)
    );
    assert!(a.contains_point(4, 4));
    assert!(!a.intersect(&b));
    let r: TRectangle<u32> = TRectangle::from_points(2, 3, 10, 4);
    assert_eq!(r, TRectangle::new(2u32, 3, 8, 1));
    assert!(r.contains_point(10, 4));
    assert!(!r.contains_point(1, 4));
    assert_eq!(TRectangle::<u32>::shrink(&r, 1), TRectangle::new(3u32, 4, 6, 0));
}

#[test]
fn union_does_not_depend_on_order() {
    let a = RectangleI32::new(-5, 2, 3, 9);
    let b = RectangleI32::new(1, -1, 10, 2);
    let u = RectangleI32::union(&a, &b);
    assert_eq!(u, RectangleI32::union(&b, &a));
    assert_eq!(u, RectangleI32::new(-5, -1, 16, 12));
}

#[test]
fn vector_operators_on_other_component_types() {
    let a: Vec2I16 = TVec2::new(6, -8);
    let b: Vec2I16 = TVec2::new(2, 4);
    assert_eq!(-a, TVec2::new(-6i16, 8));
    assert_eq!(a + b, b + a);
    assert_eq!((a + b) - b, a);
    assert_eq!(a * 2, TVec2::new(12i16, -16));
    assert_eq!(2i16 * a, a * 2);
    assert_eq!(a * b, TVec2::new(12i16, -32));
    assert_eq!(TVec2::new(7i16, -7) / 2, TVec2::new(3i16, -3));
    assert_eq!(a / b, TVec2::new(3i16, -2));
    let u: Vec2U32 = TVec2::new(9, 4);
    assert_eq!(u - TVec2::new(9u32, 1), TVec2::new(0u32, 3));
    assert_eq!(u / 2, TVec2::new(4u32, 2));
    assert_eq!(3u32 * u, TVec2::new(27u32, 12));
    let t: (u32, u32) = u.into();
    assert_eq!(t, (9, 4));
}
