use vstd::prelude::*;

use crate::math::component::IntComponent;
use crate::math::vec2::{in_range, TVec2};

verus! {

/// An axis aligned rectangle: its top left corner, width and height.
#[derive(Copy, Clone, Debug, PartialEq, Eq)]
pub struct TRectangle<T> {
    pub x: T,
    pub y: T,
    pub w: T,
    pub h: T,
}

pub type RectangleI16 = TRectangle<i16>;
pub type RectangleI32 = TRectangle<i32>;

impl<T: Copy> TRectangle<T> {
    pub fn new(x: T, y: T, width: T, height: T) -> (r: Self)
        ensures
            r == (TRectangle { x, y, w: width, h: height }),
    {
        TRectangle { x, y, w: width, h: height }
    }
}

/// The right edge, `x + w`, over the integers.
pub open spec fn right<T: IntComponent>(r: TRectangle<T>) -> int {
    r.x.int_value() + r.w.int_value()
}

/// The bottom edge, `y + h`, over the integers.
pub open spec fn bottom<T: IntComponent>(r: TRectangle<T>) -> int {
    r.y.int_value() + r.h.int_value()
}

/// Both edges `x + w` and `y + h` fit in the component type.
pub open spec fn edges_fit<T: IntComponent>(r: TRectangle<T>) -> bool {
    in_range::<T>(right(r)) && in_range::<T>(bottom(r))
}

/// The point lies in the rectangle, its edges included.
pub open spec fn spec_contains_point<T: IntComponent>(r: TRectangle<T>, x: int, y: int) -> bool {
    r.x.int_value() <= x <= right(r) && r.y.int_value() <= y <= bottom(r)
}

/// The two rectangles overlap or touch.
pub open spec fn spec_intersect<T: IntComponent>(a: TRectangle<T>, b: TRectangle<T>) -> bool {
    !(right(a) < b.x.int_value() || right(b) < a.x.int_value() || bottom(a) < b.y.int_value()
        || bottom(b) < a.y.int_value())
}

pub open spec fn min_int(a: int, b: int) -> int {
    if a <= b { a } else { b }
}

pub open spec fn max_int(a: int, b: int) -> int {
    if a >= b { a } else { b }
}

/// The smallest rectangle holding both rectangles, over the integers.
pub open spec fn spec_union<T: IntComponent>(a: TRectangle<T>, b: TRectangle<T>) -> (int, int, int, int) {
    let x0 = min_int(a.x.int_value(), b.x.int_value());
    let y0 = min_int(a.y.int_value(), b.y.int_value());
    let x1 = max_int(right(a), right(b));
    let y1 = max_int(bottom(a), bottom(b));
    (x0, y0, x1 - x0, y1 - y0)
}

/// A rectangle with the given integer fields, each taken into the component
/// type.
pub open spec fn rect_from_ints<T: IntComponent>(v: (int, int, int, int)) -> TRectangle<T> {
    TRectangle { x: T::from_int(v.0), y: T::from_int(v.1), w: T::from_int(v.2), h: T::from_int(v.3) }
}

/// Every field fits in the component type.
pub open spec fn rect_fits<T: IntComponent>(v: (int, int, int, int)) -> bool {
    &&& in_range::<T>(v.0)
    &&& in_range::<T>(v.1)
    &&& in_range::<T>(v.2)
    &&& in_range::<T>(v.3)
}

/// `r` moved in by `px` on the left and right and by `py` on the top and
/// bottom; a side shorter than both paddings together shrinks to zero.
pub open spec fn spec_pad<T: IntComponent>(r: TRectangle<T>, px: int, py: int) -> (int, int, int, int) {
    let w = max_int(r.w.int_value(), px + px);
    let h = max_int(r.h.int_value(), py + py);
    (r.x.int_value() + px, r.y.int_value() + py, w - px - px, h - py - py)
}

/// The intermediates of `spec_pad` fit in the component type.
pub open spec fn pad_fits<T: IntComponent>(r: TRectangle<T>, px: int, py: int) -> bool {
    &&& in_range::<T>(px + px)
    &&& in_range::<T>(py + py)
    &&& in_range::<T>(max_int(r.w.int_value(), px + px) - px)
    &&& in_range::<T>(max_int(r.h.int_value(), py + py) - py)
    &&& rect_fits::<T>(spec_pad(r, px, py))
}

/// The smaller of two values.
fn smaller<T: IntComponent>(a: T, b: T) -> (r: T)
    ensures
        r.int_value() == min_int(a.int_value(), b.int_value()),
{
    if b.less_than(a) { b } else { a }
}

/// The larger of two values.
fn larger<T: IntComponent>(a: T, b: T) -> (r: T)
    ensures
        r.int_value() == max_int(a.int_value(), b.int_value()),
{
    if a.less_than(b) { b } else { a }
}

/// Each field of `r` is the field of `v` that stands in the same place.
proof fn lemma_rect_is_from_ints<T: IntComponent>(r: TRectangle<T>, v: (int, int, int, int))
    requires
        r.x.int_value() == v.0,
        r.y.int_value() == v.1,
        r.w.int_value() == v.2,
        r.h.int_value() == v.3,
    ensures
        r == rect_from_ints::<T>(v),
{
    T::lemma_range(r.x);
    T::lemma_range(r.y);
    T::lemma_range(r.w);
    T::lemma_range(r.h);
}

/// The fields of `rect_from_ints(v)` are those of `v`, where they fit.
proof fn lemma_from_ints_fields<T: IntComponent>(v: (int, int, int, int))
    requires
        rect_fits::<T>(v),
    ensures
        rect_from_ints::<T>(v).x.int_value() == v.0,
        rect_from_ints::<T>(v).y.int_value() == v.1,
        rect_from_ints::<T>(v).w.int_value() == v.2,
        rect_from_ints::<T>(v).h.int_value() == v.3,
{
    T::lemma_from_int(v.0);
    T::lemma_from_int(v.1);
    T::lemma_from_int(v.2);
    T::lemma_from_int(v.3);
}

impl<T: IntComponent> TRectangle<T> {
    /// The rectangle with corners `(x0, y0)` and `(x1, y1)`.
    pub fn from_points(x0: T, y0: T, x1: T, y1: T) -> (r: Self)
        requires
            in_range::<T>(x1.int_value() - x0.int_value()),
            in_range::<T>(y1.int_value() - y0.int_value()),
        ensures
            r == rect_from_ints::<T>(
                (
                    x0.int_value(),
                    y0.int_value(),
                    x1.int_value() - x0.int_value(),
                    y1.int_value() - y0.int_value(),
                ),
            ),
    {
        let r = Self::new(x0, y0, x1.minus(x0), y1.minus(y0));
        proof {
            lemma_rect_is_from_ints(
                r,
                (
                    x0.int_value(),
                    y0.int_value(),
                    x1.int_value() - x0.int_value(),
                    y1.int_value() - y0.int_value(),
                ),
            );
        }
        r
    }

    /// Whether the two rectangles overlap or touch.
    pub fn intersect(&self, rhs: &TRectangle<T>) -> (b: bool)
        requires
            edges_fit(*self),
            edges_fit(*rhs),
        ensures
            b == spec_intersect(*self, *rhs),
    {
        !(self.x.plus(self.w).less_than(rhs.x) || rhs.x.plus(rhs.w).less_than(self.x)
            || self.y.plus(self.h).less_than(rhs.y) || rhs.y.plus(rhs.h).less_than(self.y))
    }

    /// Whether the point lies in the rectangle, its edges included.
    pub fn contains_point(&self, x: T, y: T) -> (b: bool)
        requires
            edges_fit(*self),
        ensures
            b == spec_contains_point(*self, x.int_value(), y.int_value()),
    {
        !x.less_than(self.x) && !self.x.plus(self.w).less_than(x) && !y.less_than(self.y)
            && !self.y.plus(self.h).less_than(y)
    }

    /// The smallest rectangle that holds both rectangles.
    pub fn union(a: &TRectangle<T>, b: &TRectangle<T>) -> (r: TRectangle<T>)
        requires
            edges_fit(*a),
            edges_fit(*b),
            rect_fits::<T>(spec_union(*a, *b)),
        ensures
            r == rect_from_ints::<T>(spec_union(*a, *b)),
    {
        let ax0 = a.x;
        let ay0 = a.y;
        let ax1 = ax0.plus(a.w);
        let ay1 = ay0.plus(a.h);

        let bx0 = b.x;
        let by0 = b.y;
        let bx1 = bx0.plus(b.w);
        let by1 = by0.plus(b.h);

        let ux0 = smaller(ax0, bx0);
        let uy0 = smaller(ay0, by0);
        let ux1 = larger(ax1, bx1);
        let uy1 = larger(ay1, by1);

        let r = Self::new(ux0, uy0, ux1.minus(ux0), uy1.minus(uy0));
        proof {
            lemma_rect_is_from_ints(r, spec_union(*a, *b));
        }
        r
    }

    /// The rectangle moved in by `amount` on every side.
    pub fn shrink(r: &TRectangle<T>, amount: T) -> (s: TRectangle<T>)
        requires
            pad_fits(*r, amount.int_value(), amount.int_value()),
        ensures
            s == rect_from_ints::<T>(spec_pad(*r, amount.int_value(), amount.int_value())),
    {
        let twice = amount.plus(amount);
        let w = larger(r.w, twice);
        let h = larger(r.h, twice);

        let s = TRectangle::new(
            r.x.plus(amount),
            r.y.plus(amount),
            w.minus(amount).minus(amount),
            h.minus(amount).minus(amount),
        );
        proof {
            lemma_rect_is_from_ints(s, spec_pad(*r, amount.int_value(), amount.int_value()));
        }
        s
    }

    /// The rectangle moved in by `pad.x` on the left and right and by
    /// `pad.y` on the top and bottom.
    pub fn pad(r: &TRectangle<T>, pad: TVec2<T>) -> (s: TRectangle<T>)
        requires
            pad_fits(*r, pad.x.int_value(), pad.y.int_value()),
        ensures
            s == rect_from_ints::<T>(spec_pad(*r, pad.x.int_value(), pad.y.int_value())),
    {
        let w = larger(r.w, pad.x.plus(pad.x));
        let h = larger(r.h, pad.y.plus(pad.y));
        let s = TRectangle::new(
            r.x.plus(pad.x),
            r.y.plus(pad.y),
            w.minus(pad.x).minus(pad.x),
            h.minus(pad.y).minus(pad.y),
        );
        proof {
            lemma_rect_is_from_ints(s, spec_pad(*r, pad.x.int_value(), pad.y.int_value()));
        }
        s
    }
}

/// Overlapping is symmetric.
pub proof fn lemma_intersect_symmetric<T: IntComponent>(a: TRectangle<T>, b: TRectangle<T>)
    ensures
        spec_intersect(a, b) == spec_intersect(b, a),
{
}

/// Two rectangles that share a point intersect.
pub proof fn lemma_common_point_intersects<T: IntComponent>(
    a: TRectangle<T>,
    b: TRectangle<T>,
    x: int,
    y: int,
)
    requires
        spec_contains_point(a, x, y),
        spec_contains_point(b, x, y),
    ensures
        spec_intersect(a, b),
{
}

/// The union starts at the smaller corner and ends at the larger right and
/// bottom edges.
pub proof fn lemma_union_edges<T: IntComponent>(a: TRectangle<T>, b: TRectangle<T>)
    requires
        rect_fits::<T>(spec_union(a, b)),
    ensures
        rect_from_ints::<T>(spec_union(a, b)).x.int_value() == min_int(
            a.x.int_value(),
            b.x.int_value(),
        ),
        rect_from_ints::<T>(spec_union(a, b)).y.int_value() == min_int(
            a.y.int_value(),
            b.y.int_value(),
        ),
        right(rect_from_ints::<T>(spec_union(a, b))) == max_int(right(a), right(b)),
        bottom(rect_from_ints::<T>(spec_union(a, b))) == max_int(bottom(a), bottom(b)),
{
    lemma_from_ints_fields::<T>(spec_union(a, b));
}

/// Every point of either rectangle lies in their union.
pub proof fn lemma_union_contains_both<T: IntComponent>(
    a: TRectangle<T>,
    b: TRectangle<T>,
    x: int,
    y: int,
)
    requires
        rect_fits::<T>(spec_union(a, b)),
        spec_contains_point(a, x, y) || spec_contains_point(b, x, y),
    ensures
        spec_contains_point(rect_from_ints::<T>(spec_union(a, b)), x, y),
{
    lemma_from_ints_fields::<T>(spec_union(a, b));
}

/// The union does not depend on the order of the two rectangles.
pub proof fn lemma_union_commutative<T: IntComponent>(a: TRectangle<T>, b: TRectangle<T>)
    ensures
        spec_union(a, b) == spec_union(b, a),
{
}

/// The union of a rectangle with itself is the rectangle.
pub proof fn lemma_union_idempotent<T: IntComponent>(a: TRectangle<T>)
    ensures
        rect_fits::<T>(spec_union(a, a)),
        rect_from_ints::<T>(spec_union(a, a)) == a,
{
    T::lemma_range(a.x);
    T::lemma_range(a.y);
    T::lemma_range(a.w);
    T::lemma_range(a.h);
}

/// Shrinking by nothing leaves a rectangle with non-negative sides as it is.
pub proof fn lemma_shrink_zero<T: IntComponent>(r: TRectangle<T>)
    requires
        r.w.int_value() >= 0,
        r.h.int_value() >= 0,
    ensures
        pad_fits(r, 0, 0),
        rect_from_ints::<T>(spec_pad(r, 0, 0)) == r,
{
    T::lemma_range(r.x);
    T::lemma_range(r.y);
    T::lemma_range(r.w);
    T::lemma_range(r.h);
}

} // verus!
