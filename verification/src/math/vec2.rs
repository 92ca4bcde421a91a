use vstd::prelude::*;
use vstd::std_specs::ops::{AddSpec, NegSpec, SubSpec};

use crate::math::component::{trunc_div, IntComponent, SignedComponent};

verus! {

/// Two component vector.
#[derive(Copy, Clone, Debug, PartialEq, Eq)]
pub struct TVec2<T> {
    pub x: T,
    pub y: T,
}

pub type Vec2I8 = TVec2<i8>;
pub type Vec2U8 = TVec2<u8>;
pub type Vec2I16 = TVec2<i16>;
pub type Vec2U16 = TVec2<u16>;
pub type Vec2I32 = TVec2<i32>;
pub type Vec2U32 = TVec2<u32>;

impl<T: Copy> TVec2<T> {
    pub fn new(x: T, y: T) -> (v: Self)
        ensures
            v == (TVec2 { x, y }),
    {
        TVec2 { x, y }
    }

    /// A vector with both components equal to `t`.
    pub fn same(t: T) -> (v: Self)
        ensures
            v == (TVec2 { x: t, y: t }),
    {
        Self::new(t, t)
    }
}

/// The components as mathematical integers.
pub open spec fn ix<T: IntComponent>(v: TVec2<T>) -> int {
    v.x.int_value()
}

pub open spec fn iy<T: IntComponent>(v: TVec2<T>) -> int {
    v.y.int_value()
}

/// The value fits in the component type.
pub open spec fn in_range<T: IntComponent>(v: int) -> bool {
    T::lo() <= v <= T::hi()
}

/// Dot product over the integers.
pub open spec fn spec_dot<T: IntComponent>(a: TVec2<T>, b: TVec2<T>) -> int {
    ix(a) * ix(b) + iy(a) * iy(b)
}

/// Perp product over the integers: `dot(a, perp_vec(b))`.
pub open spec fn spec_perp<T: IntComponent>(a: TVec2<T>, b: TVec2<T>) -> int {
    -ix(a) * iy(b) + iy(a) * ix(b)
}

/// The vector rotated by a quarter turn counter clockwise: `(-y, x)`.
pub open spec fn spec_perp_vec<T: IntComponent>(a: TVec2<T>) -> TVec2<T> {
    TVec2 { x: T::from_int(-iy(a)), y: a.x }
}

impl<T: IntComponent> TVec2<T> {
    /// The squared length, `x * x + y * y`.
    pub fn square_len(&self) -> (r: T)
        requires
            in_range::<T>(spec_dot(*self, *self)),
        ensures
            r.int_value() == spec_dot(*self, *self),
    {
        proof {
            T::lemma_range(self.x);
            T::lemma_range(self.y);
            lemma_square_nonneg(ix(*self));
            lemma_square_nonneg(iy(*self));
        }
        self.x.times(self.x).plus(self.y.times(self.y))
    }
}

proof fn lemma_square_nonneg(v: int)
    ensures
        v * v >= 0,
{
    assert(v * v >= 0) by (nonlinear_arith);
}

/// Every product and the sum in `a.x * b.x + a.y * b.y` fits in the
/// component type.
pub open spec fn dot_fits<T: IntComponent>(a: TVec2<T>, b: TVec2<T>) -> bool {
    &&& in_range::<T>(ix(a) * ix(b))
    &&& in_range::<T>(iy(a) * iy(b))
    &&& in_range::<T>(spec_dot(a, b))
}

/// The dot product of two vectors.
pub fn dot<T: IntComponent>(a: TVec2<T>, b: TVec2<T>) -> (r: T)
    requires
        dot_fits(a, b),
    ensures
        r.int_value() == spec_dot(a, b),
{
    a.x.times(b.x).plus(a.y.times(b.y))
}

/// Returns a vector that is perpendicular to the input vector by applying a
/// counter clockwise quarter turn.
pub fn perp_vec<T: SignedComponent>(a: TVec2<T>) -> (r: TVec2<T>)
    requires
        in_range::<T>(-iy(a)),
    ensures
        r == spec_perp_vec(a),
        ix(r) == -iy(a),
        iy(r) == ix(a),
{
    proof {
        T::lemma_from_int(-iy(a));
    }
    let nx = a.y.negate();
    proof {
        T::lemma_range(nx);
    }
    TVec2::new(nx, a.x)
}

/// Every intermediate of `-a.x * b.y + a.y * b.x` fits in the component
/// type.
pub open spec fn perp_fits<T: IntComponent>(a: TVec2<T>, b: TVec2<T>) -> bool {
    &&& in_range::<T>(-ix(a))
    &&& in_range::<T>(-ix(a) * iy(b))
    &&& in_range::<T>(iy(a) * ix(b))
    &&& in_range::<T>(spec_perp(a, b))
}

/// The perp product of two vectors, `dot(a, perp_vec(b))`.
pub fn perp<T: SignedComponent>(a: TVec2<T>, b: TVec2<T>) -> (r: T)
    requires
        perp_fits(a, b),
    ensures
        r.int_value() == spec_perp(a, b),
{
    a.x.negate().times(b.y).plus(a.y.times(b.x))
}

/// Whether the dot product of the two vectors is zero.
pub fn are_orthogonal<T: IntComponent>(a: TVec2<T>, b: TVec2<T>) -> (r: bool)
    requires
        dot_fits(a, b),
    ensures
        r == (spec_dot(a, b) == 0),
{
    dot(a, b).equals(T::zero())
}

/// Whether the squared length of the vector is one.
pub fn is_unit_length<T: IntComponent>(a: TVec2<T>) -> (r: bool)
    requires
        in_range::<T>(spec_dot(a, a)),
    ensures
        r == (spec_dot(a, a) == 1),
{
    a.square_len().equals(T::one())
}

/// The perp product is the dot product with the perpendicular vector.
pub proof fn lemma_perp_is_dot_with_perp_vec<T: SignedComponent>(a: TVec2<T>, b: TVec2<T>)
    requires
        in_range::<T>(-iy(b)),
    ensures
        spec_perp(a, b) == spec_dot(a, spec_perp_vec(b)),
{
    T::lemma_from_int(-iy(b));
    assert(-ix(a) * iy(b) == ix(a) * (-iy(b))) by (nonlinear_arith);
}

/// A vector is orthogonal to its perpendicular vector.
pub proof fn lemma_perp_vec_is_orthogonal<T: SignedComponent>(a: TVec2<T>)
    requires
        in_range::<T>(-iy(a)),
    ensures
        spec_dot(a, spec_perp_vec(a)) == 0,
{
    T::lemma_from_int(-iy(a));
    assert(ix(a) * (-iy(a)) + iy(a) * ix(a) == 0) by (nonlinear_arith);
}

/// Turning a vector by a quarter turn twice gives its opposite, and the
/// first axis turns into the second.
pub proof fn lemma_perp_vec_twice<T: SignedComponent>(a: TVec2<T>)
    requires
        in_range::<T>(-iy(a)),
        in_range::<T>(-ix(a)),
    ensures
        ix(spec_perp_vec(spec_perp_vec(a))) == -ix(a),
        iy(spec_perp_vec(spec_perp_vec(a))) == -iy(a),
        ix(a) == 1 && iy(a) == 0 ==> ix(spec_perp_vec(a)) == 0 && iy(spec_perp_vec(a)) == 1,
{
    T::lemma_from_int(-iy(a));
    T::lemma_from_int(-ix(a));
}

/// The perp product of a vector with itself is zero, and swapping the
/// vectors negates it.
pub proof fn lemma_perp_antisymmetric<T: SignedComponent>(a: TVec2<T>, b: TVec2<T>)
    ensures
        spec_perp(a, a) == 0,
        spec_perp(a, b) == -spec_perp(b, a),
{
    assert(-ix(a) * iy(a) + iy(a) * ix(a) == 0) by (nonlinear_arith);
    assert(-ix(a) * iy(b) + iy(a) * ix(b) == -(-ix(b) * iy(a) + iy(b) * ix(a))) by (nonlinear_arith);
}

/// The squared length is the dot product of the vector with itself.
pub proof fn lemma_square_len_is_self_dot<T: IntComponent>(a: TVec2<T>)
    ensures
        spec_dot(a, a) == ix(a) * ix(a) + iy(a) * iy(a),
{
}

/// The vector with the given integer components, each taken into the
/// component type.
pub open spec fn vec2_of<T: IntComponent>(x: int, y: int) -> TVec2<T> {
    TVec2 { x: T::from_int(x), y: T::from_int(y) }
}

/// Both values fit in the component type.
pub open spec fn fits<T: IntComponent>(x: int, y: int) -> bool {
    in_range::<T>(x) && in_range::<T>(y)
}

/// A vector is the one made of its own integer components.
proof fn lemma_vec2_of<T: IntComponent>(v: TVec2<T>)
    ensures
        v == vec2_of::<T>(ix(v), iy(v)),
{
    T::lemma_range(v.x);
    T::lemma_range(v.y);
}

impl<T: IntComponent> From<TVec2<T>> for (T, T) {
    fn from(v: TVec2<T>) -> (r: (T, T)) {
        (v.x, v.y)
    }
}

impl<T: IntComponent> vstd::std_specs::convert::FromSpecImpl<TVec2<T>> for (T, T) {
    open spec fn obeys_from_spec() -> bool {
        true
    }

    open spec fn from_spec(v: TVec2<T>) -> (T, T) {
        (v.x, v.y)
    }
}

impl<T: SignedComponent> core::ops::Neg for TVec2<T> {
    type Output = TVec2<T>;

    fn neg(self) -> (r: TVec2<T>) {
        let r = TVec2::new(self.x.negate(), self.y.negate());
        proof {
            lemma_vec2_of(r);
        }
        r
    }
}

impl<T: SignedComponent> vstd::std_specs::ops::NegSpecImpl for TVec2<T> {
    open spec fn obeys_neg_spec() -> bool {
        true
    }

    open spec fn neg_req(self) -> bool {
        fits::<T>(-ix(self), -iy(self))
    }

    open spec fn neg_spec(self) -> TVec2<T> {
        vec2_of::<T>(-ix(self), -iy(self))
    }
}

impl<T: IntComponent> core::ops::Add for TVec2<T> {
    type Output = TVec2<T>;

    fn add(self, rhs: TVec2<T>) -> (r: TVec2<T>) {
        let r = TVec2::new(self.x.plus(rhs.x), self.y.plus(rhs.y));
        proof {
            lemma_vec2_of(r);
        }
        r
    }
}

impl<T: IntComponent> vstd::std_specs::ops::AddSpecImpl for TVec2<T> {
    open spec fn obeys_add_spec() -> bool {
        true
    }

    open spec fn add_req(self, rhs: TVec2<T>) -> bool {
        fits::<T>(ix(self) + ix(rhs), iy(self) + iy(rhs))
    }

    open spec fn add_spec(self, rhs: TVec2<T>) -> TVec2<T> {
        vec2_of::<T>(ix(self) + ix(rhs), iy(self) + iy(rhs))
    }
}

impl<T: IntComponent> core::ops::Sub for TVec2<T> {
    type Output = TVec2<T>;

    fn sub(self, rhs: TVec2<T>) -> (r: TVec2<T>) {
        let r = TVec2::new(self.x.minus(rhs.x), self.y.minus(rhs.y));
        proof {
            lemma_vec2_of(r);
        }
        r
    }
}

impl<T: IntComponent> vstd::std_specs::ops::SubSpecImpl for TVec2<T> {
    open spec fn obeys_sub_spec() -> bool {
        true
    }

    open spec fn sub_req(self, rhs: TVec2<T>) -> bool {
        fits::<T>(ix(self) - ix(rhs), iy(self) - iy(rhs))
    }

    open spec fn sub_spec(self, rhs: TVec2<T>) -> TVec2<T> {
        vec2_of::<T>(ix(self) - ix(rhs), iy(self) - iy(rhs))
    }
}

impl<T: IntComponent> core::ops::Mul<T> for TVec2<T> {
    type Output = TVec2<T>;

    /// Multiplication by a scalar.
    fn mul(self, scalar: T) -> (r: TVec2<T>) {
        let r = TVec2::new(self.x.times(scalar), self.y.times(scalar));
        proof {
            lemma_vec2_of(r);
        }
        r
    }
}

impl<T: IntComponent> vstd::std_specs::ops::MulSpecImpl<T> for TVec2<T> {
    open spec fn obeys_mul_spec() -> bool {
        true
    }

    open spec fn mul_req(self, scalar: T) -> bool {
        fits::<T>(ix(self) * scalar.int_value(), iy(self) * scalar.int_value())
    }

    open spec fn mul_spec(self, scalar: T) -> TVec2<T> {
        vec2_of::<T>(ix(self) * scalar.int_value(), iy(self) * scalar.int_value())
    }
}

impl<T: IntComponent> core::ops::Mul for TVec2<T> {
    type Output = TVec2<T>;

    /// Component-wise multiplication.
    fn mul(self, rhs: TVec2<T>) -> (r: TVec2<T>) {
        let r = TVec2::new(self.x.times(rhs.x), self.y.times(rhs.y));
        proof {
            lemma_vec2_of(r);
        }
        r
    }
}

impl<T: IntComponent> vstd::std_specs::ops::MulSpecImpl for TVec2<T> {
    open spec fn obeys_mul_spec() -> bool {
        true
    }

    open spec fn mul_req(self, rhs: TVec2<T>) -> bool {
        fits::<T>(ix(self) * ix(rhs), iy(self) * iy(rhs))
    }

    open spec fn mul_spec(self, rhs: TVec2<T>) -> TVec2<T> {
        vec2_of::<T>(ix(self) * ix(rhs), iy(self) * iy(rhs))
    }
}

impl core::ops::Mul<TVec2<i8>> for i8 {
    type Output = TVec2<i8>;

    /// Multiplication of a vector by a scalar on its left.
    fn mul(self, rhs: TVec2<i8>) -> (r: TVec2<i8>) {
        rhs * self
    }
}

impl vstd::std_specs::ops::MulSpecImpl<TVec2<i8>> for i8 {
    open spec fn obeys_mul_spec() -> bool {
        true
    }

    open spec fn mul_req(self, rhs: TVec2<i8>) -> bool {
        fits::<i8>(rhs.x * self, rhs.y * self)
    }

    open spec fn mul_spec(self, rhs: TVec2<i8>) -> TVec2<i8> {
        vec2_of::<i8>(rhs.x * self, rhs.y * self)
    }
}

impl core::ops::Mul<TVec2<u8>> for u8 {
    type Output = TVec2<u8>;

    /// Multiplication of a vector by a scalar on its left.
    fn mul(self, rhs: TVec2<u8>) -> (r: TVec2<u8>) {
        rhs * self
    }
}

impl vstd::std_specs::ops::MulSpecImpl<TVec2<u8>> for u8 {
    open spec fn obeys_mul_spec() -> bool {
        true
    }

    open spec fn mul_req(self, rhs: TVec2<u8>) -> bool {
        fits::<u8>(rhs.x * self, rhs.y * self)
    }

    open spec fn mul_spec(self, rhs: TVec2<u8>) -> TVec2<u8> {
        vec2_of::<u8>(rhs.x * self, rhs.y * self)
    }
}

impl core::ops::Mul<TVec2<i16>> for i16 {
    type Output = TVec2<i16>;

    /// Multiplication of a vector by a scalar on its left.
    fn mul(self, rhs: TVec2<i16>) -> (r: TVec2<i16>) {
        rhs * self
    }
}

impl vstd::std_specs::ops::MulSpecImpl<TVec2<i16>> for i16 {
    open spec fn obeys_mul_spec() -> bool {
        true
    }

    open spec fn mul_req(self, rhs: TVec2<i16>) -> bool {
        fits::<i16>(rhs.x * self, rhs.y * self)
    }

    open spec fn mul_spec(self, rhs: TVec2<i16>) -> TVec2<i16> {
        vec2_of::<i16>(rhs.x * self, rhs.y * self)
    }
}

impl core::ops::Mul<TVec2<u16>> for u16 {
    type Output = TVec2<u16>;

    /// Multiplication of a vector by a scalar on its left.
    fn mul(self, rhs: TVec2<u16>) -> (r: TVec2<u16>) {
        rhs * self
    }
}

impl vstd::std_specs::ops::MulSpecImpl<TVec2<u16>> for u16 {
    open spec fn obeys_mul_spec() -> bool {
        true
    }

    open spec fn mul_req(self, rhs: TVec2<u16>) -> bool {
        fits::<u16>(rhs.x * self, rhs.y * self)
    }

    open spec fn mul_spec(self, rhs: TVec2<u16>) -> TVec2<u16> {
        vec2_of::<u16>(rhs.x * self, rhs.y * self)
    }
}

impl core::ops::Mul<TVec2<i32>> for i32 {
    type Output = TVec2<i32>;

    /// Multiplication of a vector by a scalar on its left.
    fn mul(self, rhs: TVec2<i32>) -> (r: TVec2<i32>) {
        rhs * self
    }
}

impl vstd::std_specs::ops::MulSpecImpl<TVec2<i32>> for i32 {
    open spec fn obeys_mul_spec() -> bool {
        true
    }

    open spec fn mul_req(self, rhs: TVec2<i32>) -> bool {
        fits::<i32>(rhs.x * self, rhs.y * self)
    }

    open spec fn mul_spec(self, rhs: TVec2<i32>) -> TVec2<i32> {
        vec2_of::<i32>(rhs.x * self, rhs.y * self)
    }
}

impl core::ops::Mul<TVec2<u32>> for u32 {
    type Output = TVec2<u32>;

    /// Multiplication of a vector by a scalar on its left.
    fn mul(self, rhs: TVec2<u32>) -> (r: TVec2<u32>) {
        rhs * self
    }
}

impl vstd::std_specs::ops::MulSpecImpl<TVec2<u32>> for u32 {
    open spec fn obeys_mul_spec() -> bool {
        true
    }

    open spec fn mul_req(self, rhs: TVec2<u32>) -> bool {
        fits::<u32>(rhs.x * self, rhs.y * self)
    }

    open spec fn mul_spec(self, rhs: TVec2<u32>) -> TVec2<u32> {
        vec2_of::<u32>(rhs.x * self, rhs.y * self)
    }
}

impl core::ops::Mul<TVec2<i64>> for i64 {
    type Output = TVec2<i64>;

    /// Multiplication of a vector by a scalar on its left.
    fn mul(self, rhs: TVec2<i64>) -> (r: TVec2<i64>) {
        rhs * self
    }
}

impl vstd::std_specs::ops::MulSpecImpl<TVec2<i64>> for i64 {
    open spec fn obeys_mul_spec() -> bool {
        true
    }

    open spec fn mul_req(self, rhs: TVec2<i64>) -> bool {
        fits::<i64>(rhs.x * self, rhs.y * self)
    }

    open spec fn mul_spec(self, rhs: TVec2<i64>) -> TVec2<i64> {
        vec2_of::<i64>(rhs.x * self, rhs.y * self)
    }
}

impl core::ops::Mul<TVec2<u64>> for u64 {
    type Output = TVec2<u64>;

    /// Multiplication of a vector by a scalar on its left.
    fn mul(self, rhs: TVec2<u64>) -> (r: TVec2<u64>) {
        rhs * self
    }
}

impl vstd::std_specs::ops::MulSpecImpl<TVec2<u64>> for u64 {
    open spec fn obeys_mul_spec() -> bool {
        true
    }

    open spec fn mul_req(self, rhs: TVec2<u64>) -> bool {
        fits::<u64>(rhs.x * self, rhs.y * self)
    }

    open spec fn mul_spec(self, rhs: TVec2<u64>) -> TVec2<u64> {
        vec2_of::<u64>(rhs.x * self, rhs.y * self)
    }
}

/// `a / b` on `i32` neither divides by zero nor overflows.
pub open spec fn div_ok(a: i32, b: i32) -> bool {
    b != 0 && !(a == i32::MIN && b == -1)
}

/// `a / b` on `i32`, rounding toward zero.
pub(crate) fn div_i32(a: i32, b: i32) -> (r: i32)
    requires
        div_ok(a, b),
    ensures
        r == trunc_div(a as int, b as int),
{
    proof {
        lemma_trunc_div_fits(a, b);
    }
    match a.checked_div(b) {
        Some(q) => q,
        None => 0,
    }
}

proof fn lemma_trunc_div_fits(a: i32, b: i32)
    requires
        div_ok(a, b),
    ensures
        i32::MIN <= trunc_div(a as int, b as int) <= i32::MAX,
{
    let x = a as int;
    let d = b as int;
    if x > 0 && d > 0 {
        assert(0 <= x / d <= x) by (nonlinear_arith)
            requires
                x > 0,
                d > 0,
        ;
    } else if x < 0 && d < 0 {
        assert(0 <= (x * -1) / (d * -1) <= x * -1) by (nonlinear_arith)
            requires
                x < 0,
                d < 0,
        ;
        if x == i32::MIN {
            assert(d * -1 >= 2);
            assert((x * -1) / (d * -1) <= (x * -1) / 2) by (nonlinear_arith)
                requires
                    x < 0,
                    d * -1 >= 2,
            ;
        }
    } else if x < 0 {
        assert(0 <= (x * -1) / d <= x * -1) by (nonlinear_arith)
            requires
                x < 0,
                d > 0,
        ;
    } else if x > 0 {
        assert(0 <= x / (d * -1) <= x) by (nonlinear_arith)
            requires
                x > 0,
                d < 0,
        ;
    }
}

impl<T: IntComponent> core::ops::Div<T> for TVec2<T> {
    type Output = TVec2<T>;

    /// Division by a scalar, rounding toward zero.
    fn div(self, scalar: T) -> (r: TVec2<T>) {
        let r = TVec2::new(self.x.divide(scalar), self.y.divide(scalar));
        proof {
            lemma_vec2_of(r);
        }
        r
    }
}

impl<T: IntComponent> vstd::std_specs::ops::DivSpecImpl<T> for TVec2<T> {
    open spec fn obeys_div_spec() -> bool {
        true
    }

    open spec fn div_req(self, scalar: T) -> bool {
        &&& scalar.int_value() != 0
        &&& fits::<T>(
            trunc_div(ix(self), scalar.int_value()),
            trunc_div(iy(self), scalar.int_value()),
        )
    }

    open spec fn div_spec(self, scalar: T) -> TVec2<T> {
        vec2_of::<T>(trunc_div(ix(self), scalar.int_value()), trunc_div(iy(self), scalar.int_value()))
    }
}

impl<T: IntComponent> core::ops::Div for TVec2<T> {
    type Output = TVec2<T>;

    /// Component-wise division, rounding toward zero.
    fn div(self, rhs: TVec2<T>) -> (r: TVec2<T>) {
        let r = TVec2::new(self.x.divide(rhs.x), self.y.divide(rhs.y));
        proof {
            lemma_vec2_of(r);
        }
        r
    }
}

impl<T: IntComponent> vstd::std_specs::ops::DivSpecImpl for TVec2<T> {
    open spec fn obeys_div_spec() -> bool {
        true
    }

    open spec fn div_req(self, rhs: TVec2<T>) -> bool {
        &&& ix(rhs) != 0
        &&& iy(rhs) != 0
        &&& fits::<T>(trunc_div(ix(self), ix(rhs)), trunc_div(iy(self), iy(rhs)))
    }

    open spec fn div_spec(self, rhs: TVec2<T>) -> TVec2<T> {
        vec2_of::<T>(trunc_div(ix(self), ix(rhs)), trunc_div(iy(self), iy(rhs)))
    }
}

/// Negating twice gives the vector back.
pub proof fn lemma_neg_involutive<T: SignedComponent>(a: TVec2<T>)
    requires
        a.neg_req(),
    ensures
        a.neg_spec().neg_req(),
        a.neg_spec().neg_spec() == a,
{
    T::lemma_range(a.x);
    T::lemma_range(a.y);
    T::lemma_from_int(-ix(a));
    T::lemma_from_int(-iy(a));
    lemma_vec2_of(a);
}

/// Vector addition commutes.
pub proof fn lemma_add_commutative<T: IntComponent>(a: TVec2<T>, b: TVec2<T>)
    ensures
        a.add_req(b) == b.add_req(a),
        a.add_spec(b) == b.add_spec(a),
{
}

/// Subtracting what was added gives the vector back.
pub proof fn lemma_add_then_sub<T: IntComponent>(a: TVec2<T>, b: TVec2<T>)
    requires
        a.add_req(b),
    ensures
        a.add_spec(b).sub_req(b),
        a.add_spec(b).sub_spec(b) == a,
{
    T::lemma_from_int(ix(a) + ix(b));
    T::lemma_from_int(iy(a) + iy(b));
    T::lemma_range(a.x);
    T::lemma_range(a.y);
    lemma_vec2_of(a);
}

} // verus!
