use vstd::prelude::*;

verus! {

/// An integer type whose values can be the components of vectors and
/// rectangles: its arithmetic, checked against its range.
pub trait IntComponent: Copy + Sized {
    /// The value as a mathematical integer.
    spec fn int_value(self) -> int;

    /// The least value of the type.
    spec fn lo() -> int;

    /// The greatest value of the type.
    spec fn hi() -> int;

    /// The value of the type that stands for `v`, where `v` is in range.
    spec fn from_int(v: int) -> Self;

    proof fn lemma_range(x: Self)
        ensures
            Self::lo() <= x.int_value() <= Self::hi(),
            Self::from_int(x.int_value()) == x,
            Self::lo() <= 0,
            1 <= Self::hi(),
    ;

    proof fn lemma_from_int(v: int)
        requires
            Self::lo() <= v <= Self::hi(),
        ensures
            Self::from_int(v).int_value() == v,
    ;

    fn zero() -> (r: Self)
        ensures
            r.int_value() == 0,
    ;

    fn one() -> (r: Self)
        ensures
            r.int_value() == 1,
    ;

    fn plus(self, o: Self) -> (r: Self)
        requires
            Self::lo() <= self.int_value() + o.int_value() <= Self::hi(),
        ensures
            r.int_value() == self.int_value() + o.int_value(),
    ;

    fn minus(self, o: Self) -> (r: Self)
        requires
            Self::lo() <= self.int_value() - o.int_value() <= Self::hi(),
        ensures
            r.int_value() == self.int_value() - o.int_value(),
    ;

    fn times(self, o: Self) -> (r: Self)
        requires
            Self::lo() <= self.int_value() * o.int_value() <= Self::hi(),
        ensures
            r.int_value() == self.int_value() * o.int_value(),
    ;

    fn negate(self) -> (r: Self)
        requires
            Self::lo() <= -self.int_value() <= Self::hi(),
        ensures
            r.int_value() == -self.int_value(),
    ;

    fn less_than(self, o: Self) -> (r: bool)
        ensures
            r == (self.int_value() < o.int_value()),
    ;

    fn equals(self, o: Self) -> (r: bool)
        ensures
            r == (self.int_value() == o.int_value()),
    ;

    /// Division rounding toward zero, as Rust's `/` does.
    fn divide(self, o: Self) -> (r: Self)
        requires
            o.int_value() != 0,
            Self::lo() <= trunc_div(self.int_value(), o.int_value()) <= Self::hi(),
        ensures
            r.int_value() == trunc_div(self.int_value(), o.int_value()),
    ;
}

/// A component type with negative values, which vectors can be negated and
/// turned over.
pub trait SignedComponent: IntComponent {
}

impl SignedComponent for i8 {
}

impl SignedComponent for i16 {
}

impl SignedComponent for i32 {
}

impl SignedComponent for i64 {
}

/// Integer division rounding toward zero, as Rust's `/` does.
pub open spec fn trunc_div(x: int, d: int) -> int {
    if x == 0 {
        0
    } else if x > 0 && d > 0 {
        x / d
    } else if x < 0 && d < 0 {
        (x * -1) / (d * -1)
    } else if x < 0 {
        ((x * -1) / d) * -1
    } else {
        (x / (d * -1)) * -1
    }
}

impl IntComponent for i8 {
    open spec fn int_value(self) -> int {
        self as int
    }

    open spec fn lo() -> int {
        i8::MIN as int
    }

    open spec fn hi() -> int {
        i8::MAX as int
    }

    open spec fn from_int(v: int) -> i8 {
        v as i8
    }

    proof fn lemma_range(x: i8) {
    }

    proof fn lemma_from_int(v: int) {
    }

    fn zero() -> (r: i8) {
        0
    }

    fn one() -> (r: i8) {
        1
    }

    fn plus(self, o: i8) -> (r: i8) {
        self + o
    }

    fn minus(self, o: i8) -> (r: i8) {
        self - o
    }

    fn times(self, o: i8) -> (r: i8) {
        self * o
    }

    fn negate(self) -> (r: i8) {
        -self
    }

    fn less_than(self, o: i8) -> (r: bool) {
        self < o
    }

    fn equals(self, o: i8) -> (r: bool) {
        self == o
    }
    fn divide(self, o: i8) -> (r: i8) {
        match self.checked_div(o) {
            Some(q) => q,
            None => 0,
        }
    }
}

impl IntComponent for u8 {
    open spec fn int_value(self) -> int {
        self as int
    }

    open spec fn lo() -> int {
        u8::MIN as int
    }

    open spec fn hi() -> int {
        u8::MAX as int
    }

    open spec fn from_int(v: int) -> u8 {
        v as u8
    }

    proof fn lemma_range(x: u8) {
    }

    proof fn lemma_from_int(v: int) {
    }

    fn zero() -> (r: u8) {
        0
    }

    fn one() -> (r: u8) {
        1
    }

    fn plus(self, o: u8) -> (r: u8) {
        self + o
    }

    fn minus(self, o: u8) -> (r: u8) {
        self - o
    }

    fn times(self, o: u8) -> (r: u8) {
        self * o
    }

    fn negate(self) -> (r: u8) {
        0
    }

    fn less_than(self, o: u8) -> (r: bool) {
        self < o
    }

    fn equals(self, o: u8) -> (r: bool) {
        self == o
    }
    fn divide(self, o: u8) -> (r: u8) {
        self / o
    }
}

impl IntComponent for i16 {
    open spec fn int_value(self) -> int {
        self as int
    }

    open spec fn lo() -> int {
        i16::MIN as int
    }

    open spec fn hi() -> int {
        i16::MAX as int
    }

    open spec fn from_int(v: int) -> i16 {
        v as i16
    }

    proof fn lemma_range(x: i16) {
    }

    proof fn lemma_from_int(v: int) {
    }

    fn zero() -> (r: i16) {
        0
    }

    fn one() -> (r: i16) {
        1
    }

    fn plus(self, o: i16) -> (r: i16) {
        self + o
    }

    fn minus(self, o: i16) -> (r: i16) {
        self - o
    }

    fn times(self, o: i16) -> (r: i16) {
        self * o
    }

    fn negate(self) -> (r: i16) {
        -self
    }

    fn less_than(self, o: i16) -> (r: bool) {
        self < o
    }

    fn equals(self, o: i16) -> (r: bool) {
        self == o
    }
    fn divide(self, o: i16) -> (r: i16) {
        match self.checked_div(o) {
            Some(q) => q,
            None => 0,
        }
    }
}

impl IntComponent for u16 {
    open spec fn int_value(self) -> int {
        self as int
    }

    open spec fn lo() -> int {
        u16::MIN as int
    }

    open spec fn hi() -> int {
        u16::MAX as int
    }

    open spec fn from_int(v: int) -> u16 {
        v as u16
    }

    proof fn lemma_range(x: u16) {
    }

    proof fn lemma_from_int(v: int) {
    }

    fn zero() -> (r: u16) {
        0
    }

    fn one() -> (r: u16) {
        1
    }

    fn plus(self, o: u16) -> (r: u16) {
        self + o
    }

    fn minus(self, o: u16) -> (r: u16) {
        self - o
    }

    fn times(self, o: u16) -> (r: u16) {
        self * o
    }

    fn negate(self) -> (r: u16) {
        0
    }

    fn less_than(self, o: u16) -> (r: bool) {
        self < o
    }

    fn equals(self, o: u16) -> (r: bool) {
        self == o
    }
    fn divide(self, o: u16) -> (r: u16) {
        self / o
    }
}

impl IntComponent for i32 {
    open spec fn int_value(self) -> int {
        self as int
    }

    open spec fn lo() -> int {
        i32::MIN as int
    }

    open spec fn hi() -> int {
        i32::MAX as int
    }

    open spec fn from_int(v: int) -> i32 {
        v as i32
    }

    proof fn lemma_range(x: i32) {
    }

    proof fn lemma_from_int(v: int) {
    }

    fn zero() -> (r: i32) {
        0
    }

    fn one() -> (r: i32) {
        1
    }

    fn plus(self, o: i32) -> (r: i32) {
        self + o
    }

    fn minus(self, o: i32) -> (r: i32) {
        self - o
    }

    fn times(self, o: i32) -> (r: i32) {
        self * o
    }

    fn negate(self) -> (r: i32) {
        -self
    }

    fn less_than(self, o: i32) -> (r: bool) {
        self < o
    }

    fn equals(self, o: i32) -> (r: bool) {
        self == o
    }
    fn divide(self, o: i32) -> (r: i32) {
        match self.checked_div(o) {
            Some(q) => q,
            None => 0,
        }
    }
}

impl IntComponent for u32 {
    open spec fn int_value(self) -> int {
        self as int
    }

    open spec fn lo() -> int {
        u32::MIN as int
    }

    open spec fn hi() -> int {
        u32::MAX as int
    }

    open spec fn from_int(v: int) -> u32 {
        v as u32
    }

    proof fn lemma_range(x: u32) {
    }

    proof fn lemma_from_int(v: int) {
    }

    fn zero() -> (r: u32) {
        0
    }

    fn one() -> (r: u32) {
        1
    }

    fn plus(self, o: u32) -> (r: u32) {
        self + o
    }

    fn minus(self, o: u32) -> (r: u32) {
        self - o
    }

    fn times(self, o: u32) -> (r: u32) {
        self * o
    }

    fn negate(self) -> (r: u32) {
        0
    }

    fn less_than(self, o: u32) -> (r: bool) {
        self < o
    }

    fn equals(self, o: u32) -> (r: bool) {
        self == o
    }
    fn divide(self, o: u32) -> (r: u32) {
        self / o
    }
}

impl IntComponent for i64 {
    open spec fn int_value(self) -> int {
        self as int
    }

    open spec fn lo() -> int {
        i64::MIN as int
    }

    open spec fn hi() -> int {
        i64::MAX as int
    }

    open spec fn from_int(v: int) -> i64 {
        v as i64
    }

    proof fn lemma_range(x: i64) {
    }

    proof fn lemma_from_int(v: int) {
    }

    fn zero() -> (r: i64) {
        0
    }

    fn one() -> (r: i64) {
        1
    }

    fn plus(self, o: i64) -> (r: i64) {
        self + o
    }

    fn minus(self, o: i64) -> (r: i64) {
        self - o
    }

    fn times(self, o: i64) -> (r: i64) {
        self * o
    }

    fn negate(self) -> (r: i64) {
        -self
    }

    fn less_than(self, o: i64) -> (r: bool) {
        self < o
    }

    fn equals(self, o: i64) -> (r: bool) {
        self == o
    }
    fn divide(self, o: i64) -> (r: i64) {
        match self.checked_div(o) {
            Some(q) => q,
            None => 0,
        }
    }
}

impl IntComponent for u64 {
    open spec fn int_value(self) -> int {
        self as int
    }

    open spec fn lo() -> int {
        u64::MIN as int
    }

    open spec fn hi() -> int {
        u64::MAX as int
    }

    open spec fn from_int(v: int) -> u64 {
        v as u64
    }

    proof fn lemma_range(x: u64) {
    }

    proof fn lemma_from_int(v: int) {
    }

    fn zero() -> (r: u64) {
        0
    }

    fn one() -> (r: u64) {
        1
    }

    fn plus(self, o: u64) -> (r: u64) {
        self + o
    }

    fn minus(self, o: u64) -> (r: u64) {
        self - o
    }

    fn times(self, o: u64) -> (r: u64) {
        self * o
    }

    fn negate(self) -> (r: u64) {
        0
    }

    fn less_than(self, o: u64) -> (r: bool) {
        self < o
    }

    fn equals(self, o: u64) -> (r: bool) {
        self == o
    }
    fn divide(self, o: u64) -> (r: u64) {
        self / o
    }
}

} // verus!
