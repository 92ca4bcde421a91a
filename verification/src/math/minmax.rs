use vstd::prelude::*;

verus! {

/// The smaller or larger of two values of a numeric type.
pub trait MinMax {
    type Output;

    /// The smaller of the two values.
    spec fn spec_min(a: Self::Output, b: Self::Output) -> Self::Output;

    /// The larger of the two values.
    spec fn spec_max(a: Self::Output, b: Self::Output) -> Self::Output;

    fn min(a: Self::Output, b: Self::Output) -> (r: Self::Output)
        ensures
            r == Self::spec_min(a, b),
    ;

    fn max(a: Self::Output, b: Self::Output) -> (r: Self::Output)
        ensures
            r == Self::spec_max(a, b),
    ;
}

impl MinMax for i32 {
    type Output = i32;

    open spec fn spec_min(a: i32, b: i32) -> i32 {
        if a <= b { a } else { b }
    }

    open spec fn spec_max(a: i32, b: i32) -> i32 {
        if a >= b { a } else { b }
    }

    fn min(a: i32, b: i32) -> (r: i32) {
        if a <= b { a } else { b }
    }

    fn max(a: i32, b: i32) -> (r: i32) {
        if a >= b { a } else { b }
    }
}

impl MinMax for i16 {
    type Output = i16;

    open spec fn spec_min(a: i16, b: i16) -> i16 {
        if a <= b { a } else { b }
    }

    open spec fn spec_max(a: i16, b: i16) -> i16 {
        if a >= b { a } else { b }
    }

    fn min(a: i16, b: i16) -> (r: i16) {
        if a <= b { a } else { b }
    }

    fn max(a: i16, b: i16) -> (r: i16) {
        if a >= b { a } else { b }
    }
}

impl MinMax for u32 {
    type Output = u32;

    open spec fn spec_min(a: u32, b: u32) -> u32 {
        if a <= b { a } else { b }
    }

    open spec fn spec_max(a: u32, b: u32) -> u32 {
        if a >= b { a } else { b }
    }

    fn min(a: u32, b: u32) -> (r: u32) {
        if a <= b { a } else { b }
    }

    fn max(a: u32, b: u32) -> (r: u32) {
        if a >= b { a } else { b }
    }
}

} // verus!
