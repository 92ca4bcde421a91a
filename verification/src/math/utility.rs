use vstd::prelude::*;

verus! {

/// `v` is a power of two: exactly one bit is set.
pub open spec fn is_power_of_two_u32(v: u32) -> bool {
    v != 0 && v & ((v - 1) as u32) == 0
}

/// All bits below the highest set bit of `v` are set as well.
spec fn smear_right(v: u32) -> u32 {
    let v1 = v | (v >> 1u32);
    let v2 = v1 | (v1 >> 2u32);
    let v3 = v2 | (v2 >> 4u32);
    let v4 = v3 | (v3 >> 8u32);
    v4 | (v4 >> 16u32)
}

proof fn lemma_smear_gives_next_power_of_two(x: u32)
    by (bit_vector)
    requires
        1 <= x <= 0x8000_0000u32,
    ensures
        smear_right((x - 1) as u32) < 0x8000_0000u32,
        ({
            let r = (smear_right((x - 1) as u32) + 1) as u32;
            r != 0 && r & ((r - 1) as u32) == 0 && x <= r && r < 2 * x
        }),
{
}

/// Rounds `x` up to the next power of two; zero stays zero.
///
/// For `x > 2^31` no power of two fits in a `u32` and the computation
/// overflows, so such inputs are excluded.
pub fn roundup_next_power_of_two(x: u32) -> (r: u32)
    requires
        x <= 0x8000_0000u32,
    ensures
        x == 0 ==> r == 0,
        x != 0 ==> is_power_of_two_u32(r) && x <= r && r < 2 * x,
{
    if x == 0 {
        x
    } else {
        proof {
            lemma_smear_gives_next_power_of_two(x);
        }
        let mut v: u32 = x;
        v -= 1;
        v |= v >> 1;
        v |= v >> 2;
        v |= v >> 4;
        v |= v >> 8;
        v |= v >> 16;
        assert(v == smear_right((x - 1) as u32));
        v += 1;
        v
    }
}

/// Rounds `x` up to a multiple of `m`: the least multiple of `m` that is not
/// below `x`.
pub fn roundup_multiple_of(x: u32, m: u32) -> (r: u32)
    requires
        m > 0,
        x % m == 0 || x + (m - x % m) <= u32::MAX,
    ensures
        r % m == 0,
        x <= r < x + m,
{
    let rem = x % m;
    if rem == 0 {
        x
    } else {
        let r = x + (m - rem);
        proof {
            vstd::arithmetic::div_mod::lemma_fundamental_div_mod(x as int, m as int);
            assert((x / m + 1) * m == m * (x / m) + m) by (nonlinear_arith);
            vstd::arithmetic::div_mod::lemma_fundamental_div_mod_converse(
                r as int,
                m as int,
                x / m + 1,
                0,
            );
        }
        r
    }
}

} // verus!
