//! Exact widening of IEEE-754 binary16 bit patterns to binary32 bit
//! patterns. Every half-precision value (normal, subnormal, zero, infinity
//! or NaN payload) is representable in single precision, so the conversion
//! is a pure function on bits and loses nothing.

use vstd::prelude::*;
use vstd::arithmetic::power2::pow2;
use vstd::arithmetic::power2::lemma2_to64;
use vstd::arithmetic::power2::lemma_pow2_adds;

verus! {

/// Double `m` (shifting the significand left) until its leading bit sits
/// at position 10, decrementing the exponent alongside.
pub open spec fn hf_normalize(m: int, e: int) -> (int, int)
    decreases 0x800 - m,
        when 1 <= m < 0x800
{
    if m >= 0x400 {
        (m, e)
    } else {
        hf_normalize(m * 2, e - 1)
    }
}

/// The binary32 bit pattern denoting the same value as the binary16 bit
/// pattern `h`: sign copied, exponent re-biased from 15 to 127, the
/// 10-bit significand widened to 23 bits; subnormals are normalized and
/// infinity/NaN keep the all-ones exponent with the payload widened.
pub open spec fn f16_to_f32_bits_spec(h: u16) -> u32 {
    let sign = h as int / 0x8000;
    let exp = (h as int / 0x400) % 0x20;
    let man = h as int % 0x400;
    if exp == 0 && man == 0 {
        (sign * 0x8000_0000) as u32
    } else if exp == 0 {
        let (m2, e2) = hf_normalize(man, 0);
        (sign * 0x8000_0000 + (113 + e2) * 0x80_0000 + (m2 - 0x400) * 0x2000) as u32
    } else if exp == 31 {
        (sign * 0x8000_0000 + 255 * 0x80_0000 + man * 0x2000) as u32
    } else {
        (sign * 0x8000_0000 + (exp + 112) * 0x80_0000 + man * 0x2000) as u32
    }
}

/// Widen a binary16 bit pattern to the binary32 bit pattern of the same
/// value.
pub fn f16_bits_to_f32_bits(h: u16) -> (r: u32)
    ensures
        r == f16_to_f32_bits_spec(h),
{
    let sign: u32 = (h / 0x8000) as u32;
    let exp: u32 = ((h / 0x400) % 0x20) as u32;
    let man: u32 = (h % 0x400) as u32;
    if exp == 0 && man == 0 {
        sign * 0x8000_0000
    } else if exp == 0 {
        let mut m: u32 = man;
        let mut e: i32 = 0;
        proof {
            lemma2_to64();
        }
        while m < 0x400
            invariant
                1 <= m < 0x800,
                -10 <= e <= 0,
                pow2((0 - e) as nat) <= m,
                hf_normalize(man as int, 0) == hf_normalize(m as int, e as int),
            decreases 0x800 - m,
        {
            proof {
                lemma2_to64();
                lemma_pow2_adds((0 - e) as nat, 1);
                if e == -10 {
                    assert(pow2(10) == 0x400);
                    assert(false);
                }
            }
            m = m * 2;
            e = e - 1;
        }
        sign * 0x8000_0000 + ((113 + e) as u32) * 0x80_0000 + (m - 0x400) * 0x2000
    } else if exp == 31 {
        sign * 0x8000_0000 + 255 * 0x80_0000 + man * 0x2000
    } else {
        sign * 0x8000_0000 + (exp + 112) * 0x80_0000 + man * 0x2000
    }
}

} // verus!
