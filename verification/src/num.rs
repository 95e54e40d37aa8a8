use vstd::arithmetic::div_mod::lemma_basic_div;
use vstd::arithmetic::power2::lemma2_to64;
use vstd::arithmetic::power2::lemma2_to64_rest;
use vstd::arithmetic::power2::lemma_pow2_pos;
use vstd::arithmetic::power2::lemma_pow2_strictly_increases;
use vstd::arithmetic::power2::lemma_pow2_unfold;
use vstd::arithmetic::power2::pow2;
use vstd::prelude::*;

verus! {

/// The 16-bit little-endian word stored at `lo`, `hi`.
pub open spec fn spec_le16(lo: u8, hi: u8) -> nat {
    lo as nat + 256 * (hi as nat)
}

/// The 32-bit little-endian word stored at `b0` (lowest) through `b3`.
pub open spec fn spec_le32(b0: u8, b1: u8, b2: u8, b3: u8) -> nat {
    b0 as nat + 256 * (b1 as nat + 256 * (b2 as nat + 256 * (b3 as nat)))
}

pub fn le16(lo: u8, hi: u8) -> (r: u16)
    ensures
        r == spec_le16(lo, hi),
{
    lo as u16 + 256 * (hi as u16)
}

pub fn le32(b0: u8, b1: u8, b2: u8, b3: u8) -> (r: u32)
    ensures
        r == spec_le32(b0, b1, b2, b3),
{
    b0 as u32 + 256 * (b1 as u32 + 256 * (b2 as u32 + 256 * (b3 as u32)))
}

/// `pow2(e)` as a machine word.
pub fn pow2_u64(e: u32) -> (r: u64)
    requires
        e < 64,
    ensures
        r == pow2(e as nat),
{
    let mut r: u64 = 1;
    let mut i: u32 = 0;
    proof {
        lemma2_to64();
        lemma2_to64_rest();
    }
    while i < e
        invariant
            i <= e < 64,
            r == pow2(i as nat),
        decreases e - i,
    {
        proof {
            lemma_pow2_unfold((i + 1) as nat);
            lemma_pow2_strictly_increases(i as nat, 63);
            assert(pow2(63) == 0x8000000000000000) by {
                lemma2_to64_rest();
            }
        }
        r = r * 2;
        i = i + 1;
    }
    r
}

/// Round-to-nearest conversion of a binary16 bit pattern to a byte:
/// the encoded value is clamped to [0, 1] and scaled by 255.
///
/// With sign bit `s`, biased exponent `e` and mantissa `m`, the encoded
/// value is `M * 2^(e' - 25)` where `M` carries the implicit leading bit
/// and `e'` accounts for subnormals; `255 * v` rounded half-up is then
/// `(510 * M + 2^(25 - e')) / 2^(26 - e')`. Negative values (and NaN)
/// clamp to 0, values at or above 1 (and +infinity) to 255.
pub open spec fn spec_unorm8_from_f16_bits(bits: u16) -> u8 {
    let s = bits as nat / 0x8000;
    let e = (bits as nat / 0x400) % 0x20;
    let m = bits as nat % 0x400;
    if s == 1 {
        0
    } else if e == 31 {
        if m == 0 {
            255
        } else {
            0
        }
    } else if e >= 15 {
        255
    } else {
        let ee = if e == 0 {
            1nat
        } else {
            e
        };
        let mm = if e == 0 {
            m
        } else {
            m + 1024
        };
        (((510 * mm + pow2((25 - ee) as nat)) / pow2((26 - ee) as nat)) as u8)
    }
}

/// Round-to-nearest conversion of a binary32 bit pattern to a byte, with
/// the same clamping and rounding as [`spec_unorm8_from_f16_bits`].
pub open spec fn spec_unorm8_from_f32_bits(bits: u32) -> u8 {
    let s = bits as nat / 0x8000_0000;
    let e = (bits as nat / 0x80_0000) % 0x100;
    let m = bits as nat % 0x80_0000;
    if s == 1 {
        0
    } else if e == 255 {
        if m == 0 {
            255
        } else {
            0
        }
    } else if e >= 127 {
        255
    } else {
        let ee = if e == 0 {
            1nat
        } else {
            e
        };
        let mm = if e == 0 {
            m
        } else {
            m + 0x80_0000
        };
        (((510 * mm + pow2((150 - ee) as nat)) / pow2((151 - ee) as nat)) as u8)
    }
}

pub fn unorm8_from_f16_bits(bits: u16) -> (r: u8)
    ensures
        r == spec_unorm8_from_f16_bits(bits),
{
    let s: u16 = bits / 0x8000;
    let e: u16 = (bits / 0x400) % 0x20;
    let m: u16 = bits % 0x400;
    if s == 1 {
        0
    } else if e == 31 {
        if m == 0 {
            255
        } else {
            0
        }
    } else if e >= 15 {
        255
    } else {
        let ee: u32 = if e == 0 {
            1
        } else {
            e as u32
        };
        let mm: u64 = if e == 0 {
            m as u64
        } else {
            m as u64 + 1024
        };
        let half: u64 = pow2_u64(25 - ee);
        let den: u64 = pow2_u64(26 - ee);
        proof {
            lemma_pow2_pos((25 - ee) as nat);
            lemma_pow2_unfold((26 - ee) as nat);
            lemma2_to64();
            if 25 - ee > 11 {
                lemma_pow2_strictly_increases(11, (25 - ee) as nat);
            }
        }
        let v: u64 = (510 * mm + half) / den;
        proof {
            assert(v <= 255) by (nonlinear_arith)
                requires
                    v == (510 * mm + half) as int / (den as int),
                    den == 2 * half,
                    mm < half,
                    half >= 0x800,
            ;
        }
        v as u8
    }
}

pub fn unorm8_from_f32_bits(bits: u32) -> (r: u8)
    ensures
        r == spec_unorm8_from_f32_bits(bits),
{
    let s: u32 = bits / 0x8000_0000;
    let e: u32 = (bits / 0x80_0000) % 0x100;
    let m: u32 = bits % 0x80_0000;
    if s == 1 {
        0
    } else if e == 255 {
        if m == 0 {
            255
        } else {
            0
        }
    } else if e >= 127 {
        255
    } else {
        let ee: u32 = if e == 0 {
            1
        } else {
            e
        };
        let mm: u64 = if e == 0 {
            m as u64
        } else {
            m as u64 + 0x80_0000
        };
        if ee <= 116 {
            // 510 * mm < 2^33 <= 2^(150 - ee), so the rounded value is 0.
            proof {
                lemma2_to64();
                lemma2_to64_rest();
                assert(510 * mm < pow2(33)) by (nonlinear_arith)
                    requires
                        mm < pow2(24),
                        pow2(33) == 512 * pow2(24),
                ;
                if 150 - ee > 33 {
                    lemma_pow2_strictly_increases(33, (150 - ee) as nat);
                }
                lemma_pow2_unfold((151 - ee) as nat);
                lemma_pow2_pos((151 - ee) as nat);
                lemma_basic_div((510 * mm + pow2((150 - ee) as nat)) as int, pow2(
                    (151 - ee) as nat) as int);
            }
            0
        } else {
            let half: u64 = pow2_u64(150 - ee);
            let den: u64 = pow2_u64(151 - ee);
            proof {
                lemma_pow2_pos((150 - ee) as nat);
                lemma_pow2_unfold((151 - ee) as nat);
                lemma2_to64();
                lemma2_to64_rest();
                if 150 - ee > 24 {
                    lemma_pow2_strictly_increases(24, (150 - ee) as nat);
                }
            }
            let v: u64 = (510 * mm + half) / den;
            proof {
                assert(v <= 255) by (nonlinear_arith)
                    requires
                        v == (510 * mm + half) as int / (den as int),
                        den == 2 * half,
                        mm < half,
                        half >= 0x800,
                ;
            }
            v as u8
        }
    }
}

} // verus!
