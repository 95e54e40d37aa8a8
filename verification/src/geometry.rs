use vstd::arithmetic::div_mod::lemma_basic_div;
use vstd::arithmetic::power2::lemma2_to64;
use vstd::arithmetic::power2::lemma_pow2_pos;
use vstd::arithmetic::power2::lemma_pow2_strictly_increases;
use vstd::arithmetic::power2::pow2;
use vstd::bits::lemma_u32_shr_is_div;
use vstd::prelude::*;

verus! {

/// Dimension of mip level `level` for a base dimension `base`: the base
/// halved `level` times, never below 1.
pub open spec fn spec_mip_dimension(base: nat, level: nat) -> nat {
    if base / pow2(level) == 0 {
        1
    } else {
        base / pow2(level)
    }
}

/// Length of the longest valid mip chain for a surface whose largest base
/// dimension is `max_dimension`: `floor(log2(max_dimension)) + 1`.
pub open spec fn spec_max_mipmap_count(max_dimension: nat) -> nat
    decreases max_dimension,
{
    if max_dimension == 0 {
        0
    } else if max_dimension == 1 {
        1
    } else {
        1 + spec_max_mipmap_count(max_dimension / 2)
    }
}

/// Dimension of one mip level, applied independently to width, height and
/// depth. Total: any `mipmap` past the bit width of the base still yields 1.
pub fn mip_dimension(dimension: u32, mipmap: u32) -> (r: u32)
    ensures
        r == spec_mip_dimension(dimension as nat, mipmap as nat),
{
    if mipmap >= 32 {
        proof {
            lemma2_to64();
            if mipmap > 32 {
                lemma_pow2_strictly_increases(32, mipmap as nat);
            }
            lemma_pow2_pos(mipmap as nat);
            lemma_basic_div(dimension as int, pow2(mipmap as nat) as int);
        }
        1
    } else {
        let shifted = dimension >> mipmap;
        proof {
            lemma_u32_shr_is_div(dimension, mipmap);
        }
        if shifted == 0 {
            1
        } else {
            shifted
        }
    }
}

/// The mip dimension is `max(1, base >> level)`: halving `level` times is
/// the same as a right shift while the shift is in range, and any level at
/// or past the base's bit width yields 1, as a mathematical shift would.
pub proof fn lemma_mip_dimension_is_shift(base: u32, level: u32)
    ensures
        level < 32 ==> spec_mip_dimension(base as nat, level as nat) == if base >> level == 0 {
            1u32
        } else {
            base >> level
        },
        level >= 32 ==> spec_mip_dimension(base as nat, level as nat) == 1,
{
    if level < 32 {
        lemma_u32_shr_is_div(base, level);
    } else {
        lemma2_to64();
        if level > 32 {
            lemma_pow2_strictly_increases(32, level as nat);
        }
        lemma_pow2_pos(level as nat);
        lemma_basic_div(base as int, pow2(level as nat) as int);
    }
}

/// The longest valid mip chain, `floor(log2(max_dimension)) + 1`.
/// Returns 0 only for a zero dimension, which a valid surface never has.
pub fn max_mipmap_count(max_dimension: u32) -> (r: u32)
    ensures
        r == spec_max_mipmap_count(max_dimension as nat),
{
    if max_dimension == 0 {
        return 0;
    }
    let mut v: u32 = max_dimension;
    let mut count: u32 = 1;
    proof {
        lemma2_to64();
        assert(pow2(0) * (max_dimension as nat) == max_dimension as nat) by (nonlinear_arith)
            requires
                pow2(0) == 1,
        ;
    }
    while v > 1
        invariant
            1 <= v,
            1 <= count <= 32,
            count as nat + spec_max_mipmap_count(v as nat) == 1 + spec_max_mipmap_count(
                max_dimension as nat,
            ),
            pow2((count - 1) as nat) * (v as nat) <= max_dimension as nat,
        decreases v,
    {
        proof {
            vstd::arithmetic::power2::lemma_pow2_unfold(count as nat);
            assert(pow2(count as nat) * ((v / 2) as nat) <= pow2((count - 1) as nat) * (
            v as nat)) by (nonlinear_arith)
                requires
                    pow2(count as nat) == 2 * pow2((count - 1) as nat),
                    v >= 2,
            ;
            assert(pow2(count as nat) <= pow2(count as nat) * ((v / 2) as nat)) by (
            nonlinear_arith)
                requires
                    v >= 2,
            ;
            lemma2_to64();
            if count > 32 {
                lemma_pow2_strictly_increases(32, count as nat);
            }
            assert(count + 1 <= 33);
        }
        v = v / 2;
        count = count + 1;
    }
    count
}

} // verus!
