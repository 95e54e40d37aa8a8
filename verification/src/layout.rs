use crate::format::spec_bytes_per_unit;
use crate::format::spec_is_block_compressed;
use crate::format::ImageFormat;
use crate::geometry::mip_dimension;
use crate::geometry::spec_mip_dimension;
use vstd::prelude::*;

verus! {

/// Bytes that one mip level of the given dimensions occupies in storage:
/// the level's unit grid (4x4 blocks for block-compressed formats, single
/// texels otherwise) times the bytes per unit. Block depth is always 1, so
/// depth slices multiply the grid directly.
pub open spec fn spec_level_data_len(format: ImageFormat, w: nat, h: nat, d: nat) -> nat {
    if spec_is_block_compressed(format) {
        ((w + 3) / 4) * ((h + 3) / 4) * d * spec_bytes_per_unit(format)
    } else {
        w * h * d * spec_bytes_per_unit(format)
    }
}

/// Bytes of the first `mips` levels of one layer's mip chain, in storage
/// order (level 0 first).
pub open spec fn spec_mip_chain_len(
    format: ImageFormat,
    w: nat,
    h: nat,
    d: nat,
    mips: nat,
) -> nat
    decreases mips,
{
    if mips == 0 {
        0
    } else {
        spec_mip_chain_len(format, w, h, d, (mips - 1) as nat) + spec_level_data_len(
            format,
            spec_mip_dimension(w, (mips - 1) as nat),
            spec_mip_dimension(h, (mips - 1) as nat),
            spec_mip_dimension(d, (mips - 1) as nat),
        )
    }
}

/// Byte offset of level `(layer, mipmap)` inside a flat buffer that stores
/// `mipmaps` levels per layer, layer-major.
pub open spec fn spec_level_offset(
    format: ImageFormat,
    w: nat,
    h: nat,
    d: nat,
    mipmaps: nat,
    layer: nat,
    mipmap: nat,
) -> nat {
    layer * spec_mip_chain_len(format, w, h, d, mipmaps) + spec_mip_chain_len(
        format,
        w,
        h,
        d,
        mipmap,
    )
}

proof fn lemma_mip_chain_len_monotone(format: ImageFormat, w: nat, h: nat, d: nat, m1: nat, m2: nat)
    requires
        m1 <= m2,
    ensures
        spec_mip_chain_len(format, w, h, d, m1) <= spec_mip_chain_len(format, w, h, d, m2),
    decreases m2,
{
    if m1 < m2 {
        lemma_mip_chain_len_monotone(format, w, h, d, m1, (m2 - 1) as nat);
    }
}

/// Storage size of one mip level, or `None` when it exceeds `u64::MAX`.
pub fn level_data_len(format: ImageFormat, w: u32, h: u32, d: u32) -> (r: Option<u64>)
    ensures
        match r {
            Some(v) => v == spec_level_data_len(format, w as nat, h as nat, d as nat),
            None => spec_level_data_len(format, w as nat, h as nat, d as nat) > u64::MAX,
        },
{
    let block = format.is_block_compressed();
    let uw: u64 = if block {
        (w as u64 + 3) / 4
    } else {
        w as u64
    };
    let uh: u64 = if block {
        (h as u64 + 3) / 4
    } else {
        h as u64
    };
    assert(uw * uh <= 0xffff_ffff * 0xffff_ffff) by (nonlinear_arith)
        requires
            uw <= 0xffff_ffff,
            uh <= 0xffff_ffff,
    ;
    let grid: u64 = uw * uh;
    let with_depth: u64 = match grid.checked_mul(d as u64) {
        Some(v) => v,
        None => {
            proof {
                lemma_mul_le_mono(grid as nat * d as nat, spec_bytes_per_unit(format));
            }
            return None;
        },
    };
    match with_depth.checked_mul(format.bytes_per_unit()) {
        Some(v) => Some(v),
        None => None,
    }
}

/// `a <= a * b` for positive `b`, stated for the factors of a level size.
proof fn lemma_mul_le_mono(a: nat, b: nat)
    requires
        b >= 1,
    ensures
        a <= a * b,
{
    assert(a <= a * b) by (nonlinear_arith)
        requires
            b >= 1,
    ;
}

/// Bytes of the first `mips` levels of one layer's chain, or `None` when
/// the sum exceeds `u64::MAX`.
pub fn mip_chain_len(format: ImageFormat, w: u32, h: u32, d: u32, mips: u32) -> (r: Option<u64>)
    ensures
        match r {
            Some(v) => v == spec_mip_chain_len(format, w as nat, h as nat, d as nat, mips as nat),
            None => spec_mip_chain_len(format, w as nat, h as nat, d as nat, mips as nat)
                > u64::MAX,
        },
{
    let mut acc: u64 = 0;
    let mut m: u32 = 0;
    while m < mips
        invariant
            m <= mips,
            acc == spec_mip_chain_len(format, w as nat, h as nat, d as nat, m as nat),
        decreases mips - m,
    {
        let lw = mip_dimension(w, m);
        let lh = mip_dimension(h, m);
        let ld = mip_dimension(d, m);
        let level = match level_data_len(format, lw, lh, ld) {
            Some(v) => v,
            None => {
                proof {
                    lemma_mip_chain_len_monotone(
                        format,
                        w as nat,
                        h as nat,
                        d as nat,
                        (m + 1) as nat,
                        mips as nat,
                    );
                }
                return None;
            },
        };
        acc = match acc.checked_add(level) {
            Some(v) => v,
            None => {
                proof {
                    lemma_mip_chain_len_monotone(
                        format,
                        w as nat,
                        h as nat,
                        d as nat,
                        (m + 1) as nat,
                        mips as nat,
                    );
                }
                return None;
            },
        };
        m = m + 1;
    }
    Some(acc)
}

/// Byte offset of level `(layer, mipmap)`, or `None` when it exceeds
/// `u64::MAX`.
pub fn level_offset(
    format: ImageFormat,
    w: u32,
    h: u32,
    d: u32,
    mipmaps: u32,
    layer: u32,
    mipmap: u32,
) -> (r: Option<u64>)
    ensures
        match r {
            Some(v) => v == spec_level_offset(
                format,
                w as nat,
                h as nat,
                d as nat,
                mipmaps as nat,
                layer as nat,
                mipmap as nat,
            ),
            None => spec_level_offset(
                format,
                w as nat,
                h as nat,
                d as nat,
                mipmaps as nat,
                layer as nat,
                mipmap as nat,
            ) > u64::MAX,
        },
{
    let partial = match mip_chain_len(format, w, h, d, mipmap) {
        Some(v) => v,
        None => {
            return None;
        },
    };
    let layer_part: u64 = if layer == 0 {
        0
    } else {
        let full = match mip_chain_len(format, w, h, d, mipmaps) {
            Some(v) => v,
            None => {
                proof {
                    lemma_mul_le_mono(
                        spec_mip_chain_len(format, w as nat, h as nat, d as nat, mipmaps as nat),
                        layer as nat,
                    );
                    assert(spec_mip_chain_len(format, w as nat, h as nat, d as nat, mipmaps as nat)
                        * layer as nat == layer as nat * spec_mip_chain_len(
                        format,
                        w as nat,
                        h as nat,
                        d as nat,
                        mipmaps as nat,
                    )) by (nonlinear_arith);
                }
                return None;
            },
        };
        match (layer as u64).checked_mul(full) {
            Some(v) => v,
            None => {
                return None;
            },
        }
    };
    match layer_part.checked_add(partial) {
        Some(v) => Some(v),
        None => None,
    }
}

} // verus!
