use crate::bc::lemma_quad_index;
use crate::bc::spec_bc1_texel_byte;
use crate::bc::spec_bc2_texel_byte;
use crate::bc::spec_bc3_texel_byte;
use crate::bc::spec_bc4_texel_byte;
use crate::bc::spec_bc5_texel_byte;
use crate::bc67::spec_bc6_texel_byte;
use crate::bc67::spec_bc7_texels;
use crate::error::SurfaceError;
use crate::format::spec_bytes_per_unit;
use crate::format::spec_is_block_compressed;
use crate::format::ImageFormat;
use crate::geometry::mip_dimension;
use crate::geometry::spec_mip_dimension;
use crate::layout::level_data_len;
use crate::layout::spec_level_data_len;
use crate::num::spec_le16;
use crate::num::spec_le32;
use crate::num::spec_unorm8_from_f16_bits;
use crate::num::spec_unorm8_from_f32_bits;
use crate::surface::Surface;
use crate::surface::SurfaceRgba8;
use vstd::prelude::*;
use vstd::slice::slice_index_get;
use vstd::slice::slice_subrange;

verus! {

// ---------------------------------------------------------------------------
// What one decoded level holds, texel by texel
// ---------------------------------------------------------------------------
/// Channel `c` (0 = red … 3 = alpha) of the texel at `(x, y, z)` of one
/// level of dimensions `w x h`, decoded from `data` in the given format.
///
/// Block-compressed formats locate the texel's 4x4 block inside the
/// row-major block grid and decode it; packed formats read the texel's
/// bytes directly.
pub open spec fn spec_texel_byte(
    format: ImageFormat,
    data: Seq<u8>,
    w: int,
    h: int,
    x: int,
    y: int,
    z: int,
    c: int,
) -> u8 {
    if spec_is_block_compressed(format) {
        let bw = (w + 3) / 4;
        let bh = (h + 3) / 4;
        let bpb = spec_bytes_per_unit(format) as int;
        let bi = (z * bh + y / 4) * bw + x / 4;
        let block = data.subrange(bi * bpb, bi * bpb + bpb);
        let t = (y % 4) * 4 + x % 4;
        match format {
            ImageFormat::BC1Unorm | ImageFormat::BC1Srgb => spec_bc1_texel_byte(block, t, c),
            ImageFormat::BC2Unorm | ImageFormat::BC2Srgb => spec_bc2_texel_byte(block, t, c),
            ImageFormat::BC3Unorm | ImageFormat::BC3Srgb => spec_bc3_texel_byte(block, t, c),
            ImageFormat::BC4Unorm | ImageFormat::BC4Snorm => spec_bc4_texel_byte(block, t, c),
            ImageFormat::BC5Unorm | ImageFormat::BC5Snorm => spec_bc5_texel_byte(block, t, c),
            ImageFormat::BC6Ufloat => spec_bc6_texel_byte(block, false, t, c),
            ImageFormat::BC6Sfloat => spec_bc6_texel_byte(block, true, t, c),
            ImageFormat::BC7Unorm | ImageFormat::BC7Srgb => spec_bc7_texels(block)[4 * t + c],
            _ => 0,
        }
    } else {
        let i = (z * h + y) * w + x;
        match format {
            ImageFormat::R8Unorm => if c == 0 {
                data[i]
            } else if c == 3 {
                255
            } else {
                0
            },
            ImageFormat::R8G8B8A8Unorm | ImageFormat::R8G8B8A8Srgb => data[4 * i + c],
            ImageFormat::B8G8R8A8Unorm | ImageFormat::B8G8R8A8Srgb => if c == 0 {
                data[4 * i + 2]
            } else if c == 1 {
                data[4 * i + 1]
            } else if c == 2 {
                data[4 * i]
            } else {
                data[4 * i + 3]
            },
            ImageFormat::R16G16B16A16Float => spec_unorm8_from_f16_bits(
                spec_le16(data[8 * i + 2 * c], data[8 * i + 2 * c + 1]) as u16,
            ),
            ImageFormat::R32G32B32A32Float => spec_unorm8_from_f32_bits(
                spec_le32(
                    data[16 * i + 4 * c],
                    data[16 * i + 4 * c + 1],
                    data[16 * i + 4 * c + 2],
                    data[16 * i + 4 * c + 3],
                ) as u32,
            ),
            _ => 0,
        }
    }
}

/// The first `n` texels of row `y` of depth slice `z`, as RGBA8 bytes.
pub open spec fn spec_row_rgba8(
    format: ImageFormat,
    data: Seq<u8>,
    w: int,
    h: int,
    z: int,
    y: int,
    n: int,
) -> Seq<u8>
    decreases n,
{
    if n <= 0 {
        Seq::empty()
    } else {
        spec_row_rgba8(format, data, w, h, z, y, n - 1) + seq![
            spec_texel_byte(format, data, w, h, n - 1, y, z, 0),
            spec_texel_byte(format, data, w, h, n - 1, y, z, 1),
            spec_texel_byte(format, data, w, h, n - 1, y, z, 2),
            spec_texel_byte(format, data, w, h, n - 1, y, z, 3),
        ]
    }
}

/// The first `m` rows of depth slice `z`, as RGBA8 bytes.
pub open spec fn spec_plane_rgba8(
    format: ImageFormat,
    data: Seq<u8>,
    w: int,
    h: int,
    z: int,
    m: int,
) -> Seq<u8>
    decreases m,
{
    if m <= 0 {
        Seq::empty()
    } else {
        spec_plane_rgba8(format, data, w, h, z, m - 1) + spec_row_rgba8(
            format,
            data,
            w,
            h,
            z,
            m - 1,
            w,
        )
    }
}

/// The first `k` depth slices of one level, as RGBA8 bytes.
pub open spec fn spec_level_rgba8_upto(
    format: ImageFormat,
    data: Seq<u8>,
    w: int,
    h: int,
    k: int,
) -> Seq<u8>
    decreases k,
{
    if k <= 0 {
        Seq::empty()
    } else {
        spec_level_rgba8_upto(format, data, w, h, k - 1) + spec_plane_rgba8(
            format,
            data,
            w,
            h,
            k - 1,
            h,
        )
    }
}

/// One whole decoded level: `w * h * d` texels in row-major order, depth
/// slices sequential, four bytes per texel.
pub open spec fn spec_level_rgba8(
    format: ImageFormat,
    w: int,
    h: int,
    d: int,
    data: Seq<u8>,
) -> Seq<u8> {
    spec_level_rgba8_upto(format, data, w, h, d)
}

proof fn lemma_row_rgba8_len(
    format: ImageFormat,
    data: Seq<u8>,
    w: int,
    h: int,
    z: int,
    y: int,
    n: int,
)
    requires
        0 <= n,
    ensures
        spec_row_rgba8(format, data, w, h, z, y, n).len() == 4 * n,
    decreases n,
{
    if n > 0 {
        lemma_row_rgba8_len(format, data, w, h, z, y, n - 1);
    }
}

proof fn lemma_plane_rgba8_len(
    format: ImageFormat,
    data: Seq<u8>,
    w: int,
    h: int,
    z: int,
    m: int,
)
    requires
        0 <= m,
        0 <= w,
    ensures
        spec_plane_rgba8(format, data, w, h, z, m).len() == 4 * w * m,
    decreases m,
{
    if m > 0 {
        lemma_plane_rgba8_len(format, data, w, h, z, m - 1);
        lemma_row_rgba8_len(format, data, w, h, z, m - 1, w);
        assert(spec_plane_rgba8(format, data, w, h, z, m) == spec_plane_rgba8(
            format,
            data,
            w,
            h,
            z,
            m - 1,
        ) + spec_row_rgba8(format, data, w, h, z, m - 1, w));
        assert(spec_plane_rgba8(format, data, w, h, z, m).len() == 4 * w * (m - 1) + 4 * w);
        assert(4 * w * (m - 1) + 4 * w == 4 * w * m) by (nonlinear_arith);
    } else {
        assert(4 * w * m == 0) by (nonlinear_arith)
            requires
                m == 0,
        ;
    }
}

/// A decoded level always holds `4 * w * h * d` bytes, whatever the input
/// bytes hold.
pub proof fn lemma_level_rgba8_len(format: ImageFormat, w: int, h: int, d: int, data: Seq<u8>)
    requires
        0 <= w,
        0 <= h,
        0 <= d,
    ensures
        spec_level_rgba8(format, w, h, d, data).len() == 4 * w * h * d,
    decreases d,
{
    if d > 0 {
        lemma_level_rgba8_len(format, w, h, d - 1, data);
        lemma_plane_rgba8_len(format, data, w, h, d - 1, h);
        assert(spec_level_rgba8(format, w, h, d, data).len() == 4 * w * h * (d - 1) + 4 * w * h);
        assert(4 * w * h * (d - 1) + 4 * w * h == 4 * w * h * d) by (nonlinear_arith);
    } else {
        assert(4 * w * h * d == 0) by (nonlinear_arith)
            requires
                d == 0,
        ;
    }
}

// ---------------------------------------------------------------------------
// Index bounds for the flat walks
// ---------------------------------------------------------------------------
proof fn lemma_grid_bounds(x: int, y: int, z: int, w: int, h: int, d: int, s: int, len: int)
    requires
        0 <= x < w,
        0 <= y < h,
        0 <= z < d,
        1 <= s,
        w * h * d * s == len,
    ensures
        0 <= z * h + y < h * d,
        0 <= (z * h + y) * w + x < w * h * d,
        ((z * h + y) * w + x) * s + s <= len,
        w * h * d <= len,
        (z * h + y) * w <= len,
{
    assert(0 <= z * h + y < h * d) by (nonlinear_arith)
        requires
            0 <= y < h,
            0 <= z < d,
    ;
    assert(0 <= (z * h + y) * w + x < w * h * d) by (nonlinear_arith)
        requires
            0 <= x < w,
            0 <= z * h + y < h * d,
    ;
    assert(((z * h + y) * w + x) * s + s <= w * h * d * s) by (nonlinear_arith)
        requires
            (z * h + y) * w + x < w * h * d,
            1 <= s,
    ;
    assert(w * h * d <= w * h * d * s) by (nonlinear_arith)
        requires
            0 <= w * h * d,
            1 <= s,
    ;
    assert((z * h + y) * w <= (z * h + y) * w + x);
}

proof fn lemma_quarter(x: int, w: int)
    requires
        0 <= x < w,
    ensures
        0 <= x / 4 < (w + 3) / 4,
{
    assert(0 <= x / 4 < (w + 3) / 4) by (nonlinear_arith)
        requires
            0 <= x < w,
    ;
}

// ---------------------------------------------------------------------------
// Decoding one texel, then one level
// ---------------------------------------------------------------------------
fn decode_texel_rgba8(
    format: ImageFormat,
    data: &[u8],
    w: u32,
    h: u32,
    d: u32,
    x: u32,
    y: u32,
    z: u32,
) -> (r: (u8, u8, u8, u8))
    requires
        x < w,
        y < h,
        z < d,
        data@.len() == spec_level_data_len(format, w as nat, h as nat, d as nat),
    ensures
        r.0 == spec_texel_byte(format, data@, w as int, h as int, x as int, y as int, z as int, 0),
        r.1 == spec_texel_byte(format, data@, w as int, h as int, x as int, y as int, z as int, 1),
        r.2 == spec_texel_byte(format, data@, w as int, h as int, x as int, y as int, z as int, 2),
        r.3 == spec_texel_byte(format, data@, w as int, h as int, x as int, y as int, z as int, 3),
{
    let len: usize = data.len();
    let bpb: u64 = format.bytes_per_unit();
    if format.is_block_compressed() {
        let bw: u64 = (w as u64 + 3) / 4;
        let bh: u64 = (h as u64 + 3) / 4;
        let bx: u64 = (x as u64) / 4;
        let by: u64 = (y as u64) / 4;
        proof {
            lemma_quarter(x as int, w as int);
            lemma_quarter(y as int, h as int);
            lemma_grid_bounds(
                bx as int,
                by as int,
                z as int,
                bw as int,
                bh as int,
                d as int,
                bpb as int,
                len as int,
            );
            assert((z as int) * (bh as int) <= 0xffff_ffff * 0x4000_0000) by (nonlinear_arith)
                requires
                    z <= 0xffff_ffffu64,
                    bh <= 0x4000_0000u64,
            ;
        }
        let bi: u64 = ((z as u64) * bh + by) * bw + bx;
        let boff: u64 = bi * bpb;
        let start: usize = boff as usize;
        let end: usize = (boff + bpb) as usize;
        let block = slice_subrange(data, start, end);
        let t: usize = (((y % 4) * 4 + x % 4)) as usize;
        proof {
            lemma_quad_index(t as int, 0);
            lemma_quad_index(t as int, 1);
            lemma_quad_index(t as int, 2);
            lemma_quad_index(t as int, 3);
        }
        match format {
            ImageFormat::BC1Unorm | ImageFormat::BC1Srgb => {
                let v = crate::bc::decode_bc1_block(block);
                (v[4 * t], v[4 * t + 1], v[4 * t + 2], v[4 * t + 3])
            },
            ImageFormat::BC2Unorm | ImageFormat::BC2Srgb => {
                let v = crate::bc::decode_bc2_block(block);
                (v[4 * t], v[4 * t + 1], v[4 * t + 2], v[4 * t + 3])
            },
            ImageFormat::BC3Unorm | ImageFormat::BC3Srgb => {
                let v = crate::bc::decode_bc3_block(block);
                (v[4 * t], v[4 * t + 1], v[4 * t + 2], v[4 * t + 3])
            },
            ImageFormat::BC4Unorm | ImageFormat::BC4Snorm => {
                let v = crate::bc::decode_bc4_block(block);
                (v[4 * t], v[4 * t + 1], v[4 * t + 2], v[4 * t + 3])
            },
            ImageFormat::BC5Unorm | ImageFormat::BC5Snorm => {
                let v = crate::bc::decode_bc5_block(block);
                (v[4 * t], v[4 * t + 1], v[4 * t + 2], v[4 * t + 3])
            },
            ImageFormat::BC6Ufloat => {
                let v = crate::bc67::decode_bc6_block(block, false);
                (v[4 * t], v[4 * t + 1], v[4 * t + 2], v[4 * t + 3])
            },
            ImageFormat::BC6Sfloat => {
                let v = crate::bc67::decode_bc6_block(block, true);
                (v[4 * t], v[4 * t + 1], v[4 * t + 2], v[4 * t + 3])
            },
            ImageFormat::BC7Unorm | ImageFormat::BC7Srgb => {
                let v = crate::bc67::bc7_block_rgba8(block);
                (v[4 * t], v[4 * t + 1], v[4 * t + 2], v[4 * t + 3])
            },
            _ => {
                proof {
                    assert(false);
                }
                (0, 0, 0, 0)
            },
        }
    } else {
        proof {
            lemma_grid_bounds(
                x as int,
                y as int,
                z as int,
                w as int,
                h as int,
                d as int,
                bpb as int,
                len as int,
            );
            assert((z as int) * (h as int) <= 0xffff_ffff * 0xffff_ffff) by (nonlinear_arith)
                requires
                    z <= 0xffff_ffffu64,
                    h <= 0xffff_ffffu64,
            ;
        }
        let lin: u64 = ((z as u64) * (h as u64) + (y as u64)) * (w as u64) + (x as u64);
        let base: u64 = lin * bpb;
        let b: usize = base as usize;
        match format {
            ImageFormat::R8Unorm => {
                (*slice_index_get(data, b), 0, 0, 255)
            },
            ImageFormat::R8G8B8A8Unorm | ImageFormat::R8G8B8A8Srgb => {
                (
                    *slice_index_get(data, b),
                    *slice_index_get(data, b + 1),
                    *slice_index_get(data, b + 2),
                    *slice_index_get(data, b + 3),
                )
            },
            ImageFormat::B8G8R8A8Unorm | ImageFormat::B8G8R8A8Srgb => {
                (
                    *slice_index_get(data, b + 2),
                    *slice_index_get(data, b + 1),
                    *slice_index_get(data, b),
                    *slice_index_get(data, b + 3),
                )
            },
            ImageFormat::R16G16B16A16Float => {
                let c0 = crate::num::le16(*slice_index_get(data, b), *slice_index_get(data, b + 1));
                let c1 = crate::num::le16(
                    *slice_index_get(data, b + 2),
                    *slice_index_get(data, b + 3),
                );
                let c2 = crate::num::le16(
                    *slice_index_get(data, b + 4),
                    *slice_index_get(data, b + 5),
                );
                let c3 = crate::num::le16(
                    *slice_index_get(data, b + 6),
                    *slice_index_get(data, b + 7),
                );
                (
                    crate::num::unorm8_from_f16_bits(c0),
                    crate::num::unorm8_from_f16_bits(c1),
                    crate::num::unorm8_from_f16_bits(c2),
                    crate::num::unorm8_from_f16_bits(c3),
                )
            },
            ImageFormat::R32G32B32A32Float => {
                let c0 = crate::num::le32(
                    *slice_index_get(data, b),
                    *slice_index_get(data, b + 1),
                    *slice_index_get(data, b + 2),
                    *slice_index_get(data, b + 3),
                );
                let c1 = crate::num::le32(
                    *slice_index_get(data, b + 4),
                    *slice_index_get(data, b + 5),
                    *slice_index_get(data, b + 6),
                    *slice_index_get(data, b + 7),
                );
                let c2 = crate::num::le32(
                    *slice_index_get(data, b + 8),
                    *slice_index_get(data, b + 9),
                    *slice_index_get(data, b + 10),
                    *slice_index_get(data, b + 11),
                );
                let c3 = crate::num::le32(
                    *slice_index_get(data, b + 12),
                    *slice_index_get(data, b + 13),
                    *slice_index_get(data, b + 14),
                    *slice_index_get(data, b + 15),
                );
                (
                    crate::num::unorm8_from_f32_bits(c0),
                    crate::num::unorm8_from_f32_bits(c1),
                    crate::num::unorm8_from_f32_bits(c2),
                    crate::num::unorm8_from_f32_bits(c3),
                )
            },
            _ => {
                proof {
                    assert(false);
                }
                (0, 0, 0, 0)
            },
        }
    }
}

fn decode_level_rgba8(format: ImageFormat, w: u32, h: u32, d: u32, data: &[u8]) -> (out: Vec<u8>)
    requires
        data@.len() == spec_level_data_len(format, w as nat, h as nat, d as nat),
    ensures
        out@ == spec_level_rgba8(format, w as int, h as int, d as int, data@),
{
    let mut out: Vec<u8> = Vec::new();
    let mut z: u32 = 0;
    while z < d
        invariant
            z <= d,
            data@.len() == spec_level_data_len(format, w as nat, h as nat, d as nat),
            out@ == spec_level_rgba8_upto(format, data@, w as int, h as int, z as int),
        decreases d - z,
    {
        let mut y: u32 = 0;
        while y < h
            invariant
                z < d,
                y <= h,
                data@.len() == spec_level_data_len(format, w as nat, h as nat, d as nat),
                out@ == spec_level_rgba8_upto(format, data@, w as int, h as int, z as int)
                    + spec_plane_rgba8(format, data@, w as int, h as int, z as int, y as int),
            decreases h - y,
        {
            let mut x: u32 = 0;
            while x < w
                invariant
                    z < d,
                    y < h,
                    x <= w,
                    data@.len() == spec_level_data_len(format, w as nat, h as nat, d as nat),
                    out@ == spec_level_rgba8_upto(format, data@, w as int, h as int, z as int)
                        + spec_plane_rgba8(format, data@, w as int, h as int, z as int, y as int)
                        + spec_row_rgba8(
                        format,
                        data@,
                        w as int,
                        h as int,
                        z as int,
                        y as int,
                        x as int,
                    ),
                decreases w - x,
            {
                let (r, g, b, a) = decode_texel_rgba8(format, data, w, h, d, x, y, z);
                out.push(r);
                out.push(g);
                out.push(b);
                out.push(a);
                proof {
                    assert(out@ =~= spec_level_rgba8_upto(format, data@, w as int, h as int, z as int)
                        + spec_plane_rgba8(format, data@, w as int, h as int, z as int, y as int)
                        + spec_row_rgba8(
                        format,
                        data@,
                        w as int,
                        h as int,
                        z as int,
                        y as int,
                        x as int + 1,
                    ));
                }
                x = x + 1;
            }
            proof {
                assert(out@ =~= spec_level_rgba8_upto(format, data@, w as int, h as int, z as int)
                    + spec_plane_rgba8(format, data@, w as int, h as int, z as int, y as int + 1));
            }
            y = y + 1;
        }
        proof {
            assert(out@ =~= spec_level_rgba8_upto(format, data@, w as int, h as int, z as int + 1));
        }
        z = z + 1;
    }
    out
}

/// Decodes one level's bytes to RGBA8.
///
/// `data` must be exactly the level's storage: for packed formats that is
/// a precondition; for block-compressed formats any other length is
/// reported as `NotEnoughData` naming the expected and actual sizes.
pub fn decode_data_rgba8(
    width: u32,
    height: u32,
    depth: u32,
    image_format: ImageFormat,
    data: &[u8],
) -> (r: Result<Vec<u8>, SurfaceError>)
    requires
        spec_level_data_len(image_format, width as nat, height as nat, depth as nat)
            <= usize::MAX,
        !spec_is_block_compressed(image_format) ==> data@.len() == spec_level_data_len(
            image_format,
            width as nat,
            height as nat,
            depth as nat,
        ),
    ensures
        r is Ok <==> data@.len() == spec_level_data_len(
            image_format,
            width as nat,
            height as nat,
            depth as nat,
        ),
        r matches Ok(v) ==> v@ == spec_level_rgba8(
            image_format,
            width as int,
            height as int,
            depth as int,
            data@,
        ),
        r matches Ok(v) ==> v@.len() == 4 * (width as int) * (height as int) * (depth as int),
        r matches Err(e) ==> e == (SurfaceError::NotEnoughData {
            expected: spec_level_data_len(
                image_format,
                width as nat,
                height as nat,
                depth as nat,
            ) as usize,
            actual: data@.len() as usize,
        }),
{
    let expected64: u64 = match level_data_len(image_format, width, height, depth) {
        Some(v) => v,
        None => {
            proof {
                assert(usize::MAX <= u64::MAX);
                assert(false);
            }
            0
        },
    };
    let expected: usize = expected64 as usize;
    if data.len() != expected {
        return Err(SurfaceError::NotEnoughData { expected, actual: data.len() });
    }
    let out = decode_level_rgba8(image_format, width, height, depth, data);
    proof {
        lemma_level_rgba8_len(
            image_format,
            width as int,
            height as int,
            depth as int,
            data@,
        );
    }
    Ok(out)
}

// ---------------------------------------------------------------------------
// BC6H levels as half-float bit patterns
// ---------------------------------------------------------------------------
/// Channel `c` of the texel at `(x, y, z)` of a BC6H level, as a
/// half-float bit pattern; the alpha channel is constant 1.0 (`0x3C00`).
pub open spec fn spec_bc6_texel_bits(
    data: Seq<u8>,
    w: int,
    h: int,
    x: int,
    y: int,
    z: int,
    c: int,
    signed: bool,
) -> u16 {
    let bw = (w + 3) / 4;
    let bh = (h + 3) / 4;
    let bi = (z * bh + y / 4) * bw + x / 4;
    let block = data.subrange(bi * 16, bi * 16 + 16);
    let t = (y % 4) * 4 + x % 4;
    if c == 3 {
        0x3C00
    } else {
        crate::bc67::spec_bc6_half_texels(block, signed)[3 * t + c]
    }
}

/// The first `n` texels of one row of a BC6H level, as half bit patterns.
pub open spec fn spec_bc6_row_bits(
    data: Seq<u8>,
    w: int,
    h: int,
    z: int,
    y: int,
    n: int,
    signed: bool,
) -> Seq<u16>
    decreases n,
{
    if n <= 0 {
        Seq::empty()
    } else {
        spec_bc6_row_bits(data, w, h, z, y, n - 1, signed) + seq![
            spec_bc6_texel_bits(data, w, h, n - 1, y, z, 0, signed),
            spec_bc6_texel_bits(data, w, h, n - 1, y, z, 1, signed),
            spec_bc6_texel_bits(data, w, h, n - 1, y, z, 2, signed),
            spec_bc6_texel_bits(data, w, h, n - 1, y, z, 3, signed),
        ]
    }
}

/// The first `m` rows of one depth slice of a BC6H level.
pub open spec fn spec_bc6_plane_bits(
    data: Seq<u8>,
    w: int,
    h: int,
    z: int,
    m: int,
    signed: bool,
) -> Seq<u16>
    decreases m,
{
    if m <= 0 {
        Seq::empty()
    } else {
        spec_bc6_plane_bits(data, w, h, z, m - 1, signed) + spec_bc6_row_bits(
            data,
            w,
            h,
            z,
            m - 1,
            w,
            signed,
        )
    }
}

/// The first `k` depth slices of a BC6H level, as half bit patterns.
pub open spec fn spec_bc6_level_bits_upto(
    data: Seq<u8>,
    w: int,
    h: int,
    k: int,
    signed: bool,
) -> Seq<u16>
    decreases k,
{
    if k <= 0 {
        Seq::empty()
    } else {
        spec_bc6_level_bits_upto(data, w, h, k - 1, signed) + spec_bc6_plane_bits(
            data,
            w,
            h,
            k - 1,
            h,
            signed,
        )
    }
}

/// One whole BC6H level decoded to half-float bit patterns: four `u16`
/// channels per texel (R, G, B and a constant 1.0 alpha), row-major,
/// depth slices sequential.
pub open spec fn spec_bc6_level_bits(
    w: int,
    h: int,
    d: int,
    data: Seq<u8>,
    signed: bool,
) -> Seq<u16> {
    spec_bc6_level_bits_upto(data, w, h, d, signed)
}

fn decode_bc6_texel_bits(
    data: &[u8],
    w: u32,
    h: u32,
    d: u32,
    x: u32,
    y: u32,
    z: u32,
    signed: bool,
) -> (r: (u16, u16, u16))
    requires
        x < w,
        y < h,
        z < d,
        data@.len() == spec_level_data_len(
            ImageFormat::BC6Ufloat,
            w as nat,
            h as nat,
            d as nat,
        ),
    ensures
        r.0 == spec_bc6_texel_bits(data@, w as int, h as int, x as int, y as int, z as int, 0, signed),
        r.1 == spec_bc6_texel_bits(data@, w as int, h as int, x as int, y as int, z as int, 1, signed),
        r.2 == spec_bc6_texel_bits(data@, w as int, h as int, x as int, y as int, z as int, 2, signed),
{
    let len: usize = data.len();
    let bw: u64 = (w as u64 + 3) / 4;
    let bh: u64 = (h as u64 + 3) / 4;
    let bx: u64 = (x as u64) / 4;
    let by: u64 = (y as u64) / 4;
    proof {
        lemma_quarter(x as int, w as int);
        lemma_quarter(y as int, h as int);
        lemma_grid_bounds(
            bx as int,
            by as int,
            z as int,
            bw as int,
            bh as int,
            d as int,
            16,
            len as int,
        );
        assert((z as int) * (bh as int) <= 0xffff_ffff * 0x4000_0000) by (nonlinear_arith)
            requires
                z <= 0xffff_ffffu64,
                bh <= 0x4000_0000u64,
        ;
    }
    let bi: u64 = ((z as u64) * bh + by) * bw + bx;
    let boff: u64 = bi * 16;
    let block = slice_subrange(data, boff as usize, (boff + 16) as usize);
    let bits = crate::bc67::bc6_block_half_bits(block, signed);
    let t: usize = (((y % 4) * 4 + x % 4)) as usize;
    (
        *slice_index_get(bits.as_slice(), 3 * t),
        *slice_index_get(bits.as_slice(), 3 * t + 1),
        *slice_index_get(bits.as_slice(), 3 * t + 2),
    )
}

/// Decodes one BC6H level to half-float bit patterns: four `u16` channels
/// per texel, the alpha constant 1.0. `signed` selects the signed format
/// variant. A byte slice that does not match the level's block grid is
/// reported as `NotEnoughData`.
pub fn decode_bc6_half_bits(
    width: u32,
    height: u32,
    depth: u32,
    data: &[u8],
    signed: bool,
) -> (r: Result<Vec<u16>, SurfaceError>)
    requires
        spec_level_data_len(ImageFormat::BC6Ufloat, width as nat, height as nat, depth as nat)
            <= usize::MAX,
    ensures
        r is Ok <==> data@.len() == spec_level_data_len(
            ImageFormat::BC6Ufloat,
            width as nat,
            height as nat,
            depth as nat,
        ),
        r matches Ok(v) ==> v@ == spec_bc6_level_bits(
            width as int,
            height as int,
            depth as int,
            data@,
            signed,
        ),
        r matches Err(e) ==> e == (SurfaceError::NotEnoughData {
            expected: spec_level_data_len(
                ImageFormat::BC6Ufloat,
                width as nat,
                height as nat,
                depth as nat,
            ) as usize,
            actual: data@.len() as usize,
        }),
{
    let expected64: u64 = match level_data_len(ImageFormat::BC6Ufloat, width, height, depth) {
        Some(v) => v,
        None => {
            proof {
                assert(usize::MAX <= u64::MAX);
                assert(false);
            }
            0
        },
    };
    let expected: usize = expected64 as usize;
    if data.len() != expected {
        return Err(SurfaceError::NotEnoughData { expected, actual: data.len() });
    }
    let mut out: Vec<u16> = Vec::new();
    let mut z: u32 = 0;
    while z < depth
        invariant
            z <= depth,
            data@.len() == spec_level_data_len(
                ImageFormat::BC6Ufloat,
                width as nat,
                height as nat,
                depth as nat,
            ),
            out@ == spec_bc6_level_bits_upto(data@, width as int, height as int, z as int, signed),
        decreases depth - z,
    {
        let mut y: u32 = 0;
        while y < height
            invariant
                z < depth,
                y <= height,
                data@.len() == spec_level_data_len(
                    ImageFormat::BC6Ufloat,
                    width as nat,
                    height as nat,
                    depth as nat,
                ),
                out@ == spec_bc6_level_bits_upto(
                    data@,
                    width as int,
                    height as int,
                    z as int,
                    signed,
                ) + spec_bc6_plane_bits(data@, width as int, height as int, z as int, y as int, signed),
            decreases height - y,
        {
            let mut x: u32 = 0;
            while x < width
                invariant
                    z < depth,
                    y < height,
                    x <= width,
                    data@.len() == spec_level_data_len(
                        ImageFormat::BC6Ufloat,
                        width as nat,
                        height as nat,
                        depth as nat,
                    ),
                    out@ == spec_bc6_level_bits_upto(
                        data@,
                        width as int,
                        height as int,
                        z as int,
                        signed,
                    ) + spec_bc6_plane_bits(
                        data@,
                        width as int,
                        height as int,
                        z as int,
                        y as int,
                        signed,
                    ) + spec_bc6_row_bits(
                        data@,
                        width as int,
                        height as int,
                        z as int,
                        y as int,
                        x as int,
                        signed,
                    ),
                decreases width - x,
            {
                let (r, g, b) = decode_bc6_texel_bits(data, width, height, depth, x, y, z, signed);
                out.push(r);
                out.push(g);
                out.push(b);
                out.push(0x3C00);
                proof {
                    assert(out@ =~= spec_bc6_level_bits_upto(
                        data@,
                        width as int,
                        height as int,
                        z as int,
                        signed,
                    ) + spec_bc6_plane_bits(
                        data@,
                        width as int,
                        height as int,
                        z as int,
                        y as int,
                        signed,
                    ) + spec_bc6_row_bits(
                        data@,
                        width as int,
                        height as int,
                        z as int,
                        y as int,
                        x as int + 1,
                        signed,
                    ));
                }
                x = x + 1;
            }
            proof {
                assert(out@ =~= spec_bc6_level_bits_upto(
                    data@,
                    width as int,
                    height as int,
                    z as int,
                    signed,
                ) + spec_bc6_plane_bits(
                    data@,
                    width as int,
                    height as int,
                    z as int,
                    y as int + 1,
                    signed,
                ));
            }
            y = y + 1;
        }
        proof {
            assert(out@ =~= spec_bc6_level_bits_upto(
                data@,
                width as int,
                height as int,
                z as int + 1,
                signed,
            ));
        }
        z = z + 1;
    }
    Ok(out)
}

// ---------------------------------------------------------------------------
// The whole surface, level after level
// ---------------------------------------------------------------------------
/// The RGBA8 bytes of the first `m` mip levels of `layer`.
pub open spec fn spec_mips_rgba8(s: Surface, layer: int, m: int) -> Seq<u8>
    decreases m,
{
    if m <= 0 {
        Seq::empty()
    } else {
        let off = s.spec_level_offset(layer as nat, (m - 1) as nat) as int;
        let len = s.spec_level_len((m - 1) as nat) as int;
        spec_mips_rgba8(s, layer, m - 1) + spec_level_rgba8(
            s.image_format,
            spec_mip_dimension(s.width as nat, (m - 1) as nat) as int,
            spec_mip_dimension(s.height as nat, (m - 1) as nat) as int,
            spec_mip_dimension(s.depth as nat, (m - 1) as nat) as int,
            s.data@.subrange(off, off + len),
        )
    }
}

/// The RGBA8 bytes of the first `l` layers.
pub open spec fn spec_layers_rgba8(s: Surface, l: int) -> Seq<u8>
    decreases l,
{
    if l <= 0 {
        Seq::empty()
    } else {
        spec_layers_rgba8(s, l - 1) + spec_mips_rgba8(s, l - 1, s.mipmaps as int)
    }
}

/// Everything a successful decode of `s` returns: all layers' mip chains,
/// layer-major, mip-minor.
pub open spec fn spec_surface_rgba8(s: Surface) -> Seq<u8> {
    spec_layers_rgba8(s, s.layers as int)
}

/// RGBA8 bytes of the first `m` mip levels of one layer:
/// `sum over levels of 4 * w_level * h_level * d_level`.
pub open spec fn spec_layer_rgba8_len(s: Surface, m: int) -> int
    decreases m,
{
    if m <= 0 {
        0
    } else {
        spec_layer_rgba8_len(s, m - 1) + 4 * (spec_mip_dimension(s.width as nat, (m - 1) as nat) as int)
            * (spec_mip_dimension(s.height as nat, (m - 1) as nat) as int) * (spec_mip_dimension(
            s.depth as nat,
            (m - 1) as nat,
        ) as int)
    }
}

proof fn lemma_mips_rgba8_len(s: Surface, layer: int, m: int)
    requires
        0 <= m,
    ensures
        spec_mips_rgba8(s, layer, m).len() == spec_layer_rgba8_len(s, m),
    decreases m,
{
    if m > 0 {
        lemma_mips_rgba8_len(s, layer, m - 1);
        lemma_level_rgba8_len(
            s.image_format,
            spec_mip_dimension(s.width as nat, (m - 1) as nat) as int,
            spec_mip_dimension(s.height as nat, (m - 1) as nat) as int,
            spec_mip_dimension(s.depth as nat, (m - 1) as nat) as int,
            s.data@.subrange(
                s.spec_level_offset(layer as nat, (m - 1) as nat) as int,
                s.spec_level_offset(layer as nat, (m - 1) as nat) as int + s.spec_level_len(
                    (m - 1) as nat,
                ) as int,
            ),
        );
    }
}

proof fn lemma_layers_rgba8_len(s: Surface, l: int)
    requires
        0 <= l,
    ensures
        spec_layers_rgba8(s, l).len() == l * spec_layer_rgba8_len(s, s.mipmaps as int),
    decreases l,
{
    if l > 0 {
        lemma_layers_rgba8_len(s, l - 1);
        lemma_mips_rgba8_len(s, l - 1, s.mipmaps as int);
        assert(spec_layers_rgba8(s, l).len() == (l - 1) * spec_layer_rgba8_len(
            s,
            s.mipmaps as int,
        ) + spec_layer_rgba8_len(s, s.mipmaps as int));
        assert((l - 1) * spec_layer_rgba8_len(s, s.mipmaps as int) + spec_layer_rgba8_len(
            s,
            s.mipmaps as int,
        ) == l * spec_layer_rgba8_len(s, s.mipmaps as int)) by (nonlinear_arith);
    } else {
        assert(l * spec_layer_rgba8_len(s, s.mipmaps as int) == 0) by (nonlinear_arith)
            requires
                l == 0,
        ;
    }
}

impl Surface {
    /// Decodes every layer and mip level to one flat RGBA8 buffer.
    ///
    /// The surface geometry is validated first and the first applicable
    /// geometry error is returned. The levels are then decoded in
    /// layer-major, mip-minor order; the first level whose byte range
    /// falls outside `data` aborts the whole call with
    /// `MipmapDataOutOfBounds` naming that layer and mipmap. On success
    /// the output buffer holds, for every level in order, `4 * w * h * d`
    /// bytes of row-major RGBA texels, and nothing else.
    pub fn decode_rgba8(&self) -> (r: Result<SurfaceRgba8, SurfaceError>)
        ensures
            r is Ok <==> (self.spec_validate_err() is None && forall|l: int, m: int|
                0 <= l < self.layers && 0 <= m < self.mipmaps ==> #[trigger] self.spec_level_fits(
                    l as nat,
                    m as nat,
                )),
            r matches Ok(out) ==> {
                &&& out.width == self.width
                &&& out.height == self.height
                &&& out.depth == self.depth
                &&& out.layers == self.layers
                &&& out.mipmaps == self.mipmaps
                &&& out.data@ == spec_surface_rgba8(*self)
                &&& out.data@.len() == (self.layers as int) * spec_layer_rgba8_len(
                    *self,
                    self.mipmaps as int,
                )
            },
            r matches Err(e) ==> match self.spec_validate_err() {
                Some(e0) => e == e0,
                None => exists|l: int, m: int|
                    {
                        &&& 0 <= l < self.layers
                        &&& 0 <= m < self.mipmaps
                        &&& !(#[trigger] self.spec_level_fits(l as nat, m as nat))
                        &&& e == (SurfaceError::MipmapDataOutOfBounds {
                            layer: l as u32,
                            mipmap: m as u32,
                        })
                        &&& forall|l2: int, m2: int|
                            0 <= l2 < self.layers && 0 <= m2 < self.mipmaps && (l2 < l || (l2 == l
                                && m2 < m)) ==> #[trigger] self.spec_level_fits(l2 as nat, m2 as nat)
                    },
            },
    {
        match self.validate() {
            Ok(_) => (),
            Err(e) => {
                return Err(e);
            },
        }
        let mut combined: Vec<u8> = Vec::new();
        let mut layer: u32 = 0;
        while layer < self.layers
            invariant
                layer <= self.layers,
                self.spec_validate_err() is None,
                combined@ == spec_layers_rgba8(*self, layer as int),
                forall|l2: int, m2: int|
                    0 <= l2 < layer && 0 <= m2 < self.mipmaps ==> #[trigger] self.spec_level_fits(
                        l2 as nat,
                        m2 as nat,
                    ),
            decreases self.layers - layer,
        {
            let mut mipmap: u32 = 0;
            while mipmap < self.mipmaps
                invariant
                    layer < self.layers,
                    mipmap <= self.mipmaps,
                    self.spec_validate_err() is None,
                    combined@ == spec_layers_rgba8(*self, layer as int) + spec_mips_rgba8(
                        *self,
                        layer as int,
                        mipmap as int,
                    ),
                    forall|l2: int, m2: int|
                        0 <= l2 < layer && 0 <= m2 < self.mipmaps ==> #[trigger] self.spec_level_fits(
                            l2 as nat,
                            m2 as nat,
                        ),
                    forall|m2: int|
                        0 <= m2 < mipmap ==> #[trigger] self.spec_level_fits(layer as nat, m2 as nat),
                decreases self.mipmaps - mipmap,
            {
                let data = match self.get(layer, mipmap) {
                    Some(d) => d,
                    None => {
                        proof {
                            let li: int = layer as int;
                            let mi: int = mipmap as int;
                            assert(!self.spec_level_fits(li as nat, mi as nat));
                            assert(forall|l2: int, m2: int|
                                0 <= l2 < self.layers && 0 <= m2 < self.mipmaps && (l2 < li || (l2
                                    == li && m2 < mi)) ==> #[trigger] self.spec_level_fits(
                                    l2 as nat,
                                    m2 as nat,
                                ));
                        }
                        return Err(
                            SurfaceError::MipmapDataOutOfBounds { layer, mipmap },
                        );
                    },
                };
                let width = mip_dimension(self.width, mipmap);
                let height = mip_dimension(self.height, mipmap);
                let depth = mip_dimension(self.depth, mipmap);
                let dl: usize = data.len();
                let mut decoded = match decode_data_rgba8(
                    width,
                    height,
                    depth,
                    self.image_format,
                    data,
                ) {
                    Ok(v) => v,
                    Err(e) => {
                        proof {
                            assert(false);
                        }
                        return Err(e);
                    },
                };
                combined.append(&mut decoded);
                proof {
                    assert(combined@ =~= spec_layers_rgba8(*self, layer as int) + spec_mips_rgba8(
                        *self,
                        layer as int,
                        mipmap as int + 1,
                    ));
                }
                mipmap = mipmap + 1;
            }
            proof {
                assert(combined@ =~= spec_layers_rgba8(*self, layer as int + 1));
            }
            layer = layer + 1;
        }
        proof {
            lemma_layers_rgba8_len(*self, self.layers as int);
        }
        Ok(
            SurfaceRgba8 {
                width: self.width,
                height: self.height,
                depth: self.depth,
                layers: self.layers,
                mipmaps: self.mipmaps,
                data: combined,
            },
        )
    }
}

} // verus!
