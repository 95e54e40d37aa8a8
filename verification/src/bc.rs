use crate::num::spec_le16;
use vstd::arithmetic::div_mod::lemma_div_is_ordered;
use vstd::arithmetic::power2::lemma2_to64;
use vstd::arithmetic::power2::lemma_pow2_pos;
use vstd::arithmetic::power2::pow2;
use vstd::prelude::*;
use vstd::slice::slice_index_get;
use vstd::slice::slice_subrange;

verus! {

// ---------------------------------------------------------------------------
// Shared helpers
// ---------------------------------------------------------------------------
/// Splitting a flat index into a texel index and a channel: `4 * t + c`
/// recovers `t` and `c` for any channel `c < 4`.
pub proof fn lemma_quad_index(t: int, c: int)
    requires
        0 <= t,
        0 <= c < 4,
    ensures
        (4 * t + c) / 4 == t,
        (4 * t + c) % 4 == c,
{
    assert((4 * t + c) / 4 == t && (4 * t + c) % 4 == c) by (nonlinear_arith)
        requires
            0 <= t,
            0 <= c < 4,
    ;
}

proof fn lemma_div_bound(x: int, y: int, d: int)
    requires
        0 <= x <= y,
        0 < d,
    ensures
        x / d <= y / d,
{
    lemma_div_is_ordered(x, y, d);
}

fn bget(s: &[u8], i: usize) -> (r: u8)
    requires
        i < s@.len(),
    ensures
        r == s@[i as int],
{
    *slice_index_get(s, i)
}

/// The 2-bit field `j` of a byte, lowest bits first.
pub open spec fn spec_two_bit(byte: u8, j: int) -> nat {
    (byte as nat / pow2((2 * j) as nat)) % 4
}

fn two_bit(byte: u8, j: usize) -> (r: u8)
    requires
        j < 4,
    ensures
        r as nat == spec_two_bit(byte, j as int),
        r < 4,
{
    proof {
        lemma2_to64();
    }
    let d: u8 = if j == 0 {
        1
    } else if j == 1 {
        4
    } else if j == 2 {
        16
    } else {
        64
    };
    (byte / d) % 4
}

/// The 48-bit little-endian index field of an 8-byte BC4-style channel
/// block: bytes 2 through 7.
pub open spec fn spec_le48(b: Seq<u8>) -> nat {
    b[2] as nat + 256 * (b[3] as nat + 256 * (b[4] as nat + 256 * (b[5] as nat + 256 * (
    b[6] as nat + 256 * (b[7] as nat)))))
}

/// The 3-bit index of texel `t` in an 8-byte BC4-style channel block.
pub open spec fn spec_three_bit_index(b: Seq<u8>, t: int) -> nat {
    (spec_le48(b) / pow2((3 * t) as nat)) % 8
}

fn index_bits48(cb: &[u8]) -> (r: u64)
    requires
        cb@.len() == 8,
    ensures
        r == spec_le48(cb@),
{
    let b2 = bget(cb, 2) as u64;
    let b3 = bget(cb, 3) as u64;
    let b4 = bget(cb, 4) as u64;
    let b5 = bget(cb, 5) as u64;
    let b6 = bget(cb, 6) as u64;
    let b7 = bget(cb, 7) as u64;
    b2 + 256 * (b3 + 256 * (b4 + 256 * (b5 + 256 * (b6 + 256 * b7))))
}

fn three_bit(ind: u64, t: usize) -> (r: u8)
    requires
        t < 16,
    ensures
        r as nat == (ind as nat / pow2((3 * t) as nat)) % 8,
        r < 8,
{
    let d: u64 = crate::num::pow2_u64(3 * (t as u32));
    proof {
        lemma_pow2_pos((3 * t) as nat);
    }
    ((ind / d) % 8) as u8
}

// ---------------------------------------------------------------------------
// The BC1-style color block: two RGB565 endpoints and 2-bit indices
// ---------------------------------------------------------------------------
/// A 5-bit channel expanded to 8 bits with hardware rounding.
pub open spec fn spec_expand5(x: nat) -> u8 {
    ((x * 527 + 23) / 64) as u8
}

/// A 6-bit channel expanded to 8 bits with hardware rounding.
pub open spec fn spec_expand6(x: nat) -> u8 {
    ((x * 259 + 33) / 64) as u8
}

/// Two-thirds/one-third blend of two 5-bit channels, expanded to 8 bits.
pub open spec fn spec_blend5(x: nat, y: nat) -> u8 {
    (((2 * x + y) * 351 + 61) / 128) as u8
}

/// Two-thirds/one-third blend of two 6-bit channels, expanded to 8 bits.
pub open spec fn spec_blend6(x: nat, y: nat) -> u8 {
    (((2 * x + y) * 2763 + 1039) / 2048) as u8
}

/// Midpoint of two 5-bit channels, expanded to 8 bits.
pub open spec fn spec_mid5(x: nat, y: nat) -> u8 {
    (((x + y) * 1053 + 125) / 256) as u8
}

/// Midpoint of two 6-bit channels, expanded to 8 bits.
pub open spec fn spec_mid6(x: nat, y: nat) -> u8 {
    (((x + y) * 4145 + 1019) / 2048) as u8
}

/// Channel `c` of palette entry `pi` of a BC1-style color block.
///
/// Entries 0 and 1 are the two RGB565 endpoints expanded to 888. When the
/// first endpoint's packed value exceeds the second's — or always, for the
/// color halves of BC2 and BC3 (`opaque`) — entries 2 and 3 blend the
/// endpoints two-to-one. Otherwise the block is in three-color mode: entry
/// 2 is the midpoint and entry 3 is transparent black.
pub open spec fn spec_bc1_palette(b: Seq<u8>, opaque: bool, pi: int, c: int) -> u8 {
    let c0 = spec_le16(b[0], b[1]);
    let c1 = spec_le16(b[2], b[3]);
    let four = c0 > c1 || opaque;
    let x0 = if c == 0 {
        c0 / 2048 % 32
    } else if c == 1 {
        c0 / 32 % 64
    } else {
        c0 % 32
    };
    let x1 = if c == 0 {
        c1 / 2048 % 32
    } else if c == 1 {
        c1 / 32 % 64
    } else {
        c1 % 32
    };
    if c == 3 {
        if pi == 3 && !four {
            0
        } else {
            255
        }
    } else if pi == 0 {
        if c == 1 {
            spec_expand6(x0)
        } else {
            spec_expand5(x0)
        }
    } else if pi == 1 {
        if c == 1 {
            spec_expand6(x1)
        } else {
            spec_expand5(x1)
        }
    } else if pi == 2 {
        if four {
            if c == 1 {
                spec_blend6(x0, x1)
            } else {
                spec_blend5(x0, x1)
            }
        } else {
            if c == 1 {
                spec_mid6(x0, x1)
            } else {
                spec_mid5(x0, x1)
            }
        }
    } else {
        if four {
            if c == 1 {
                spec_blend6(x1, x0)
            } else {
                spec_blend5(x1, x0)
            }
        } else {
            0
        }
    }
}

/// The 2-bit palette index of texel `t` in a BC1-style color block.
pub open spec fn spec_bc1_index(b: Seq<u8>, t: int) -> nat {
    spec_two_bit(b[4 + t / 4], t % 4)
}

/// Channel `c` of texel `t` of a decoded BC1-style color block.
pub open spec fn spec_color_texel_byte(b: Seq<u8>, opaque: bool, t: int, c: int) -> u8 {
    spec_bc1_palette(b, opaque, spec_bc1_index(b, t) as int, c)
}

/// The 16 texels of a BC1-style color block as 64 RGBA bytes.
pub open spec fn spec_color_texels(b: Seq<u8>, opaque: bool) -> Seq<u8> {
    Seq::new(64, |k: int| spec_color_texel_byte(b, opaque, k / 4, k % 4))
}

fn expand5(x: u32) -> (r: u8)
    requires
        x < 32,
    ensures
        r == spec_expand5(x as nat),
{
    proof {
        lemma_div_bound((x * 527 + 23) as int, 16360, 64);
    }
    ((x * 527 + 23) / 64) as u8
}

fn expand6(x: u32) -> (r: u8)
    requires
        x < 64,
    ensures
        r == spec_expand6(x as nat),
{
    proof {
        lemma_div_bound((x * 259 + 33) as int, 16350, 64);
    }
    ((x * 259 + 33) / 64) as u8
}

fn blend5(x: u32, y: u32) -> (r: u8)
    requires
        x < 32,
        y < 32,
    ensures
        r == spec_blend5(x as nat, y as nat),
{
    proof {
        lemma_div_bound(((2 * x + y) * 351 + 61) as int, 32704, 128);
    }
    (((2 * x + y) * 351 + 61) / 128) as u8
}

fn blend6(x: u32, y: u32) -> (r: u8)
    requires
        x < 64,
        y < 64,
    ensures
        r == spec_blend6(x as nat, y as nat),
{
    proof {
        lemma_div_bound(((2 * x + y) * 2763 + 1039) as int, 523246, 2048);
    }
    (((2 * x + y) * 2763 + 1039) / 2048) as u8
}

fn mid5(x: u32, y: u32) -> (r: u8)
    requires
        x < 32,
        y < 32,
    ensures
        r == spec_mid5(x as nat, y as nat),
{
    proof {
        lemma_div_bound(((x + y) * 1053 + 125) as int, 65411, 256);
    }
    (((x + y) * 1053 + 125) / 256) as u8
}

fn mid6(x: u32, y: u32) -> (r: u8)
    requires
        x < 64,
        y < 64,
    ensures
        r == spec_mid6(x as nat, y as nat),
{
    proof {
        lemma_div_bound(((x + y) * 4145 + 1019) as int, 523289, 2048);
    }
    (((x + y) * 4145 + 1019) / 2048) as u8
}

fn build_color_palette(block: &[u8], opaque: bool) -> (pal: Vec<u8>)
    requires
        block@.len() == 8,
    ensures
        pal@.len() == 16,
        forall|j: int|
            0 <= j < 16 ==> pal@[j] == spec_bc1_palette(block@, opaque, j / 4, j % 4),
{
    let c0: u32 = crate::num::le16(bget(block, 0), bget(block, 1)) as u32;
    let c1: u32 = crate::num::le16(bget(block, 2), bget(block, 3)) as u32;
    let r0: u32 = c0 / 2048 % 32;
    let g0: u32 = c0 / 32 % 64;
    let b0: u32 = c0 % 32;
    let r1: u32 = c1 / 2048 % 32;
    let g1: u32 = c1 / 32 % 64;
    let b1: u32 = c1 % 32;
    let four = c0 > c1 || opaque;
    let mut pal: Vec<u8> = Vec::new();
    pal.push(expand5(r0));
    pal.push(expand6(g0));
    pal.push(expand5(b0));
    pal.push(255);
    pal.push(expand5(r1));
    pal.push(expand6(g1));
    pal.push(expand5(b1));
    pal.push(255);
    if four {
        pal.push(blend5(r0, r1));
        pal.push(blend6(g0, g1));
        pal.push(blend5(b0, b1));
        pal.push(255);
        pal.push(blend5(r1, r0));
        pal.push(blend6(g1, g0));
        pal.push(blend5(b1, b0));
        pal.push(255);
    } else {
        pal.push(mid5(r0, r1));
        pal.push(mid6(g0, g1));
        pal.push(mid5(b0, b1));
        pal.push(255);
        pal.push(0);
        pal.push(0);
        pal.push(0);
        pal.push(0);
    }
    pal
}

fn decode_color_block(block: &[u8], opaque: bool) -> (out: Vec<u8>)
    requires
        block@.len() == 8,
    ensures
        out@ == spec_color_texels(block@, opaque),
{
    let pal = build_color_palette(block, opaque);
    let mut out: Vec<u8> = Vec::new();
    let mut t: usize = 0;
    while t < 16
        invariant
            t <= 16,
            block@.len() == 8,
            pal@.len() == 16,
            forall|j: int|
                0 <= j < 16 ==> pal@[j] == spec_bc1_palette(block@, opaque, j / 4, j % 4),
            out@.len() == 4 * t,
            forall|k: int|
                0 <= k < out@.len() ==> out@[k] == spec_color_texels(block@, opaque)[k],
        decreases 16 - t,
    {
        let byte = bget(block, 4 + t / 4);
        let idx = two_bit(byte, t % 4) as usize;
        proof {
            assert(spec_bc1_index(block@, t as int) == idx);
        }
        let mut c: usize = 0;
        while c < 4
            invariant
                c <= 4,
                t < 16,
                block@.len() == 8,
                pal@.len() == 16,
                idx < 4,
                idx == spec_bc1_index(block@, t as int),
                forall|j: int|
                    0 <= j < 16 ==> pal@[j] == spec_bc1_palette(block@, opaque, j / 4, j % 4),
                out@.len() == 4 * t + c,
                forall|k: int|
                    0 <= k < out@.len() ==> out@[k] == spec_color_texels(block@, opaque)[k],
            decreases 4 - c,
        {
            let v = pal[4 * idx + c];
            proof {
                lemma_quad_index(idx as int, c as int);
                lemma_quad_index(t as int, c as int);
                assert(spec_color_texels(block@, opaque)[4 * t + c] == spec_color_texel_byte(
                    block@,
                    opaque,
                    t as int,
                    c as int,
                ));
            }
            out.push(v);
            c = c + 1;
        }
        t = t + 1;
    }
    proof {
        assert(out@ =~= spec_color_texels(block@, opaque));
    }
    out
}

// ---------------------------------------------------------------------------
// The BC4-style single channel: two 8-bit endpoints and 3-bit indices
// ---------------------------------------------------------------------------
/// Value `idx` of the interpolation palette of a BC4 channel with
/// endpoints `a0`, `a1`.
///
/// With `a0 > a1` all six middle entries interpolate the endpoints in
/// sevenths; otherwise only four do, in fifths, and entries 6 and 7 are
/// the constants 0 and 255.
pub open spec fn spec_bc4_palette(a0: u8, a1: u8, idx: int) -> u8 {
    if idx == 0 {
        a0
    } else if idx == 1 {
        a1
    } else if a0 > a1 {
        if idx == 2 {
            ((56173 * a0 as nat + 9363 * a1 as nat + 32768) / 65536) as u8
        } else if idx == 3 {
            ((46812 * a0 as nat + 18724 * a1 as nat + 32768) / 65536) as u8
        } else if idx == 4 {
            ((37450 * a0 as nat + 28086 * a1 as nat + 32768) / 65536) as u8
        } else if idx == 5 {
            ((28086 * a0 as nat + 37450 * a1 as nat + 32768) / 65536) as u8
        } else if idx == 6 {
            ((18724 * a0 as nat + 46812 * a1 as nat + 32768) / 65536) as u8
        } else {
            ((9363 * a0 as nat + 56173 * a1 as nat + 32768) / 65536) as u8
        }
    } else {
        if idx == 2 {
            ((52429 * a0 as nat + 13107 * a1 as nat + 32768) / 65536) as u8
        } else if idx == 3 {
            ((39321 * a0 as nat + 26215 * a1 as nat + 32768) / 65536) as u8
        } else if idx == 4 {
            ((26215 * a0 as nat + 39321 * a1 as nat + 32768) / 65536) as u8
        } else if idx == 5 {
            ((13107 * a0 as nat + 52429 * a1 as nat + 32768) / 65536) as u8
        } else if idx == 6 {
            0
        } else {
            255
        }
    }
}

/// The decoded value of texel `t` of an 8-byte BC4-style channel block.
pub open spec fn spec_bc4_channel_value(cb: Seq<u8>, t: int) -> u8 {
    spec_bc4_palette(cb[0], cb[1], spec_three_bit_index(cb, t) as int)
}

fn weigh(w0: u32, a0: u8, w1: u32, a1: u8) -> (r: u8)
    requires
        w0 + w1 == 65536,
    ensures
        r as nat == (w0 as nat * a0 as nat + w1 as nat * a1 as nat + 32768) / 65536,
{
    proof {
        assert(w0 as nat * a0 as nat <= w0 as nat * 255) by (nonlinear_arith)
            requires
                a0 <= 255,
                w0 >= 0,
        ;
        assert(w1 as nat * a1 as nat <= w1 as nat * 255) by (nonlinear_arith)
            requires
                a1 <= 255,
                w1 >= 0,
        ;
        assert(w0 as nat * 255 + w1 as nat * 255 == 65536 * 255) by (nonlinear_arith)
            requires
                w0 as nat + w1 as nat == 65536,
        ;
        lemma_div_bound(
            (w0 as nat * a0 as nat + w1 as nat * a1 as nat + 32768) as int,
            (65536 * 255 + 32768) as int,
            65536,
        );
    }
    (((w0 as u64) * (a0 as u64) + (w1 as u64) * (a1 as u64) + 32768) / 65536) as u8
}

fn build_bc4_palette(a0: u8, a1: u8) -> (pal: Vec<u8>)
    ensures
        pal@.len() == 8,
        forall|j: int| 0 <= j < 8 ==> pal@[j] == spec_bc4_palette(a0, a1, j),
{
    let mut pal: Vec<u8> = Vec::new();
    pal.push(a0);
    pal.push(a1);
    if a0 > a1 {
        pal.push(weigh(56173, a0, 9363, a1));
        pal.push(weigh(46812, a0, 18724, a1));
        pal.push(weigh(37450, a0, 28086, a1));
        pal.push(weigh(28086, a0, 37450, a1));
        pal.push(weigh(18724, a0, 46812, a1));
        pal.push(weigh(9363, a0, 56173, a1));
    } else {
        pal.push(weigh(52429, a0, 13107, a1));
        pal.push(weigh(39321, a0, 26215, a1));
        pal.push(weigh(26215, a0, 39321, a1));
        pal.push(weigh(13107, a0, 52429, a1));
        pal.push(0);
        pal.push(255);
    }
    pal
}

/// Decodes one 8-byte BC4-style channel block to its 16 texel values.
pub fn decode_bc4_channel(cb: &[u8]) -> (out: Vec<u8>)
    requires
        cb@.len() == 8,
    ensures
        out@.len() == 16,
        forall|t: int| 0 <= t < 16 ==> out@[t] == spec_bc4_channel_value(cb@, t),
{
    let a0 = bget(cb, 0);
    let a1 = bget(cb, 1);
    let pal = build_bc4_palette(a0, a1);
    let ind = index_bits48(cb);
    let mut out: Vec<u8> = Vec::new();
    let mut t: usize = 0;
    while t < 16
        invariant
            t <= 16,
            cb@.len() == 8,
            pal@.len() == 8,
            a0 == cb@[0],
            a1 == cb@[1],
            ind == spec_le48(cb@),
            forall|j: int| 0 <= j < 8 ==> pal@[j] == spec_bc4_palette(a0, a1, j),
            out@.len() == t,
            forall|k: int| 0 <= k < out@.len() ==> out@[k] == spec_bc4_channel_value(cb@, k),
        decreases 16 - t,
    {
        let idx = three_bit(ind, t) as usize;
        out.push(pal[idx]);
        t = t + 1;
    }
    out
}

/// The alpha palette of a BC3 block: like a BC4 channel, but interpolated
/// with the `(n * a0 + m * a1 + 1) / 7` (or `/ 5`) rounding.
pub open spec fn spec_bc3_alpha_palette(a0: u8, a1: u8, idx: int) -> u8 {
    if idx == 0 {
        a0
    } else if idx == 1 {
        a1
    } else if a0 > a1 {
        (((8 - idx) * a0 as int + (idx - 1) * a1 as int + 1) / 7) as u8
    } else {
        if idx == 6 {
            0
        } else if idx == 7 {
            255
        } else {
            (((6 - idx) * a0 as int + (idx - 1) * a1 as int + 1) / 5) as u8
        }
    }
}

/// The decoded alpha of texel `t` of the first half of a BC3 block.
pub open spec fn spec_bc3_alpha_value(cb: Seq<u8>, t: int) -> u8 {
    spec_bc3_alpha_palette(cb[0], cb[1], spec_three_bit_index(cb, t) as int)
}

fn seventh(n: u32, a0: u8, m: u32, a1: u8) -> (r: u8)
    requires
        n + m == 7,
    ensures
        r as int == (n * a0 as int + m * a1 as int + 1) / 7,
{
    proof {
        assert(n as int * a0 as int + m as int * a1 as int <= 7 * 255) by (nonlinear_arith)
            requires
                a0 <= 255,
                a1 <= 255,
                n + m == 7,
                n >= 0,
                m >= 0,
        ;
        lemma_div_bound((n as int * a0 as int + m as int * a1 as int + 1) as int, (7 * 255 + 1) as int, 7);
    }
    ((n * a0 as u32 + m * a1 as u32 + 1) / 7) as u8
}

fn fifth(n: u32, a0: u8, m: u32, a1: u8) -> (r: u8)
    requires
        n + m == 5,
    ensures
        r as int == (n * a0 as int + m * a1 as int + 1) / 5,
{
    proof {
        assert(n as int * a0 as int + m as int * a1 as int <= 5 * 255) by (nonlinear_arith)
            requires
                a0 <= 255,
                a1 <= 255,
                n + m == 5,
                n >= 0,
                m >= 0,
        ;
        lemma_div_bound((n as int * a0 as int + m as int * a1 as int + 1) as int, (5 * 255 + 1) as int, 5);
    }
    ((n * a0 as u32 + m * a1 as u32 + 1) / 5) as u8
}

fn build_bc3_alpha_palette(a0: u8, a1: u8) -> (pal: Vec<u8>)
    ensures
        pal@.len() == 8,
        forall|j: int| 0 <= j < 8 ==> pal@[j] == spec_bc3_alpha_palette(a0, a1, j),
{
    let mut pal: Vec<u8> = Vec::new();
    pal.push(a0);
    pal.push(a1);
    if a0 > a1 {
        pal.push(seventh(6, a0, 1, a1));
        pal.push(seventh(5, a0, 2, a1));
        pal.push(seventh(4, a0, 3, a1));
        pal.push(seventh(3, a0, 4, a1));
        pal.push(seventh(2, a0, 5, a1));
        pal.push(seventh(1, a0, 6, a1));
    } else {
        pal.push(fifth(4, a0, 1, a1));
        pal.push(fifth(3, a0, 2, a1));
        pal.push(fifth(2, a0, 3, a1));
        pal.push(fifth(1, a0, 4, a1));
        pal.push(0);
        pal.push(255);
    }
    pal
}

fn decode_bc3_alpha_channel(cb: &[u8]) -> (out: Vec<u8>)
    requires
        cb@.len() == 8,
    ensures
        out@.len() == 16,
        forall|t: int| 0 <= t < 16 ==> out@[t] == spec_bc3_alpha_value(cb@, t),
{
    let a0 = bget(cb, 0);
    let a1 = bget(cb, 1);
    let pal = build_bc3_alpha_palette(a0, a1);
    let ind = index_bits48(cb);
    let mut out: Vec<u8> = Vec::new();
    let mut t: usize = 0;
    while t < 16
        invariant
            t <= 16,
            cb@.len() == 8,
            pal@.len() == 8,
            a0 == cb@[0],
            a1 == cb@[1],
            ind == spec_le48(cb@),
            forall|j: int| 0 <= j < 8 ==> pal@[j] == spec_bc3_alpha_palette(a0, a1, j),
            out@.len() == t,
            forall|k: int| 0 <= k < out@.len() ==> out@[k] == spec_bc3_alpha_value(cb@, k),
        decreases 16 - t,
    {
        let idx = three_bit(ind, t) as usize;
        out.push(pal[idx]);
        t = t + 1;
    }
    out
}

// ---------------------------------------------------------------------------
// Whole blocks as 64 RGBA bytes
// ---------------------------------------------------------------------------
/// Channel `c` of texel `t` of a decoded BC1 block.
pub open spec fn spec_bc1_texel_byte(b: Seq<u8>, t: int, c: int) -> u8 {
    spec_color_texel_byte(b, false, t, c)
}

/// The explicit 4-bit alpha of texel `t` of a BC2 block, expanded to 8
/// bits by replication (`a * 17`).
pub open spec fn spec_bc2_alpha(b: Seq<u8>, t: int) -> u8 {
    ((spec_le16(b[2 * (t / 4)], b[2 * (t / 4) + 1]) / pow2((4 * (t % 4)) as nat)) % 16 * 17) as u8
}

/// Channel `c` of texel `t` of a decoded BC2 block.
pub open spec fn spec_bc2_texel_byte(b: Seq<u8>, t: int, c: int) -> u8 {
    if c == 3 {
        spec_bc2_alpha(b, t)
    } else {
        spec_color_texel_byte(b.subrange(8, 16), true, t, c)
    }
}

/// Channel `c` of texel `t` of a decoded BC3 block.
pub open spec fn spec_bc3_texel_byte(b: Seq<u8>, t: int, c: int) -> u8 {
    if c == 3 {
        spec_bc3_alpha_value(b.subrange(0, 8), t)
    } else {
        spec_color_texel_byte(b.subrange(8, 16), true, t, c)
    }
}

/// Channel `c` of texel `t` of a decoded BC4 block: the single channel
/// replicated to gray, opaque.
pub open spec fn spec_bc4_texel_byte(b: Seq<u8>, t: int, c: int) -> u8 {
    if c == 3 {
        255
    } else {
        spec_bc4_channel_value(b, t)
    }
}

/// Channel `c` of texel `t` of a decoded BC5 block: two independent BC4
/// channels in red and green, blue zero, opaque.
pub open spec fn spec_bc5_texel_byte(b: Seq<u8>, t: int, c: int) -> u8 {
    if c == 0 {
        spec_bc4_channel_value(b.subrange(0, 8), t)
    } else if c == 1 {
        spec_bc4_channel_value(b.subrange(8, 16), t)
    } else if c == 2 {
        0
    } else {
        255
    }
}

pub open spec fn spec_bc1_texels(b: Seq<u8>) -> Seq<u8> {
    Seq::new(64, |k: int| spec_bc1_texel_byte(b, k / 4, k % 4))
}

pub open spec fn spec_bc2_texels(b: Seq<u8>) -> Seq<u8> {
    Seq::new(64, |k: int| spec_bc2_texel_byte(b, k / 4, k % 4))
}

pub open spec fn spec_bc3_texels(b: Seq<u8>) -> Seq<u8> {
    Seq::new(64, |k: int| spec_bc3_texel_byte(b, k / 4, k % 4))
}

pub open spec fn spec_bc4_texels(b: Seq<u8>) -> Seq<u8> {
    Seq::new(64, |k: int| spec_bc4_texel_byte(b, k / 4, k % 4))
}

pub open spec fn spec_bc5_texels(b: Seq<u8>) -> Seq<u8> {
    Seq::new(64, |k: int| spec_bc5_texel_byte(b, k / 4, k % 4))
}

/// Decodes an 8-byte BC1 block to 16 RGBA8 texels.
pub fn decode_bc1_block(block: &[u8]) -> (out: Vec<u8>)
    requires
        block@.len() == 8,
    ensures
        out@ == spec_bc1_texels(block@),
{
    let out = decode_color_block(block, false);
    proof {
        assert(out@ =~= spec_bc1_texels(block@));
    }
    out
}

/// Decodes a 16-byte BC2 block (explicit alpha, then color) to 16 RGBA8
/// texels.
pub fn decode_bc2_block(block: &[u8]) -> (out: Vec<u8>)
    requires
        block@.len() == 16,
    ensures
        out@ == spec_bc2_texels(block@),
{
    proof {
        lemma2_to64();
    }
    let color = decode_color_block(slice_subrange(block, 8, 16), true);
    let mut out: Vec<u8> = Vec::new();
    let mut t: usize = 0;
    while t < 16
        invariant
            t <= 16,
            block@.len() == 16,
            color@ == spec_color_texels(block@.subrange(8, 16), true),
            out@.len() == 4 * t,
            forall|k: int| 0 <= k < out@.len() ==> out@[k] == spec_bc2_texels(block@)[k],
        decreases 16 - t,
    {
        proof {
            lemma_quad_index(t as int, 0);
            lemma_quad_index(t as int, 1);
            lemma_quad_index(t as int, 2);
            lemma_quad_index(t as int, 3);
        }
        out.push(color[4 * t]);
        out.push(color[4 * t + 1]);
        out.push(color[4 * t + 2]);
        let row: usize = t / 4;
        let j: usize = t % 4;
        let a16: u16 = crate::num::le16(bget(block, 2 * row), bget(block, 2 * row + 1));
        let d: u16 = if j == 0 {
            1
        } else if j == 1 {
            16
        } else if j == 2 {
            256
        } else {
            4096
        };
        let a: u8 = ((a16 / d) % 16) as u8 * 17;
        proof {
            lemma2_to64();
            assert(a == spec_bc2_alpha(block@, t as int));
        }
        out.push(a);
        t = t + 1;
    }
    proof {
        assert(out@ =~= spec_bc2_texels(block@));
    }
    out
}

/// Decodes a 16-byte BC3 block (interpolated alpha, then color) to 16
/// RGBA8 texels.
pub fn decode_bc3_block(block: &[u8]) -> (out: Vec<u8>)
    requires
        block@.len() == 16,
    ensures
        out@ == spec_bc3_texels(block@),
{
    let alpha = decode_bc3_alpha_channel(slice_subrange(block, 0, 8));
    let color = decode_color_block(slice_subrange(block, 8, 16), true);
    let mut out: Vec<u8> = Vec::new();
    let mut t: usize = 0;
    while t < 16
        invariant
            t <= 16,
            block@.len() == 16,
            alpha@.len() == 16,
            forall|k: int|
                0 <= k < 16 ==> alpha@[k] == spec_bc3_alpha_value(block@.subrange(0, 8), k),
            color@ == spec_color_texels(block@.subrange(8, 16), true),
            out@.len() == 4 * t,
            forall|k: int| 0 <= k < out@.len() ==> out@[k] == spec_bc3_texels(block@)[k],
        decreases 16 - t,
    {
        proof {
            lemma_quad_index(t as int, 0);
            lemma_quad_index(t as int, 1);
            lemma_quad_index(t as int, 2);
            lemma_quad_index(t as int, 3);
        }
        out.push(color[4 * t]);
        out.push(color[4 * t + 1]);
        out.push(color[4 * t + 2]);
        out.push(alpha[t]);
        t = t + 1;
    }
    proof {
        assert(out@ =~= spec_bc3_texels(block@));
    }
    out
}

/// Decodes an 8-byte BC4 block to 16 RGBA8 texels (gray, opaque).
pub fn decode_bc4_block(block: &[u8]) -> (out: Vec<u8>)
    requires
        block@.len() == 8,
    ensures
        out@ == spec_bc4_texels(block@),
{
    let values = decode_bc4_channel(block);
    let mut out: Vec<u8> = Vec::new();
    let mut t: usize = 0;
    while t < 16
        invariant
            t <= 16,
            block@.len() == 8,
            values@.len() == 16,
            forall|k: int| 0 <= k < 16 ==> values@[k] == spec_bc4_channel_value(block@, k),
            out@.len() == 4 * t,
            forall|k: int| 0 <= k < out@.len() ==> out@[k] == spec_bc4_texels(block@)[k],
        decreases 16 - t,
    {
        proof {
            lemma_quad_index(t as int, 0);
            lemma_quad_index(t as int, 1);
            lemma_quad_index(t as int, 2);
            lemma_quad_index(t as int, 3);
        }
        let v = values[t];
        out.push(v);
        out.push(v);
        out.push(v);
        out.push(255);
        t = t + 1;
    }
    proof {
        assert(out@ =~= spec_bc4_texels(block@));
    }
    out
}

/// Decodes a 16-byte BC5 block to 16 RGBA8 texels (red and green
/// channels, blue zero, opaque).
pub fn decode_bc5_block(block: &[u8]) -> (out: Vec<u8>)
    requires
        block@.len() == 16,
    ensures
        out@ == spec_bc5_texels(block@),
{
    let red = decode_bc4_channel(slice_subrange(block, 0, 8));
    let green = decode_bc4_channel(slice_subrange(block, 8, 16));
    let mut out: Vec<u8> = Vec::new();
    let mut t: usize = 0;
    while t < 16
        invariant
            t <= 16,
            block@.len() == 16,
            red@.len() == 16,
            green@.len() == 16,
            forall|k: int|
                0 <= k < 16 ==> red@[k] == spec_bc4_channel_value(block@.subrange(0, 8), k),
            forall|k: int|
                0 <= k < 16 ==> green@[k] == spec_bc4_channel_value(block@.subrange(8, 16), k),
            out@.len() == 4 * t,
            forall|k: int| 0 <= k < out@.len() ==> out@[k] == spec_bc5_texels(block@)[k],
        decreases 16 - t,
    {
        proof {
            lemma_quad_index(t as int, 0);
            lemma_quad_index(t as int, 1);
            lemma_quad_index(t as int, 2);
            lemma_quad_index(t as int, 3);
        }
        out.push(red[t]);
        out.push(green[t]);
        out.push(0);
        out.push(255);
        t = t + 1;
    }
    proof {
        assert(out@ =~= spec_bc5_texels(block@));
    }
    out
}

// ---------------------------------------------------------------------------
// Laws
// ---------------------------------------------------------------------------
proof fn lemma_mid5_is_expand5(x: u32)
    by (bit_vector)
    requires
        x < 32,
    ensures
        ((x + x) * 1053 + 125) / 256 == (x * 527 + 23) / 64,
{
}

proof fn lemma_mid6_is_expand6(x: u32)
    by (bit_vector)
    requires
        x < 64,
    ensures
        ((x + x) * 4145 + 1019) / 2048 == (x * 259 + 33) / 64,
{
}

/// The BC1 round trip for a constant block: when the two packed endpoint
/// colors are equal, every texel decodes to that single expanded color,
/// fully opaque.
///
/// Equal endpoints put the block in three-color mode, whose fourth palette
/// entry is transparent black, so the texels' 2-bit indices must avoid
/// entry 3; every other index yields the endpoint color.
pub proof fn lemma_bc1_equal_endpoints(b: Seq<u8>)
    requires
        b.len() == 8,
        spec_le16(b[0], b[1]) == spec_le16(b[2], b[3]),
        forall|t: int| 0 <= t < 16 ==> spec_bc1_index(b, t) != 3,
    ensures
        forall|t: int, c: int|
            0 <= t < 16 && 0 <= c < 4 ==> spec_bc1_texel_byte(b, t, c) == spec_bc1_palette(
                b,
                false,
                0,
                c,
            ),
        forall|t: int| 0 <= t < 16 ==> spec_bc1_texel_byte(b, t, 3) == 255,
{
    let c0 = spec_le16(b[0], b[1]);
    assert forall|t: int, c: int|
        0 <= t < 16 && 0 <= c < 4 implies spec_bc1_texel_byte(b, t, c) == spec_bc1_palette(
        b,
        false,
        0,
        c,
    ) by {
        let pi = spec_bc1_index(b, t) as int;
        assert(0 <= pi < 4);
        assert(pi != 3);
        if pi == 2 && c < 3 {
            let x0 = if c == 0 {
                c0 / 2048 % 32
            } else if c == 1 {
                c0 / 32 % 64
            } else {
                c0 % 32
            };
            if c == 1 {
                lemma_mid6_is_expand6(x0 as u32);
            } else {
                lemma_mid5_is_expand5(x0 as u32);
            }
        }
    }
}

/// In the six-value mode of a BC4-style channel (first endpoint not above
/// the second) — the mode BC5 channels share — palette indices 6 and 7
/// decode to exactly 0 and 255; they are never interpolated.
pub proof fn lemma_bc4_six_value_extremes(a0: u8, a1: u8)
    requires
        a0 <= a1,
    ensures
        spec_bc4_palette(a0, a1, 6) == 0,
        spec_bc4_palette(a0, a1, 7) == 255,
{
}

} // verus!
