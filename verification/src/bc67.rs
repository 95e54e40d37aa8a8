use crate::bc::lemma_quad_index;
use crate::num::spec_unorm8_from_f16_bits;
use crate::num::unorm8_from_f16_bits;
use vstd::prelude::*;
use vstd::slice::slice_index_get;

verus! {

/// The 16 texels that a 16-byte BC7 block decodes to, as 64 RGBA8 bytes
/// in row-major texel order. BC7's eight block modes take pages to state;
/// the decoded bytes are a function of the block bytes alone, so they are
/// only named here and pinned down by `bc7_block_rgba8`.
pub uninterp spec fn spec_bc7_texels(block: Seq<u8>) -> Seq<u8>;

/// The 16 texels that a 16-byte BC6H block decodes to, as 48 half-float
/// bit patterns (three color channels per texel, row-major; BC6H has no
/// alpha). `signed` selects the signed variant of the format. As with
/// BC7, the value is a function of the arguments alone and is only named.
pub uninterp spec fn spec_bc6_half_texels(block: Seq<u8>, signed: bool) -> Seq<u16>;

/// Relies on `bcdec_rs::bc7`: decodes one 16-byte BC7 block into 16 RGBA8
/// texels, written row by row at the given byte pitch. The result depends
/// on the block bytes alone.
#[verifier::external_body]
pub(crate) fn bc7_block_rgba8(block: &[u8]) -> (r: Vec<u8>)
    requires
        block@.len() == 16,
    ensures
        r@.len() == 64,
        r@ == spec_bc7_texels(block@),
{
    let mut out = vec![0u8; 64];
    bcdec_rs::bc7(block, &mut out, 16);
    out
}

/// Relies on `bcdec_rs::bc6h_half`: decodes one 16-byte BC6H block into
/// 16 RGB texels of half-float bit patterns, written row by row at the
/// given pitch in half-words. The result depends on the block bytes and
/// the signedness flag alone.
#[verifier::external_body]
pub(crate) fn bc6_block_half_bits(block: &[u8], signed: bool) -> (r: Vec<u16>)
    requires
        block@.len() == 16,
    ensures
        r@.len() == 48,
        r@ == spec_bc6_half_texels(block@, signed),
{
    let mut out = vec![0u16; 48];
    bcdec_rs::bc6h_half(block, &mut out, 12, signed);
    out
}

/// Channel `c` of texel `t` of a BC6H block decoded to RGBA8: the half
/// bit pattern of the channel converted to a byte, with opaque alpha.
pub open spec fn spec_bc6_texel_byte(b: Seq<u8>, signed: bool, t: int, c: int) -> u8 {
    if c == 3 {
        255
    } else {
        spec_unorm8_from_f16_bits(spec_bc6_half_texels(b, signed)[3 * t + c])
    }
}

/// The 16 texels of a BC6H block as 64 RGBA8 bytes.
pub open spec fn spec_bc6_texels(b: Seq<u8>, signed: bool) -> Seq<u8> {
    Seq::new(64, |k: int| spec_bc6_texel_byte(b, signed, k / 4, k % 4))
}

/// Decodes a 16-byte BC6H block to 16 RGBA8 texels: each half-float
/// channel clamped to [0, 1] and scaled to a byte, alpha opaque.
pub fn decode_bc6_block(block: &[u8], signed: bool) -> (out: Vec<u8>)
    requires
        block@.len() == 16,
    ensures
        out@ == spec_bc6_texels(block@, signed),
{
    let bits = bc6_block_half_bits(block, signed);
    let mut out: Vec<u8> = Vec::new();
    let mut t: usize = 0;
    while t < 16
        invariant
            t <= 16,
            block@.len() == 16,
            bits@.len() == 48,
            bits@ == spec_bc6_half_texels(block@, signed),
            out@.len() == 4 * t,
            forall|k: int|
                0 <= k < out@.len() ==> out@[k] == spec_bc6_texels(block@, signed)[k],
        decreases 16 - t,
    {
        proof {
            lemma_quad_index(t as int, 0);
            lemma_quad_index(t as int, 1);
            lemma_quad_index(t as int, 2);
            lemma_quad_index(t as int, 3);
        }
        out.push(unorm8_from_f16_bits(*slice_index_get(bits.as_slice(), 3 * t)));
        out.push(unorm8_from_f16_bits(*slice_index_get(bits.as_slice(), 3 * t + 1)));
        out.push(unorm8_from_f16_bits(*slice_index_get(bits.as_slice(), 3 * t + 2)));
        out.push(255);
        t = t + 1;
    }
    proof {
        assert(out@ =~= spec_bc6_texels(block@, signed));
    }
    out
}

} // verus!
