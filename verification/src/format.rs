use vstd::prelude::*;

verus! {

/// Storage format of a texture surface.
///
/// The `BC*` variants are block-compressed: texels are stored as tightly
/// packed 4x4x1 blocks of 8 or 16 bytes. The remaining variants store each
/// texel individually. The `Srgb`/`Unorm` pairs share a bit layout; the
/// distinction is color-space metadata for consumers, not a numeric
/// transform applied here.
#[derive(Clone, Copy, Debug, PartialEq, Eq, Structural)]
pub enum ImageFormat {
    BC1Unorm,
    BC1Srgb,
    BC2Unorm,
    BC2Srgb,
    BC3Unorm,
    BC3Srgb,
    BC4Unorm,
    BC4Snorm,
    BC5Unorm,
    BC5Snorm,
    BC6Ufloat,
    BC6Sfloat,
    BC7Unorm,
    BC7Srgb,
    R8Unorm,
    R8G8B8A8Unorm,
    R8G8B8A8Srgb,
    R16G16B16A16Float,
    R32G32B32A32Float,
    B8G8R8A8Unorm,
    B8G8R8A8Srgb,
}

/// Whether texels of this format are stored as 4x4 blocks rather than
/// one by one.
pub open spec fn spec_is_block_compressed(format: ImageFormat) -> bool {
    match format {
        ImageFormat::BC1Unorm
        | ImageFormat::BC1Srgb
        | ImageFormat::BC2Unorm
        | ImageFormat::BC2Srgb
        | ImageFormat::BC3Unorm
        | ImageFormat::BC3Srgb
        | ImageFormat::BC4Unorm
        | ImageFormat::BC4Snorm
        | ImageFormat::BC5Unorm
        | ImageFormat::BC5Snorm
        | ImageFormat::BC6Ufloat
        | ImageFormat::BC6Sfloat
        | ImageFormat::BC7Unorm
        | ImageFormat::BC7Srgb => true,
        _ => false,
    }
}

/// Bytes that one storage unit occupies: one 4x4 block for the
/// block-compressed formats, one texel for the packed formats.
pub open spec fn spec_bytes_per_unit(format: ImageFormat) -> nat {
    match format {
        ImageFormat::BC1Unorm | ImageFormat::BC1Srgb => 8,
        ImageFormat::BC2Unorm | ImageFormat::BC2Srgb => 16,
        ImageFormat::BC3Unorm | ImageFormat::BC3Srgb => 16,
        ImageFormat::BC4Unorm | ImageFormat::BC4Snorm => 8,
        ImageFormat::BC5Unorm | ImageFormat::BC5Snorm => 16,
        ImageFormat::BC6Ufloat | ImageFormat::BC6Sfloat => 16,
        ImageFormat::BC7Unorm | ImageFormat::BC7Srgb => 16,
        ImageFormat::R8Unorm => 1,
        ImageFormat::R8G8B8A8Unorm | ImageFormat::R8G8B8A8Srgb => 4,
        ImageFormat::R16G16B16A16Float => 8,
        ImageFormat::R32G32B32A32Float => 16,
        ImageFormat::B8G8R8A8Unorm | ImageFormat::B8G8R8A8Srgb => 4,
    }
}

impl ImageFormat {
    pub fn is_block_compressed(self) -> (r: bool)
        ensures
            r == spec_is_block_compressed(self),
    {
        match self {
            ImageFormat::BC1Unorm
            | ImageFormat::BC1Srgb
            | ImageFormat::BC2Unorm
            | ImageFormat::BC2Srgb
            | ImageFormat::BC3Unorm
            | ImageFormat::BC3Srgb
            | ImageFormat::BC4Unorm
            | ImageFormat::BC4Snorm
            | ImageFormat::BC5Unorm
            | ImageFormat::BC5Snorm
            | ImageFormat::BC6Ufloat
            | ImageFormat::BC6Sfloat
            | ImageFormat::BC7Unorm
            | ImageFormat::BC7Srgb => true,
            _ => false,
        }
    }

    pub fn bytes_per_unit(self) -> (r: u64)
        ensures
            r == spec_bytes_per_unit(self),
            1 <= r <= 16,
    {
        match self {
            ImageFormat::BC1Unorm | ImageFormat::BC1Srgb => 8,
            ImageFormat::BC2Unorm | ImageFormat::BC2Srgb => 16,
            ImageFormat::BC3Unorm | ImageFormat::BC3Srgb => 16,
            ImageFormat::BC4Unorm | ImageFormat::BC4Snorm => 8,
            ImageFormat::BC5Unorm | ImageFormat::BC5Snorm => 16,
            ImageFormat::BC6Ufloat | ImageFormat::BC6Sfloat => 16,
            ImageFormat::BC7Unorm | ImageFormat::BC7Srgb => 16,
            ImageFormat::R8Unorm => 1,
            ImageFormat::R8G8B8A8Unorm | ImageFormat::R8G8B8A8Srgb => 4,
            ImageFormat::R16G16B16A16Float => 8,
            ImageFormat::R32G32B32A32Float => 16,
            ImageFormat::B8G8R8A8Unorm | ImageFormat::B8G8R8A8Srgb => 4,
        }
    }
}

} // verus!
