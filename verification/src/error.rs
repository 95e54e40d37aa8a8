use vstd::prelude::*;

verus! {

/// Why decoding a surface failed.
///
/// Geometry errors (`ZeroSizedSurface`, `PixelCountWouldOverflow`,
/// `UnexpectedMipmapCount`) are detected up front, before any level is
/// decoded. `MipmapDataOutOfBounds` is detected lazily, at the first layer
/// and mip level whose byte range does not fit inside the surface's buffer.
/// `NotEnoughData` is reported by the per-level decoders when handed a byte
/// slice whose length does not match the level's block grid.
#[derive(Clone, Copy, Debug, PartialEq, Eq, Structural)]
pub enum SurfaceError {
    ZeroSizedSurface { width: u32, height: u32, depth: u32 },
    PixelCountWouldOverflow { width: u32, height: u32, depth: u32 },
    UnexpectedMipmapCount { mipmaps: u32, max_mipmaps: u32 },
    MipmapDataOutOfBounds { layer: u32, mipmap: u32 },
    NotEnoughData { expected: usize, actual: usize },
}

} // verus!
