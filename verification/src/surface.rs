use crate::error::SurfaceError;
use crate::format::ImageFormat;
use crate::geometry::max_mipmap_count;
use crate::geometry::spec_max_mipmap_count;
use crate::geometry::spec_mip_dimension;
use crate::layout::level_data_len;
use crate::layout::level_offset;
use crate::layout::spec_level_data_len;
use crate::layout::spec_level_offset;
use vstd::prelude::*;
use vstd::slice::slice_subrange;

verus! {

/// A texture surface: base geometry plus one flat byte buffer holding all
/// `layers * mipmaps` levels, layer-major then mip-major.
pub struct Surface {
    /// Width in texels of mip level 0.
    pub width: u32,
    /// Height in texels of mip level 0.
    pub height: u32,
    /// Depth in texels of mip level 0 (1 for 2D surfaces).
    pub depth: u32,
    /// Number of array layers; each layer stores a full mip chain.
    pub layers: u32,
    /// Number of mip levels per layer.
    pub mipmaps: u32,
    /// Storage format of every level.
    pub image_format: ImageFormat,
    /// All level data, concatenated in layer-major, mip-minor order.
    pub data: Vec<u8>,
}

/// A decoded surface: the input geometry plus one owned RGBA8 buffer,
/// four bytes per texel, levels concatenated in the input's order.
pub struct SurfaceRgba8 {
    pub width: u32,
    pub height: u32,
    pub depth: u32,
    pub layers: u32,
    pub mipmaps: u32,
    pub data: Vec<u8>,
}

impl Surface {
    /// The largest base dimension, which bounds the mip chain length.
    pub open spec fn spec_max_dimension(self) -> nat {
        if self.width >= self.height && self.width >= self.depth {
            self.width as nat
        } else if self.height >= self.depth {
            self.height as nat
        } else {
            self.depth as nat
        }
    }

    /// The structural check applied before any decode work, in order:
    /// zero-sized geometry, texel-count overflow, then a mip chain longer
    /// than the base dimensions allow.
    pub open spec fn spec_validate_err(self) -> Option<SurfaceError> {
        if self.width == 0 || self.height == 0 || self.depth == 0 {
            Some(
                SurfaceError::ZeroSizedSurface {
                    width: self.width,
                    height: self.height,
                    depth: self.depth,
                },
            )
        } else if self.width as nat * self.height as nat * self.depth as nat > u64::MAX {
            Some(
                SurfaceError::PixelCountWouldOverflow {
                    width: self.width,
                    height: self.height,
                    depth: self.depth,
                },
            )
        } else if self.mipmaps as nat > spec_max_mipmap_count(self.spec_max_dimension()) {
            Some(
                SurfaceError::UnexpectedMipmapCount {
                    mipmaps: self.mipmaps,
                    max_mipmaps: spec_max_mipmap_count(self.spec_max_dimension()) as u32,
                },
            )
        } else {
            None
        }
    }

    /// Byte offset of level `(layer, mipmap)` in `data`.
    pub open spec fn spec_level_offset(self, layer: nat, mipmap: nat) -> nat {
        spec_level_offset(
            self.image_format,
            self.width as nat,
            self.height as nat,
            self.depth as nat,
            self.mipmaps as nat,
            layer,
            mipmap,
        )
    }

    /// Byte length of level `(layer, mipmap)` in `data`.
    pub open spec fn spec_level_len(self, mipmap: nat) -> nat {
        spec_level_data_len(
            self.image_format,
            spec_mip_dimension(self.width as nat, mipmap),
            spec_mip_dimension(self.height as nat, mipmap),
            spec_mip_dimension(self.depth as nat, mipmap),
        )
    }

    /// Whether the byte range of level `(layer, mipmap)` lies inside `data`.
    pub open spec fn spec_level_fits(self, layer: nat, mipmap: nat) -> bool {
        self.spec_level_offset(layer, mipmap) + self.spec_level_len(mipmap) <= self.data@.len()
    }

    /// Checks the surface geometry, returning the first applicable error:
    /// a zero dimension, a texel count that overflows, or more mipmaps
    /// than the base dimensions allow. Does not inspect `data`.
    pub fn validate(&self) -> (r: Result<(), SurfaceError>)
        ensures
            r matches Ok(_) <==> self.spec_validate_err() is None,
            r matches Err(e) ==> Some(e) == self.spec_validate_err(),
    {
        if self.width == 0 || self.height == 0 || self.depth == 0 {
            return Err(
                SurfaceError::ZeroSizedSurface {
                    width: self.width,
                    height: self.height,
                    depth: self.depth,
                },
            );
        }
        proof {
            assert((self.width as u64) * (self.height as u64) <= 0xffff_ffff * 0xffff_ffff)
                by (nonlinear_arith)
                requires
                    self.width <= 0xffff_ffffu64,
                    self.height <= 0xffff_ffffu64,
            ;
        }
        let wh: u64 = (self.width as u64) * (self.height as u64);
        if wh.checked_mul(self.depth as u64).is_none() {
            return Err(
                SurfaceError::PixelCountWouldOverflow {
                    width: self.width,
                    height: self.height,
                    depth: self.depth,
                },
            );
        }
        let max_dimension = if self.width >= self.height && self.width >= self.depth {
            self.width
        } else if self.height >= self.depth {
            self.height
        } else {
            self.depth
        };
        let max_mipmaps = max_mipmap_count(max_dimension);
        if self.mipmaps > max_mipmaps {
            return Err(
                SurfaceError::UnexpectedMipmapCount { mipmaps: self.mipmaps, max_mipmaps },
            );
        }
        Ok(())
    }

    /// The raw bytes of level `(layer, mipmap)`, or `None` when the level's
    /// byte range does not lie inside `data`. This bounds check is the only
    /// one applied to the buffer; the geometry is not consulted otherwise.
    pub fn get(&self, layer: u32, mipmap: u32) -> (r: Option<&[u8]>)
        ensures
            r is Some <==> self.spec_level_fits(layer as nat, mipmap as nat),
            r matches Some(s) ==> s@ == self.data@.subrange(
                self.spec_level_offset(layer as nat, mipmap as nat) as int,
                (self.spec_level_offset(layer as nat, mipmap as nat) + self.spec_level_len(
                    mipmap as nat,
                )) as int,
            ),
    {
        let n: usize = self.data.len();
        let offset: u64 = match level_offset(
            self.image_format,
            self.width,
            self.height,
            self.depth,
            self.mipmaps,
            layer,
            mipmap,
        ) {
            Some(v) => v,
            None => {
                return None;
            },
        };
        let lw = crate::geometry::mip_dimension(self.width, mipmap);
        let lh = crate::geometry::mip_dimension(self.height, mipmap);
        let ld = crate::geometry::mip_dimension(self.depth, mipmap);
        let len: u64 = match level_data_len(self.image_format, lw, lh, ld) {
            Some(v) => v,
            None => {
                return None;
            },
        };
        let end: u64 = match offset.checked_add(len) {
            Some(v) => v,
            None => {
                return None;
            },
        };
        if end > n as u64 {
            return None;
        }
        Some(slice_subrange(self.data.as_slice(), offset as usize, end as usize))
    }
}

} // verus!
