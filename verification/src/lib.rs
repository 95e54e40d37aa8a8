//! Decoding of GPU texture surfaces into linear RGBA8 pixel buffers.
//!
//! A [`Surface`] bundles texture geometry (base dimensions, array layers and a
//! mip chain) with one flat byte buffer that stores every layer's full mip
//! chain back to back. [`Surface::decode_rgba8`] validates the geometry, walks
//! the layers and mip levels in a fixed order, and decodes each level from its
//! storage format — block-compressed (BC1 through BC7) or packed — into one
//! contiguous RGBA8 buffer with four bytes per texel.

pub mod bc;
pub mod bc67;
pub mod decode;
pub mod error;
pub mod format;
pub mod geometry;
pub mod layout;
pub mod num;
pub mod surface;

pub use error::SurfaceError;
pub use format::ImageFormat;
pub use geometry::max_mipmap_count;
pub use geometry::mip_dimension;
pub use surface::Surface;
pub use surface::SurfaceRgba8;
