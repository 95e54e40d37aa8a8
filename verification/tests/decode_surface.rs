use image_dds::ImageFormat;
use image_dds::Surface;
use image_dds::SurfaceError;

fn surface(
    width: u32,
    height: u32,
    depth: u32,
    layers: u32,
    mipmaps: u32,
    image_format: ImageFormat,
    data: Vec<u8>,
) -> Surface {
    Surface { width, height, depth, layers, mipmaps, image_format, data }
}

#[test]
fn decode_surface_zero_size() {
    let result = surface(0, 0, 0, 1, 1, ImageFormat::R8G8B8A8Srgb, vec![0u8; 0]).decode_rgba8();

    assert!(matches!(
        result,
        Err(SurfaceError::ZeroSizedSurface {
            width: 0,
            height: 0,
            depth: 0,
        })
    ));
}

#[test]
fn decode_surface_dimensions_overflow() {
    let result = surface(
        u32::MAX,
        u32::MAX,
        u32::MAX,
        1,
        1,
        ImageFormat::R8G8B8A8Srgb,
        vec![0u8; 0],
    )
    .decode_rgba8();

    assert!(matches!(
        result,
        Err(SurfaceError::PixelCountWouldOverflow {
            width: u32::MAX,
            height: u32::MAX,
            depth: u32::MAX,
        })
    ));
}

#[test]
fn decode_surface_too_many_mipmaps() {
    let result = surface(4, 4, 1, 1, 10, ImageFormat::R8G8B8A8Srgb, vec![0u8; 4 * 4 * 4])
        .decode_rgba8();

    assert!(matches!(
        result,
        Err(SurfaceError::UnexpectedMipmapCount {
            mipmaps: 10,
            max_mipmaps: 3
        })
    ));
}

#[test]
fn mip_dimension_formula() {
    assert_eq!(image_dds::mip_dimension(4, 0), 4);
    assert_eq!(image_dds::mip_dimension(4, 1), 2);
    assert_eq!(image_dds::mip_dimension(4, 2), 1);
    assert_eq!(image_dds::mip_dimension(4, 3), 1);
    assert_eq!(image_dds::mip_dimension(5, 1), 2);
    assert_eq!(image_dds::mip_dimension(u32::MAX, 31), 1);
    assert_eq!(image_dds::mip_dimension(1000, 40), 1);
    assert_eq!(image_dds::mip_dimension(0, 0), 1);
}

#[test]
fn max_mipmap_count_formula() {
    assert_eq!(image_dds::max_mipmap_count(0), 0);
    assert_eq!(image_dds::max_mipmap_count(1), 1);
    assert_eq!(image_dds::max_mipmap_count(4), 3);
    assert_eq!(image_dds::max_mipmap_count(5), 3);
    assert_eq!(image_dds::max_mipmap_count(256), 9);
    assert_eq!(image_dds::max_mipmap_count(u32::MAX), 32);
}

#[test]
fn decode_surface_data_too_short() {
    // An 8x8 R8 surface with two mip levels needs 64 + 16 bytes; with only
    // 79 the second level is the first that does not fit.
    let result = surface(8, 8, 1, 1, 2, ImageFormat::R8Unorm, vec![0u8; 79]).decode_rgba8();
    assert!(matches!(
        result,
        Err(SurfaceError::MipmapDataOutOfBounds {
            layer: 0,
            mipmap: 1
        })
    ));

    let result = surface(8, 8, 1, 1, 2, ImageFormat::R8Unorm, vec![0u8; 63]).decode_rgba8();
    assert!(matches!(
        result,
        Err(SurfaceError::MipmapDataOutOfBounds {
            layer: 0,
            mipmap: 0
        })
    ));

    // With two layers, the first missing level is the second layer's base.
    let result = surface(4, 4, 1, 2, 1, ImageFormat::R8Unorm, vec![0u8; 16]).decode_rgba8();
    assert!(matches!(
        result,
        Err(SurfaceError::MipmapDataOutOfBounds {
            layer: 1,
            mipmap: 0
        })
    ));
}

#[test]
fn decode_rgba8_output_length_mips_and_layers() {
    // 8x8 R8, 2 mips, 2 layers: (64 + 16) texels per layer, 4 bytes each.
    let out = surface(8, 8, 1, 2, 2, ImageFormat::R8Unorm, vec![7u8; 160])
        .decode_rgba8()
        .unwrap();
    assert_eq!(out.data.len(), 2 * (64 + 16) * 4);
    assert_eq!(out.width, 8);
    assert_eq!(out.layers, 2);
    assert_eq!(out.mipmaps, 2);
    assert_eq!(&out.data[0..4], &[7, 0, 0, 255]);

    // 8x8 BC1, 2 mips: 8 blocks of 8 bytes, then 1 block.
    let out = surface(8, 8, 1, 1, 2, ImageFormat::BC1Unorm, vec![0u8; 4 * 8 + 8])
        .decode_rgba8()
        .unwrap();
    assert_eq!(out.data.len(), (64 + 16) * 4);
}

#[test]
fn decode_r8() {
    let out = surface(2, 1, 1, 1, 1, ImageFormat::R8Unorm, vec![1, 2]).decode_rgba8().unwrap();
    assert_eq!(out.data, vec![1, 0, 0, 255, 2, 0, 0, 255]);
}

#[test]
fn decode_rgba8_passthrough() {
    let out = surface(1, 1, 1, 1, 1, ImageFormat::R8G8B8A8Unorm, vec![1, 2, 3, 4])
        .decode_rgba8()
        .unwrap();
    assert_eq!(out.data, vec![1, 2, 3, 4]);
}

#[test]
fn decode_bgra8_swizzles() {
    let out = surface(1, 1, 1, 1, 1, ImageFormat::B8G8R8A8Unorm, vec![1, 2, 3, 4])
        .decode_rgba8()
        .unwrap();
    assert_eq!(out.data, vec![3, 2, 1, 4]);
}

#[test]
fn decode_rgbaf16_to_rgba8() {
    // Channels: 1.0, 0.5, 0.0, -1.0 as binary16 bit patterns.
    let data = vec![0x00, 0x3C, 0x00, 0x38, 0x00, 0x00, 0x00, 0xBC];
    let out = surface(1, 1, 1, 1, 1, ImageFormat::R16G16B16A16Float, data)
        .decode_rgba8()
        .unwrap();
    assert_eq!(out.data, vec![255, 128, 0, 0]);
}

#[test]
fn decode_rgbaf32_to_rgba8() {
    // Channels: 1.0, 0.25, 0.0, -1.0 as binary32 bit patterns.
    let mut data = Vec::new();
    for bits in [0x3F80_0000u32, 0x3E80_0000, 0x0000_0000, 0xBF80_0000] {
        data.extend_from_slice(&bits.to_le_bytes());
    }
    let out = surface(1, 1, 1, 1, 1, ImageFormat::R32G32B32A32Float, data)
        .decode_rgba8()
        .unwrap();
    assert_eq!(out.data, vec![255, 64, 0, 0]);
}

#[test]
fn decode_bc1_equal_endpoints_single_color() {
    // Both endpoints 0xF800 (pure red); all indices 0.
    let block = vec![0x00, 0xF8, 0x00, 0xF8, 0, 0, 0, 0];
    let out = surface(4, 4, 1, 1, 1, ImageFormat::BC1Unorm, block).decode_rgba8().unwrap();
    assert_eq!(out.data.len(), 64);
    for texel in out.data.chunks(4) {
        assert_eq!(texel, &[255, 0, 0, 255]);
    }
}

#[test]
fn decode_bc1_punch_through_alpha() {
    // Equal endpoints select three-color mode; index 3 is transparent black.
    let block = vec![0x00, 0xF8, 0x00, 0xF8, 0xFF, 0xFF, 0xFF, 0xFF];
    let out = surface(4, 4, 1, 1, 1, ImageFormat::BC1Unorm, block).decode_rgba8().unwrap();
    for texel in out.data.chunks(4) {
        assert_eq!(texel, &[0, 0, 0, 0]);
    }
}

#[test]
fn decode_bc1_four_color_blend() {
    // c0 = red 0xF800 > c1 = blue 0x001F; every index selects entry 2,
    // the two-thirds/one-third blend.
    let block = vec![0x00, 0xF8, 0x1F, 0x00, 0xAA, 0xAA, 0xAA, 0xAA];
    let out = surface(4, 4, 1, 1, 1, ImageFormat::BC1Unorm, block).decode_rgba8().unwrap();
    for texel in out.data.chunks(4) {
        assert_eq!(texel, &[170, 0, 85, 255]);
    }
}

#[test]
fn decode_bc2_explicit_alpha() {
    // First alpha row nibbles 1, 2, 3, 4; black color block.
    let mut block = vec![0u8; 16];
    block[0] = 0x21;
    block[1] = 0x43;
    let out = surface(4, 4, 1, 1, 1, ImageFormat::BC2Unorm, block).decode_rgba8().unwrap();
    assert_eq!(&out.data[0..16], &[0, 0, 0, 17, 0, 0, 0, 34, 0, 0, 0, 51, 0, 0, 0, 68]);
    assert_eq!(&out.data[16..20], &[0, 0, 0, 0]);
}

#[test]
fn decode_bc3_interpolated_alpha() {
    // Alpha endpoints 255 > 0, all indices 2: (6*255 + 0 + 1) / 7 = 218.
    // Color: both endpoints pure red.
    let block = vec![255, 0, 0x92, 0x24, 0x49, 0x92, 0x24, 0x49, 0x00, 0xF8, 0x00, 0xF8, 0, 0, 0, 0];
    let out = surface(4, 4, 1, 1, 1, ImageFormat::BC3Unorm, block).decode_rgba8().unwrap();
    for texel in out.data.chunks(4) {
        assert_eq!(texel, &[255, 0, 0, 218]);
    }
}

#[test]
fn decode_bc4_six_value_extremes() {
    // Endpoints 10 <= 200 select the six-value mode; texel 0 has index 6
    // (exactly 0), texel 1 index 7 (exactly 255), the rest index 0.
    let block = vec![10, 200, 0x3E, 0, 0, 0, 0, 0];
    let out = surface(4, 4, 1, 1, 1, ImageFormat::BC4Unorm, block).decode_rgba8().unwrap();
    assert_eq!(&out.data[0..4], &[0, 0, 0, 255]);
    assert_eq!(&out.data[4..8], &[255, 255, 255, 255]);
    assert_eq!(&out.data[8..12], &[10, 10, 10, 255]);
}

#[test]
fn decode_bc5_two_channels() {
    let block = vec![100, 50, 0, 0, 0, 0, 0, 0, 7, 3, 0, 0, 0, 0, 0, 0];
    let out = surface(4, 4, 1, 1, 1, ImageFormat::BC5Unorm, block).decode_rgba8().unwrap();
    for texel in out.data.chunks(4) {
        assert_eq!(texel, &[100, 7, 0, 255]);
    }
}

#[test]
fn decode_bc7_single_subset() {
    // A mode 6 block: endpoint 0 is (255, 1, 1, 255) after the p-bit, and
    // every index is 0, so all texels decode to it.
    let block = vec![192, 63, 0, 240, 7, 0, 254, 255, 1, 0, 0, 0, 0, 0, 0, 0];
    let out = surface(4, 4, 1, 1, 1, ImageFormat::BC7Unorm, block).decode_rgba8().unwrap();
    assert_eq!(out.data.len(), 64);
    for texel in out.data.chunks(4) {
        assert_eq!(texel, &[255, 1, 1, 255]);
    }
}

#[test]
fn decode_bc6_unsigned() {
    // A two-endpoint block (explicit 10-bit endpoints): red quantized to
    // about one half, green zero, blue the maximum; every index is 0.
    let block = vec![195, 57, 0, 254, 119, 14, 128, 255, 1, 0, 0, 0, 0, 0, 0, 0];
    let out = surface(4, 4, 1, 1, 1, ImageFormat::BC6Ufloat, block).decode_rgba8().unwrap();
    assert_eq!(out.data.len(), 64);
    for texel in out.data.chunks(4) {
        assert_eq!(texel, &[128, 0, 255, 255]);
    }
}

#[test]
fn decode_bc6_half_bits_exact_patterns() {
    // Same block as `decode_bc6_unsigned`: the raw half bit patterns are
    // about one half (0x3801), zero, the maximum finite half (0x7BFF),
    // and the constant 1.0 alpha (0x3C00).
    let block = vec![195, 57, 0, 254, 119, 14, 128, 255, 1, 0, 0, 0, 0, 0, 0, 0];
    let bits = image_dds::decode::decode_bc6_half_bits(4, 4, 1, &block, false).unwrap();
    assert_eq!(bits.len(), 64);
    for texel in bits.chunks(4) {
        assert_eq!(texel, &[0x3801, 0x0000, 0x7BFF, 0x3C00]);
    }

    let result = image_dds::decode::decode_bc6_half_bits(4, 4, 1, &[0u8; 4], false);
    assert!(matches!(
        result,
        Err(SurfaceError::NotEnoughData {
            expected: 16,
            actual: 4
        })
    ));
}

#[test]
fn decode_data_rgba8_wrong_block_data_length() {
    let result = image_dds::decode::decode_data_rgba8(4, 4, 1, ImageFormat::BC1Unorm, &[0u8; 4]);
    assert!(matches!(
        result,
        Err(SurfaceError::NotEnoughData {
            expected: 8,
            actual: 4
        })
    ));
}

#[test]
fn get_returns_level_ranges() {
    // 8x8 R8, 2 mips, 2 layers: layer stride 80 bytes.
    let data: Vec<u8> = (0..160u32).map(|i| i as u8).collect();
    let s = surface(8, 8, 1, 2, 2, ImageFormat::R8Unorm, data);
    assert_eq!(s.get(0, 0).unwrap().len(), 64);
    assert_eq!(s.get(0, 1).unwrap().len(), 16);
    assert_eq!(s.get(0, 1).unwrap()[0], 64);
    assert_eq!(s.get(1, 0).unwrap()[0], 80);
    assert!(s.get(1, 1).unwrap()[0] == 144);
    assert!(s.get(2, 0).is_none());
}

#[test]
fn decode_r8_depth_slices_sequential() {
    let out = surface(2, 2, 2, 1, 1, ImageFormat::R8Unorm, (0..8).collect())
        .decode_rgba8()
        .unwrap();
    assert_eq!(out.data.len(), 32);
    // Texel (x, y, z) = (1, 1, 0) is value 3; (0, 0, 1) is value 4.
    assert_eq!(&out.data[12..16], &[3, 0, 0, 255]);
    assert_eq!(&out.data[16..20], &[4, 0, 0, 255]);
}

fn bc1_solid(c: u16) -> [u8; 8] {
    let [lo, hi] = c.to_le_bytes();
    [lo, hi, lo, hi, 0, 0, 0, 0]
}

#[test]
fn decode_bc1_block_grid_order() {
    // An 8x8 level holds a 2x2 block grid, row-major: red, green, blue,
    // white solid blocks.
    let mut data = Vec::new();
    for c in [0xF800u16, 0x07E0, 0x001F, 0xFFFF] {
        data.extend_from_slice(&bc1_solid(c));
    }
    let out = surface(8, 8, 1, 1, 1, ImageFormat::BC1Unorm, data).decode_rgba8().unwrap();
    let texel = |x: usize, y: usize| &out.data[(y * 8 + x) * 4..(y * 8 + x) * 4 + 4];
    assert_eq!(texel(0, 0), &[255, 0, 0, 255]);
    assert_eq!(texel(4, 0), &[0, 255, 0, 255]);
    assert_eq!(texel(3, 3), &[255, 0, 0, 255]);
    assert_eq!(texel(0, 4), &[0, 0, 255, 255]);
    assert_eq!(texel(7, 7), &[255, 255, 255, 255]);
}

#[test]
fn decode_bc1_block_grid_odd_dimensions() {
    // A 5x5 level still needs a 2x2 block grid; the partial blocks on the
    // right and bottom edges contribute only their in-bounds texels.
    let mut data = Vec::new();
    for c in [0xF800u16, 0x07E0, 0x001F, 0xFFFF] {
        data.extend_from_slice(&bc1_solid(c));
    }
    let out = surface(5, 5, 1, 1, 1, ImageFormat::BC1Unorm, data).decode_rgba8().unwrap();
    assert_eq!(out.data.len(), 5 * 5 * 4);
    let texel = |x: usize, y: usize| &out.data[(y * 5 + x) * 4..(y * 5 + x) * 4 + 4];
    assert_eq!(texel(3, 2), &[255, 0, 0, 255]);
    assert_eq!(texel(4, 0), &[0, 255, 0, 255]);
    assert_eq!(texel(2, 4), &[0, 0, 255, 255]);
    assert_eq!(texel(4, 4), &[255, 255, 255, 255]);
}

#[test]
fn decode_bc1_depth_slices_have_own_blocks() {
    let mut data = Vec::new();
    data.extend_from_slice(&bc1_solid(0xF800));
    data.extend_from_slice(&bc1_solid(0x001F));
    let out = surface(4, 4, 2, 1, 1, ImageFormat::BC1Unorm, data).decode_rgba8().unwrap();
    assert_eq!(out.data.len(), 128);
    assert_eq!(&out.data[0..4], &[255, 0, 0, 255]);
    assert_eq!(&out.data[64..68], &[0, 0, 255, 255]);
}

#[test]
fn decode_bc1_partial_block_edges() {
    // A 2x2 BC1 level still stores one full block; only the top-left 2x2
    // texels are emitted.
    let block = vec![0x00, 0xF8, 0x00, 0xF8, 0, 0, 0, 0];
    let out = surface(2, 2, 1, 1, 1, ImageFormat::BC1Unorm, block).decode_rgba8().unwrap();
    assert_eq!(out.data.len(), 2 * 2 * 4);
    for texel in out.data.chunks(4) {
        assert_eq!(texel, &[255, 0, 0, 255]);
    }
}
