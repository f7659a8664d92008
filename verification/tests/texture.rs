use base64::Engine;
use pko_tools::texture::{
    dds_decode_within_limits, decode_dds_with_alpha, decode_texture, texture_png_data_uri, DdsDecoded,
    FOURCC_DXT1, FOURCC_DXT3, FOURCC_DXT5,
};

fn build_dds_header(width: u32, height: u32, pf_flags: u32, fourcc: u32, bit_count: u32, masks: [u32; 4], data_len: usize) -> Vec<u8> {
    let mut file = Vec::with_capacity(128 + data_len);
    file.extend_from_slice(b"DDS ");
    file.extend_from_slice(&124u32.to_le_bytes());
    file.extend_from_slice(&0x81007u32.to_le_bytes());
    file.extend_from_slice(&height.to_le_bytes());
    file.extend_from_slice(&width.to_le_bytes());
    file.extend_from_slice(&(data_len as u32).to_le_bytes());
    file.extend_from_slice(&0u32.to_le_bytes());
    file.extend_from_slice(&1u32.to_le_bytes());
    for _ in 0..11 {
        file.extend_from_slice(&0u32.to_le_bytes());
    }
    file.extend_from_slice(&32u32.to_le_bytes());
    file.extend_from_slice(&pf_flags.to_le_bytes());
    file.extend_from_slice(&fourcc.to_le_bytes());
    file.extend_from_slice(&bit_count.to_le_bytes());
    for m in masks {
        file.extend_from_slice(&m.to_le_bytes());
    }
    file.extend_from_slice(&0x1000u32.to_le_bytes());
    for _ in 0..4 {
        file.extend_from_slice(&0u32.to_le_bytes());
    }
    assert_eq!(file.len(), 128);
    file
}

fn build_dds(width: u32, height: u32, fourcc: u32, block_data: &[u8]) -> Vec<u8> {
    let mut file = build_dds_header(width, height, 0x4, fourcc, 0, [0; 4], block_data.len());
    file.extend_from_slice(block_data);
    file
}

/// Decodes a texture with the library and wraps the pixels as an image.
fn decode(data: &[u8]) -> Option<image::RgbaImage> {
    assert!(dds_decode_within_limits(data));
    let (width, height, pixels) = decode_texture(data)?;
    image::RgbaImage::from_raw(width, height, pixels)
}

/// Decodes the PNG behind a `data:image/png;base64,` URI.
fn png_from_uri(uri: &str) -> image::RgbaImage {
    let payload = uri.strip_prefix("data:image/png;base64,").expect("PNG data URI prefix");
    let png = base64::prelude::BASE64_STANDARD.decode(payload).expect("valid base64");
    assert_eq!(&png[..8], &[0x89, b'P', b'N', b'G', 0x0D, 0x0A, 0x1A, 0x0A]);
    image::load_from_memory(&png).expect("valid PNG").to_rgba8()
}

fn build_dxt1_dds(width: u32, height: u32, block_data: &[u8]) -> Vec<u8> {
    build_dds(width, height, FOURCC_DXT1, block_data)
}

fn rgba(decoded: DdsDecoded) -> (u32, u32, Vec<u8>) {
    match decoded {
        DdsDecoded::Rgba { width, height, pixels } => (width, height, pixels),
        other => panic!("expected decoded pixels, got {:?}", other),
    }
}

#[test]
fn dxt1_alpha_preservation_punch_through() {
    let mut block = [0u8; 8];
    block[0] = 0x00;
    block[1] = 0x00;
    block[2] = 0xFF;
    block[3] = 0xFF;
    block[4] = 0xFF;
    block[5] = 0xFF;
    block[6] = 0xFF;
    block[7] = 0xFF;

    let dds = build_dxt1_dds(4, 4, &block);
    let rgba = decode(&dds).expect("should decode DXT1 DDS");

    assert_eq!(rgba.width(), 4);
    assert_eq!(rgba.height(), 4);

    let transparent_count = rgba.pixels().filter(|p| p.0[3] == 0).count();
    assert_eq!(
        transparent_count, 16,
        "all pixels with index 3 in punch-through mode should be transparent, got {} transparent",
        transparent_count
    );
}

#[test]
fn dxt1_opaque_no_unexpected_holes() {
    let mut block = [0u8; 8];
    block[0] = 0x00;
    block[1] = 0xF8;
    block[2] = 0x1F;
    block[3] = 0x00;

    let dds = build_dxt1_dds(4, 4, &block);
    let rgba = decode(&dds).expect("should decode opaque DXT1 DDS");

    let opaque_count = rgba.pixels().filter(|p| p.0[3] == 255).count();
    assert_eq!(opaque_count, 16, "opaque DXT1 block should have all pixels alpha=255, got {} opaque", opaque_count);

    let p = rgba.get_pixel(0, 0).0;
    assert!(p[0] > 200, "red channel should be high, got R={} G={} B={} A={}", p[0], p[1], p[2], p[3]);
    assert!(p[1] < 10, "green channel should be low, got {}", p[1]);
    assert!(p[2] < 10, "blue channel should be low, got {}", p[2]);
}

#[test]
fn non_dds_falls_through_to_image_crate() {
    let mut png_data = Vec::new();
    let img = image::RgbaImage::from_pixel(1, 1, image::Rgba([255, 0, 128, 200]));
    image::DynamicImage::ImageRgba8(img)
        .write_to(&mut std::io::Cursor::new(&mut png_data), image::ImageFormat::Png)
        .unwrap();

    assert!(matches!(decode_dds_with_alpha(&png_data), DdsDecoded::Fallback));
    let rgba = decode(&png_data).expect("should decode PNG via fallback");
    let p = rgba.get_pixel(0, 0).0;
    assert_eq!(p, [255, 0, 128, 200], "PNG pixel should round-trip exactly");
}

#[test]
fn truncated_dds_returns_none() {
    let data = b"DDS short";
    assert!(decode(data).is_none(), "truncated DDS should return None");
}

#[test]
fn dxt1_mixed_opaque_and_transparent_pixels() {
    let block: [u8; 8] = [0xE0, 0x07, 0xFF, 0xFF, 0x00, 0x00, 0xFF, 0xFF];

    let dds = build_dxt1_dds(4, 4, &block);
    let rgba = decode(&dds).expect("decode mixed block");

    for y in 0..2 {
        for x in 0..4 {
            let a = rgba.get_pixel(x, y).0[3];
            assert_eq!(a, 255, "pixel ({},{}) should be opaque, got alpha={}", x, y, a);
        }
    }
    for y in 2..4 {
        for x in 0..4 {
            let a = rgba.get_pixel(x, y).0[3];
            assert_eq!(a, 0, "pixel ({},{}) should be transparent, got alpha={}", x, y, a);
        }
    }
}

#[test]
fn dxt3_falls_through_to_image_crate() {
    let mut block = [0u8; 16];
    for b in block.iter_mut().take(8) {
        *b = 0x88;
    }
    block[8] = 0xFF;
    block[9] = 0xFF;

    let dds = build_dds(4, 4, FOURCC_DXT3, &block);
    assert!(matches!(decode_dds_with_alpha(&dds), DdsDecoded::Fallback));
    let rgba = decode(&dds).expect("DXT3 should decode via image crate");
    assert_eq!(rgba.width(), 4);
    assert_eq!(rgba.height(), 4);
    for pixel in rgba.pixels() {
        let a = pixel.0[3];
        assert!(a > 100 && a < 200, "DXT3 pixel alpha should be ~128, got {}", a);
    }
}

#[test]
fn dxt5_falls_through_to_image_crate() {
    let mut block = [0u8; 16];
    block[0] = 255;
    block[1] = 0;
    block[8] = 0xFF;
    block[9] = 0xFF;

    let dds = build_dds(4, 4, FOURCC_DXT5, &block);
    assert!(matches!(decode_dds_with_alpha(&dds), DdsDecoded::Fallback));
    let rgba = decode(&dds).expect("DXT5 should decode via image crate");
    assert_eq!(rgba.width(), 4);
    assert_eq!(rgba.height(), 4);
    for pixel in rgba.pixels() {
        assert_eq!(pixel.0[3], 255, "DXT5 pixel with alpha0=255, idx=0 should be opaque, got alpha={}", pixel.0[3]);
    }
}

#[test]
fn synthetic_dxt1_deterministic_fixture() {
    let red_block: [u8; 8] = [0x00, 0xF8, 0x00, 0x00, 0x00, 0x00, 0x00, 0x00];
    let blue_block: [u8; 8] = [0x1F, 0x00, 0x00, 0x00, 0x00, 0x00, 0x00, 0x00];
    let transparent_block: [u8; 8] = [0x00, 0x00, 0xFF, 0xFF, 0xFF, 0xFF, 0xFF, 0xFF];
    let green_block: [u8; 8] = [0xE0, 0x07, 0x00, 0x00, 0x00, 0x00, 0x00, 0x00];

    let mut blocks = Vec::new();
    blocks.extend_from_slice(&red_block);
    blocks.extend_from_slice(&blue_block);
    blocks.extend_from_slice(&transparent_block);
    blocks.extend_from_slice(&green_block);

    let dds = build_dxt1_dds(8, 8, &blocks);
    let rgba = decode(&dds).expect("decode 8x8 DXT1");

    assert_eq!(rgba.width(), 8);
    assert_eq!(rgba.height(), 8);

    let p = rgba.get_pixel(0, 0).0;
    assert!(p[0] > 200 && p[3] == 255, "top-left should be opaque red: {:?}", p);
    let p = rgba.get_pixel(4, 0).0;
    assert!(p[2] > 200 && p[3] == 255, "top-right should be opaque blue: {:?}", p);
    let p = rgba.get_pixel(0, 4).0;
    assert_eq!(p[3], 0, "bottom-left should be transparent: {:?}", p);
    let p = rgba.get_pixel(4, 4).0;
    assert!(p[1] > 200 && p[3] == 255, "bottom-right should be opaque green: {:?}", p);

    let transparent_count = rgba.pixels().filter(|p| p.0[3] == 0).count();
    assert_eq!(transparent_count, 16, "exactly one block should be transparent");
}

#[test]
fn dxt1_pixels_reordered_to_rgba() {
    let block = [0x00, 0xF8, 0x1F, 0x00, 0x00, 0x00, 0x00, 0x00];
    let dds = build_dds(4, 4, FOURCC_DXT1, &block);
    assert!(dds_decode_within_limits(&dds));
    let (w, h, pixels) = rgba(decode_dds_with_alpha(&dds));
    assert_eq!((w, h), (4, 4));
    assert_eq!(pixels.len(), 64);
    assert!(pixels[0] > 200 && pixels[1] < 10 && pixels[2] < 10 && pixels[3] == 255);
}

#[test]
fn dxt1_truncated_blocks_fail() {
    let dds = build_dds(8, 8, FOURCC_DXT1, &[0u8; 8]);
    assert!(matches!(decode_dds_with_alpha(&dds), DdsDecoded::Failed));
}

#[test]
fn dxt1_zero_size_fails() {
    let dds = build_dds(0, 4, FOURCC_DXT1, &[0u8; 8]);
    assert!(matches!(decode_dds_with_alpha(&dds), DdsDecoded::Failed));
}

#[test]
fn short_or_foreign_data_left_to_image_decoder() {
    assert!(matches!(decode_dds_with_alpha(b"DDS short"), DdsDecoded::Fallback));
    assert!(matches!(decode_dds_with_alpha(&[0x89, b'P', b'N', b'G']), DdsDecoded::Fallback));
    assert!(dds_decode_within_limits(b"DDS short"));
}

#[test]
fn uncompressed_bgra_with_alpha() {
    let masks = [0x00FF_0000, 0x0000_FF00, 0x0000_00FF, 0xFF00_0000];
    let mut dds = build_dds_header(2, 1, 0x41, 0, 32, masks, 8);
    // pixel 0: a=0x80 r=0x10 g=0x20 b=0x30 ; pixel 1: a=0xFF r=0xAA g=0xBB b=0xCC
    dds.extend_from_slice(&[0x30, 0x20, 0x10, 0x80, 0xCC, 0xBB, 0xAA, 0xFF]);
    assert!(dds_decode_within_limits(&dds));
    let (w, h, pixels) = rgba(decode_dds_with_alpha(&dds));
    assert_eq!((w, h), (2, 1));
    assert_eq!(pixels, vec![0x10, 0x20, 0x30, 0x80, 0xAA, 0xBB, 0xCC, 0xFF]);
}

#[test]
fn uncompressed_rgb_without_alpha_is_opaque() {
    let masks = [0x00FF_0000, 0x0000_FF00, 0x0000_00FF, 0xFF00_0000];
    let mut dds = build_dds_header(1, 1, 0x40, 0, 24, masks, 3);
    dds.extend_from_slice(&[0x01, 0x02, 0x03]);
    let (_, _, pixels) = rgba(decode_dds_with_alpha(&dds));
    assert_eq!(pixels, vec![0x03, 0x02, 0x01, 255]);
}

#[test]
fn uncompressed_short_data_or_odd_depth_fails() {
    let masks = [0x00FF_0000, 0x0000_FF00, 0x0000_00FF, 0];
    let mut short = build_dds_header(2, 2, 0x40, 0, 32, masks, 4);
    short.extend_from_slice(&[0u8; 4]);
    assert!(matches!(decode_dds_with_alpha(&short), DdsDecoded::Failed));
    let mut odd = build_dds_header(1, 1, 0x40, 0, 8, masks, 1);
    odd.push(0);
    assert!(matches!(decode_dds_with_alpha(&odd), DdsDecoded::Failed));
}

#[test]
fn uncompressed_zero_mask_is_outside_limits() {
    let mut dds = build_dds_header(1, 1, 0x40, 0, 32, [0, 0x0000_FF00, 0x0000_00FF, 0], 4);
    dds.extend_from_slice(&[0u8; 4]);
    assert!(!dds_decode_within_limits(&dds));
}

#[test]
fn png_input_round_trips_through_data_uri() {
    let mut png_data = Vec::new();
    let img = image::RgbaImage::from_fn(2, 1, |x, _| if x == 0 { image::Rgba([255, 0, 128, 200]) } else { image::Rgba([1, 2, 3, 4]) });
    image::DynamicImage::ImageRgba8(img)
        .write_to(&mut std::io::Cursor::new(&mut png_data), image::ImageFormat::Png)
        .unwrap();
    let uri = texture_png_data_uri(&png_data).expect("PNG input gives a data URI");
    let back = png_from_uri(&uri);
    assert_eq!((back.width(), back.height()), (2, 1));
    assert_eq!(back.get_pixel(0, 0).0, [255, 0, 128, 200]);
    assert_eq!(back.get_pixel(1, 0).0, [1, 2, 3, 4]);
}

#[test]
fn dxt1_texture_data_uri_keeps_punch_through_alpha() {
    let block: [u8; 8] = [0x00, 0x00, 0xFF, 0xFF, 0xFF, 0xFF, 0xFF, 0xFF];
    let dds = build_dxt1_dds(4, 4, &block);
    let uri = texture_png_data_uri(&dds).expect("DXT1 gives a data URI");
    assert!(uri.starts_with("data:image/png;base64,"));
    let back = png_from_uri(&uri);
    assert_eq!((back.width(), back.height()), (4, 4));
    assert!(back.pixels().all(|p| p.0[3] == 0));
}

#[test]
fn undecodable_texture_gives_no_data_uri() {
    // a DXT1 header whose block data is missing
    let dds = build_dxt1_dds(4, 4, &[0u8; 4]);
    assert!(matches!(decode_dds_with_alpha(&dds), DdsDecoded::Failed));
    assert!(decode_texture(&dds).is_none());
    assert!(texture_png_data_uri(&dds).is_none());
    // bytes no decoder recognises
    assert!(decode_texture(b"not an image").is_none());
    assert!(texture_png_data_uri(b"not an image").is_none());
}
