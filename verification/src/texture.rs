//! Texture decoding for DDS files: DXT1 with its one-bit ("punch-through")
//! alpha and uncompressed RGB(A) with channel masks.  Other formats go to the
//! general decoder of the `image` crate; decoded textures are embedded as PNG
//! data URIs.

use vstd::prelude::*;
use crate::bytes::{le_u32, read_u32};

verus! {

broadcast use vstd::std_specs::bits::axiom_u32_trailing_zeros;

/// `"DXT1"` as a little-endian FourCC.
pub const FOURCC_DXT1: u32 = 0x3154_5844;
/// `"DXT3"` as a little-endian FourCC.
pub const FOURCC_DXT3: u32 = 0x3354_5844;
/// `"DXT5"` as a little-endian FourCC.
pub const FOURCC_DXT5: u32 = 0x3554_5844;

/// Result of decoding a texture file.
#[derive(Debug, Clone)]
pub enum DdsDecoded {
    /// Decoded pixels, four bytes (red, green, blue, alpha) per pixel, row by row.
    Rgba { width: u32, height: u32, pixels: Vec<u8> },
    /// Not a DDS file this decoder handles: decode it with a general image decoder.
    Fallback,
    /// A DDS file this decoder handles but cannot decode.
    Failed,
}

/// Mathematical value of a [`DdsDecoded`].
pub enum DdsDecodedModel {
    Rgba { width: u32, height: u32, pixels: Seq<u8> },
    Fallback,
    Failed,
}

impl View for DdsDecoded {
    type V = DdsDecodedModel;

    open spec fn view(&self) -> DdsDecodedModel {
        match self {
            DdsDecoded::Rgba { width, height, pixels } => DdsDecodedModel::Rgba { width: *width, height: *height, pixels: pixels@ },
            DdsDecoded::Fallback => DdsDecodedModel::Fallback,
            DdsDecoded::Failed => DdsDecodedModel::Failed,
        }
    }
}

/// The pixels (one `u32` per pixel, little-endian bytes blue, green, red,
/// alpha) that `texture2ddecoder::decode_bc1a` writes for `data`.
pub uninterp spec fn bc1a_pixels(data: Seq<u8>, width: usize, height: usize) -> Seq<u32>;

/// Number of bytes of DXT1 blocks that a `width` x `height` image needs.
pub open spec fn bc1_data_len(width: int, height: int) -> int {
    ((width + 3) / 4) * ((height + 3) / 4) * 8
}

/// `texture2ddecoder::decode_bc1a(data, width, height, image)`: decodes DXT1
/// blocks with one-bit alpha into `image`.  It fails exactly when `data`
/// holds fewer bytes than the blocks need; on success it has written every
/// one of the `width * height` pixels.
#[verifier::external_body]
fn decode_bc1a(data: &[u8], width: usize, height: usize, image: &mut Vec<u32>) -> (ok: bool)
    requires
        old(image)@.len() == width * height,
        bc1_data_len(width as int, height as int) <= usize::MAX,
    ensures
        ok == (data@.len() >= bc1_data_len(width as int, height as int)),
        final(image)@.len() == old(image)@.len(),
        ok ==> final(image)@ == bc1a_pixels(data@, width, height),
{
    texture2ddecoder::decode_bc1a(data, width, height, image.as_mut_slice()).is_ok()
}

/// Whether `data` starts with the DDS magic and holds a full header.
pub open spec fn is_dds(d: Seq<u8>) -> bool {
    d.len() >= 128 && d[0] == 68 && d[1] == 68 && d[2] == 83 && d[3] == 32
}

/// `DDS_PIXELFORMAT.dwFlags`.
pub open spec fn dds_flags(d: Seq<u8>) -> u32 {
    le_u32(d, 80) as u32
}

/// Image height from the header.
pub open spec fn dds_height(d: Seq<u8>) -> int {
    le_u32(d, 12)
}

/// Image width from the header.
pub open spec fn dds_width(d: Seq<u8>) -> int {
    le_u32(d, 16)
}

/// Whether the pixel format is compressed (FourCC flag).
pub open spec fn dds_has_fourcc(d: Seq<u8>) -> bool {
    dds_flags(d) & 4 != 0
}

/// Whether the pixel format is uncompressed RGB.
pub open spec fn dds_is_rgb(d: Seq<u8>) -> bool {
    dds_flags(d) & 0x40 != 0
}

/// Whether the format is DXT1.
pub open spec fn dds_is_dxt1(d: Seq<u8>) -> bool {
    is_dds(d) && dds_has_fourcc(d) && le_u32(d, 84) == FOURCC_DXT1
}

/// Whether the format is uncompressed RGB(A).
pub open spec fn dds_is_uncompressed_rgb(d: Seq<u8>) -> bool {
    is_dds(d) && !dds_has_fourcc(d) && dds_is_rgb(d)
}

/// Bits per pixel of an uncompressed format.
pub open spec fn dds_bit_count(d: Seq<u8>) -> int {
    le_u32(d, 88)
}

/// Channel masks of an uncompressed format (`c` = 0 red, 1 green, 2 blue, 3 alpha).
pub open spec fn dds_mask(d: Seq<u8>, c: int) -> u32 {
    if c == 3 && dds_flags(d) & 1 == 0 { 0 } else { le_u32(d, 92 + 4 * c) as u32 }
}

/// One byte of a DXT1-decoded pixel, reordered from blue-green-red-alpha to
/// red-green-blue-alpha.
pub open spec fn bgra_to_rgba(p: u32, c: int) -> u8 {
    if c == 0 {
        ((p as int / 65536) % 256) as u8
    } else if c == 1 {
        ((p as int / 256) % 256) as u8
    } else if c == 2 {
        (p as int % 256) as u8
    } else {
        ((p as int / 16777216) % 256) as u8
    }
}

/// The raw value of uncompressed pixel `i` (`bpp` bytes, little-endian).
pub open spec fn raw_pixel(d: Seq<u8>, bpp: int, i: int) -> u32 {
    let o = 128 + i * bpp;
    if bpp == 4 {
        le_u32(d, o) as u32
    } else if bpp == 3 {
        (d[o] + 256 * d[o + 1] + 65536 * d[o + 2]) as u32
    } else {
        (d[o] + 256 * d[o + 1]) as u32
    }
}

/// Channel `c` of a raw pixel: the masked bits shifted down, truncated to a
/// byte; alpha is 255 when the format has no alpha mask.
pub open spec fn rgb_channel(d: Seq<u8>, p: u32, c: int) -> u8 {
    let m = dds_mask(d, c);
    if c == 3 && m == 0 {
        255u8
    } else {
        ((p & m) >> m.trailing_zeros()) as u8
    }
}

/// What decoding a texture file gives (see [`decode_dds_with_alpha`]).
pub open spec fn spec_decode_dds(d: Seq<u8>) -> DdsDecodedModel {
    let w = dds_width(d);
    let h = dds_height(d);
    if dds_is_dxt1(d) {
        if w == 0 || h == 0 {
            DdsDecodedModel::Failed
        } else if d.len() - 128 < bc1_data_len(w, h) {
            DdsDecodedModel::Failed
        } else {
            let px = bc1a_pixels(d.subrange(128, d.len() as int), w as usize, h as usize);
            DdsDecodedModel::Rgba {
                width: w as u32,
                height: h as u32,
                pixels: Seq::new((4 * w * h) as nat, |k: int| bgra_to_rgba(px[k / 4], k % 4)),
            }
        }
    } else if dds_is_uncompressed_rgb(d) {
        let bpp = dds_bit_count(d) / 8;
        if w == 0 || h == 0 || dds_bit_count(d) == 0 {
            DdsDecodedModel::Failed
        } else if d.len() - 128 < w * h * bpp {
            DdsDecodedModel::Failed
        } else if bpp < 2 || bpp > 4 {
            DdsDecodedModel::Failed
        } else {
            DdsDecodedModel::Rgba {
                width: w as u32,
                height: h as u32,
                pixels: Seq::new((4 * w * h) as nat, |k: int| rgb_channel(d, raw_pixel(d, bpp, k / 4), k % 4)),
            }
        }
    } else {
        DdsDecodedModel::Fallback
    }
}

/// The colors of a decoded DXT1 file: four bytes per pixel, pixel `i`
/// taken from the decoder's pixel `i` (blue in its low byte, then green,
/// red and alpha) and reordered to red, green, blue, alpha.
pub proof fn dxt1_pixels_reordered_to_rgba(d: Seq<u8>, i: int)
    requires
        dds_is_dxt1(d),
        spec_decode_dds(d) is Rgba,
        0 <= i < dds_width(d) * dds_height(d),
    ensures
        ({
            let q = bc1a_pixels(d.subrange(128, d.len() as int), dds_width(d) as usize, dds_height(d) as usize)[i] as int;
            let px = spec_decode_dds(d)->Rgba_pixels;
            &&& px.len() == 4 * dds_width(d) * dds_height(d)
            &&& px[4 * i] == (q / 65536) % 256
            &&& px[4 * i + 1] == (q / 256) % 256
            &&& px[4 * i + 2] == q % 256
            &&& px[4 * i + 3] == (q / 16777216) % 256
        }),
{
    let w = dds_width(d);
    let h = dds_height(d);
    assert(0 <= 4 * i && 4 * i + 3 < 4 * w * h) by (nonlinear_arith)
        requires 0 <= i < w * h;
    assert((4 * i) / 4 == i && (4 * i) % 4 == 0);
    assert((4 * i + 1) / 4 == i && (4 * i + 1) % 4 == 1);
    assert((4 * i + 2) / 4 == i && (4 * i + 2) % 4 == 2);
    assert((4 * i + 3) / 4 == i && (4 * i + 3) % 4 == 3);
}

/// The colors of a decoded uncompressed DDS file: there are four bytes per
/// pixel; pixel `i` is the little-endian value of its bytes (2, 3 or 4 of
/// them, low byte first); red, green and blue are that value masked with the
/// channel's little-endian mask at offset `92 + 4 * c` and shifted down by
/// the mask's trailing zeros; alpha is 255 when the format has no alpha flag.
pub proof fn uncompressed_pixels_are_little_endian_masked(d: Seq<u8>, i: int, c: int)
    requires
        dds_is_uncompressed_rgb(d),
        spec_decode_dds(d) is Rgba,
        0 <= i < dds_width(d) * dds_height(d),
        0 <= c < 4,
    ensures
        ({
            let bpp = (d[88] + 256 * d[89] + 65536 * d[90] + 16777216 * d[91]) / 8;
            let o = 128 + i * bpp;
            let p = (d[o] + 256 * d[o + 1] + (if bpp >= 3 { 65536 * d[o + 2] } else { 0 })
                + (if bpp >= 4 { 16777216 * d[o + 3] } else { 0 })) as u32;
            let m = (d[92 + 4 * c] + 256 * d[93 + 4 * c] + 65536 * d[94 + 4 * c] + 16777216 * d[95 + 4 * c]) as u32;
            let px = spec_decode_dds(d)->Rgba_pixels;
            &&& 2 <= bpp <= 4
            &&& px.len() == 4 * dds_width(d) * dds_height(d)
            &&& c < 3 ==> px[4 * i + c] == ((p & m) >> m.trailing_zeros()) as u8
            &&& (c == 3 && dds_flags(d) & 1 == 0) ==> px[4 * i + c] == 255
            &&& (c == 3 && dds_flags(d) & 1 != 0 && m == 0) ==> px[4 * i + c] == 255
            &&& (c == 3 && dds_flags(d) & 1 != 0 && m != 0) ==> px[4 * i + c] == ((p & m) >> m.trailing_zeros()) as u8
        }),
{
    let w = dds_width(d);
    let h = dds_height(d);
    let bpp = dds_bit_count(d) / 8;
    assert(0 <= 4 * i + c < 4 * w * h) by (nonlinear_arith)
        requires 0 <= i < w * h, 0 <= c < 4;
    assert((4 * i + c) / 4 == i && (4 * i + c) % 4 == c) by (nonlinear_arith)
        requires 0 <= c < 4;
    let o = 128 + i * bpp;
    assert(raw_pixel(d, bpp, i) == (d[o] + 256 * d[o + 1] + (if bpp >= 3 { 65536 * d[o + 2] } else { 0 })
        + (if bpp >= 4 { 16777216 * d[o + 3] } else { 0 })) as u32);
}

/// Decoding stays within machine limits: the pixel buffers fit in memory and
/// size computations do not overflow; for uncompressed formats the red,
/// green and blue masks are nonzero (the decoder shifts by their trailing zeros).
pub open spec fn dds_decode_fits(d: Seq<u8>) -> bool {
    let w = dds_width(d);
    let h = dds_height(d);
    let bpp = dds_bit_count(d) / 8;
    &&& dds_is_dxt1(d) ==> 4 * w * h <= isize::MAX && bc1_data_len(w, h) <= usize::MAX
    &&& dds_is_uncompressed_rgb(d) ==> {
        &&& 4 * w * h <= isize::MAX
        &&& w * h * bpp <= usize::MAX
        &&& (w != 0 && h != 0 && bpp >= 2 && bpp <= 4 && d.len() - 128 >= w * h * bpp) ==> {
            dds_mask(d, 0) != 0 && dds_mask(d, 1) != 0 && dds_mask(d, 2) != 0
        }
    }
}

fn decode_dxt1(data: &[u8], width: usize, height: usize) -> (r: DdsDecoded)
    requires
        dds_is_dxt1(data@),
        width == dds_width(data@),
        height == dds_height(data@),
        width > 0,
        height > 0,
        dds_decode_fits(data@),
    ensures
        r@ == spec_decode_dds(data@),
{
    let len = data.len();
    let compressed = &data[128..len];
    assert(width * height <= 4 * width * height && 4 * (width * height) == 4 * width * height) by (nonlinear_arith)
        requires width > 0, height > 0;
    let n = width * height;
    let mut pixels: Vec<u32> = Vec::with_capacity(n);
    let mut i: usize = 0;
    while i < n
        invariant
            i <= n,
            pixels@.len() == i,
        decreases n - i,
    {
        pixels.push(0u32);
        i += 1;
    }
    if !decode_bc1a(compressed, width, height, &mut pixels) {
        return DdsDecoded::Failed;
    }
    let ghost px = pixels@;
    let mut rgba: Vec<u8> = Vec::with_capacity(4 * n);
    let mut i: usize = 0;
    while i < n
        invariant
            n == width * height,
            4 * n <= isize::MAX,
            px == pixels@,
            px.len() == n,
            i <= n,
            rgba@.len() == 4 * i,
            forall|k: int| 0 <= k < 4 * i ==> #[trigger] rgba@[k] == bgra_to_rgba(px[k / 4], k % 4),
        decreases n - i,
    {
        let p = pixels[i];
        let r = ((p / 65536) % 256) as u8;
        let g = ((p / 256) % 256) as u8;
        let b = (p % 256) as u8;
        let a = ((p / 16777216) % 256) as u8;
        let ghost before = rgba@;
        rgba.push(r);
        rgba.push(g);
        rgba.push(b);
        rgba.push(a);
        proof {
            let i4 = 4 * i as int;
            assert(i4 / 4 == i && (i4 + 1) / 4 == i && (i4 + 2) / 4 == i && (i4 + 3) / 4 == i);
            assert(i4 % 4 == 0 && (i4 + 1) % 4 == 1 && (i4 + 2) % 4 == 2 && (i4 + 3) % 4 == 3);
            assert forall|k: int| 0 <= k < 4 * i + 4 implies #[trigger] rgba@[k] == bgra_to_rgba(px[k / 4], k % 4) by {
                if k < 4 * i {
                    assert(rgba@[k] == before[k]);
                }
            }
        }
        i += 1;
    }
    let r = DdsDecoded::Rgba { width: width as u32, height: height as u32, pixels: rgba };
    assert(r@ == spec_decode_dds(data@)) by {
        if let DdsDecodedModel::Rgba { width: _, height: _, pixels: q } = spec_decode_dds(data@) {
            assert(compressed@ == data@.subrange(128, data@.len() as int));
            assert(rgba@ =~= q);
        }
    }
    r
}

fn decode_rgb(data: &[u8], width: usize, height: usize, bpp: usize) -> (r: DdsDecoded)
    requires
        dds_is_uncompressed_rgb(data@),
        width == dds_width(data@),
        height == dds_height(data@),
        bpp == dds_bit_count(data@) / 8,
        width > 0,
        height > 0,
        2 <= bpp <= 4,
        data@.len() - 128 >= width * height * bpp,
        dds_decode_fits(data@),
    ensures
        r@ == spec_decode_dds(data@),
{
    let flags = read_u32(data, 80);
    let has_alpha = flags & 1 != 0;
    let r_mask = read_u32(data, 92);
    let g_mask = read_u32(data, 96);
    let b_mask = read_u32(data, 100);
    let a_mask = if has_alpha { read_u32(data, 104) } else { 0 };
    assert(r_mask == dds_mask(data@, 0) && g_mask == dds_mask(data@, 1) && b_mask == dds_mask(data@, 2)
        && a_mask == dds_mask(data@, 3));
    let r_shift = r_mask.trailing_zeros();
    let g_shift = g_mask.trailing_zeros();
    let b_shift = b_mask.trailing_zeros();
    let a_shift = if a_mask != 0 { a_mask.trailing_zeros() } else { 0 };
    assert(width * height <= 4 * width * height && 4 * (width * height) == 4 * width * height) by (nonlinear_arith)
        requires width > 0, height > 0;
    let n = width * height;
    let mut rgba: Vec<u8> = Vec::with_capacity(4 * n);
    let mut i: usize = 0;
    while i < n
        invariant
            n == width * height,
            4 * n <= isize::MAX,
            n * bpp <= data@.len() - 128,
            2 <= bpp <= 4,
            r_mask == dds_mask(data@, 0),
            g_mask == dds_mask(data@, 1),
            b_mask == dds_mask(data@, 2),
            a_mask == dds_mask(data@, 3),
            r_mask != 0 && g_mask != 0 && b_mask != 0,
            r_shift == r_mask.trailing_zeros(),
            g_shift == g_mask.trailing_zeros(),
            b_shift == b_mask.trailing_zeros(),
            a_mask != 0 ==> a_shift == a_mask.trailing_zeros(),
            !has_alpha ==> a_mask == 0,
            i <= n,
            rgba@.len() == 4 * i,
            forall|k: int| 0 <= k < 4 * i ==> #[trigger] rgba@[k] == rgb_channel(data@, raw_pixel(data@, bpp as int, k / 4), k % 4),
        decreases n - i,
    {
        assert(i * bpp + bpp <= n * bpp) by (nonlinear_arith)
            requires i < n, bpp >= 2;
        let o = 128 + i * bpp;
        let pixel: u32 = if bpp == 4 {
            read_u32(data, o)
        } else if bpp == 3 {
            data[o] as u32 + (data[o + 1] as u32) * 256 + (data[o + 2] as u32) * 65536
        } else {
            data[o] as u32 + (data[o + 1] as u32) * 256
        };
        assert(pixel == raw_pixel(data@, bpp as int, i as int));
        let r = ((pixel & r_mask) >> r_shift) as u8;
        let g = ((pixel & g_mask) >> g_shift) as u8;
        let b = ((pixel & b_mask) >> b_shift) as u8;
        let a = if has_alpha && a_mask != 0 { ((pixel & a_mask) >> a_shift) as u8 } else { 255u8 };
        let ghost pv = raw_pixel(data@, bpp as int, i as int);
        assert(r == rgb_channel(data@, pv, 0));
        assert(g == rgb_channel(data@, pv, 1));
        assert(b == rgb_channel(data@, pv, 2));
        assert(a == rgb_channel(data@, pv, 3));
        let ghost before = rgba@;
        rgba.push(r);
        rgba.push(g);
        rgba.push(b);
        rgba.push(a);
        proof {
            let i4 = 4 * i as int;
            assert(i4 / 4 == i && (i4 + 1) / 4 == i && (i4 + 2) / 4 == i && (i4 + 3) / 4 == i);
            assert(i4 % 4 == 0 && (i4 + 1) % 4 == 1 && (i4 + 2) % 4 == 2 && (i4 + 3) % 4 == 3);
            assert forall|k: int| 0 <= k < 4 * i + 4 implies #[trigger] rgba@[k] == rgb_channel(data@, raw_pixel(data@, bpp as int, k / 4), k % 4) by {
                if k < 4 * i {
                    assert(rgba@[k] == before[k]);
                }
            }
        }
        i += 1;
    }
    let r = DdsDecoded::Rgba { width: width as u32, height: height as u32, pixels: rgba };
    assert(r@ == spec_decode_dds(data@)) by {
        if let DdsDecodedModel::Rgba { width: _, height: _, pixels: q } = spec_decode_dds(data@) {
            assert(rgba@ =~= q);
        }
    }
    r
}

/// Whether `data` is within the machine limits of [`decode_dds_with_alpha`]
/// (see [`dds_decode_fits`]), so that it can be decoded.
pub fn dds_decode_within_limits(data: &[u8]) -> (r: bool)
    ensures
        r == dds_decode_fits(data@),
{
    let len = data.len();
    if !(len >= 128 && data[0] == 68 && data[1] == 68 && data[2] == 83 && data[3] == 32) {
        return true;
    }
    let flags = read_u32(data, 80);
    let h32 = read_u32(data, 12);
    let w32 = read_u32(data, 16);
    let h = h32 as u128;
    let w = w32 as u128;
    assert(w * h <= 0xFFFF_FFFF * 0xFFFF_FFFF) by (nonlinear_arith)
        requires w <= 0xFFFF_FFFF, h <= 0xFFFF_FFFF;
    let wh = w * h;
    let px_bytes = 4 * wh;
    assert(4 * w * h == px_bytes) by (nonlinear_arith)
        requires px_bytes == 4 * wh, wh == w * h;
    assert(w == dds_width(data@) && h == dds_height(data@));
    if flags & 4 != 0 {
        if read_u32(data, 84) == FOURCC_DXT1 {
            let bw = (w + 3) / 4;
            let bh = (h + 3) / 4;
            assert(bw * bh <= 0x4000_0000 * 0x4000_0000) by (nonlinear_arith)
                requires bw <= 0x4000_0000, bh <= 0x4000_0000;
            let blocks = bw * bh * 8;
            return px_bytes <= isize::MAX as u128 && blocks <= usize::MAX as u128;
        }
        return true;
    }
    if flags & 0x40 == 0 {
        return true;
    }
    let bpp = (read_u32(data, 88) / 8) as u128;
    assert(wh * bpp <= (0xFFFF_FFFF * 0xFFFF_FFFF) * 0x2000_0000) by (nonlinear_arith)
        requires wh <= 0xFFFF_FFFF * 0xFFFF_FFFF, bpp <= 0x2000_0000;
    let need = wh * bpp;
    if !(px_bytes <= isize::MAX as u128) || !(need <= usize::MAX as u128) {
        return false;
    }
    if w != 0 && h != 0 && bpp >= 2 && bpp <= 4 && (len as u128) - 128 >= need {
        read_u32(data, 92) != 0 && read_u32(data, 96) != 0 && read_u32(data, 100) != 0
    } else {
        true
    }
}

/// Decodes a texture file.  DXT1 files are decoded with their one-bit alpha
/// kept (pixels whose block colors select the transparent entry get alpha
/// 0); uncompressed RGB(A) files are decoded through their channel masks
/// (alpha 255 without an alpha mask); every other file, DXT3 and DXT5
/// among them, is left to a general image decoder.
pub fn decode_dds_with_alpha(data: &[u8]) -> (r: DdsDecoded)
    requires
        dds_decode_fits(data@),
    ensures
        r@ == spec_decode_dds(data@),
{
    let len = data.len();
    if len >= 128 && data[0] == 68 && data[1] == 68 && data[2] == 83 && data[3] == 32 {
        let pf_flags = read_u32(data, 80);
        let has_fourcc = pf_flags & 4 != 0;
        if has_fourcc {
            let fourcc = read_u32(data, 84);
            if fourcc == FOURCC_DXT1 {
                let height = read_u32(data, 12) as usize;
                let width = read_u32(data, 16) as usize;
                if width == 0 || height == 0 {
                    return DdsDecoded::Failed;
                }
                return decode_dxt1(data, width, height);
            }
        } else {
            let is_rgb = pf_flags & 0x40 != 0;
            if is_rgb {
                let height = read_u32(data, 12) as usize;
                let width = read_u32(data, 16) as usize;
                let bit_count = read_u32(data, 88) as usize;
                if width == 0 || height == 0 || bit_count == 0 {
                    return DdsDecoded::Failed;
                }
                let bytes_per_pixel = bit_count / 8;
                assert(width * height <= 4 * width * height) by (nonlinear_arith)
                    requires width > 0, height > 0;
                let expected_size = width * height * bytes_per_pixel;
                if len - 128 < expected_size {
                    return DdsDecoded::Failed;
                }
                if bytes_per_pixel < 2 || bytes_per_pixel > 4 {
                    return DdsDecoded::Failed;
                }
                return decode_rgb(data, width, height, bytes_per_pixel);
            }
        }
    }
    DdsDecoded::Fallback
}

// ---------------------------------------------------------------------------
// General decoding and PNG data URIs
// ---------------------------------------------------------------------------

/// What `image::load_from_memory(data)` decodes `data` to, converted to
/// RGBA8: width, height and pixel bytes; `None` when the crate cannot decode it.
pub uninterp spec fn image_rgba(data: Seq<u8>) -> Option<(u32, u32, Seq<u8>)>;

/// The PNG file that the `image` crate writes for a `w` x `h` RGBA8 image
/// with these pixel bytes; `None` when the bytes do not make such an image
/// or encoding fails.
pub uninterp spec fn png_encoded(w: u32, h: u32, rgba: Seq<u8>) -> Option<Seq<u8>>;

/// An optional decoded image by its view.
pub open spec fn rgba_view(r: Option<(u32, u32, Vec<u8>)>) -> Option<(u32, u32, Seq<u8>)> {
    match r {
        Some((w, h, p)) => Some((w, h, p@)),
        None => None,
    }
}

/// `image::load_from_memory(data)` followed by `to_rgba8`: the image's
/// width, height and RGBA8 bytes, or `None` when the crate returns an error.
#[verifier::external_body]
fn load_image_rgba(data: &[u8]) -> (r: Option<(u32, u32, Vec<u8>)>)
    ensures
        rgba_view(r) == image_rgba(data@),
{
    match image::load_from_memory(data) {
        Ok(img) => {
            let rgba = img.to_rgba8();
            Some((rgba.width(), rgba.height(), rgba.into_raw()))
        },
        Err(_) => None,
    }
}

/// `image::RgbaImage::from_raw(w, h, rgba)` written with
/// `DynamicImage::write_to(.., ImageFormat::Png)` into a byte buffer: the
/// PNG bytes, or `None` when `from_raw` refuses the buffer or the encoder
/// returns an error.
#[verifier::external_body]
fn encode_png(w: u32, h: u32, rgba: Vec<u8>) -> (r: Option<Vec<u8>>)
    ensures
        r matches Some(png) ==> png_encoded(w, h, rgba@) == Some(png@),
        r is None ==> png_encoded(w, h, rgba@) is None,
{
    let img = match image::RgbaImage::from_raw(w, h, rgba) {
        Some(img) => img,
        None => return None,
    };
    let mut png: Vec<u8> = Vec::new();
    match image::DynamicImage::ImageRgba8(img).write_to(&mut std::io::Cursor::new(&mut png), image::ImageFormat::Png) {
        Ok(()) => Some(png),
        Err(_) => None,
    }
}

/// What decoding a texture file gives: the pixels of [`spec_decode_dds`]
/// when the DDS decoder handles the file, else what the general decoder
/// makes of it.
pub open spec fn spec_decode_texture(d: Seq<u8>) -> Option<(u32, u32, Seq<u8>)> {
    match spec_decode_dds(d) {
        DdsDecodedModel::Rgba { width, height, pixels } => Some((width, height, pixels)),
        DdsDecodedModel::Fallback => image_rgba(d),
        DdsDecodedModel::Failed => None,
    }
}

/// Decodes a texture file to width, height and RGBA8 bytes: DXT1 and
/// uncompressed RGB(A) DDS files by [`decode_dds_with_alpha`], every other
/// file (DXT3 and DXT5 among them) by the `image` crate.
pub fn decode_texture(data: &[u8]) -> (r: Option<(u32, u32, Vec<u8>)>)
    requires
        dds_decode_fits(data@),
    ensures
        rgba_view(r) == spec_decode_texture(data@),
{
    match decode_dds_with_alpha(data) {
        DdsDecoded::Rgba { width, height, pixels } => Some((width, height, pixels)),
        DdsDecoded::Fallback => load_image_rgba(data),
        DdsDecoded::Failed => None,
    }
}

/// The PNG data URI of a texture file: its decoded pixels, encoded as PNG,
/// base64 under `data:image/png;base64,`; `None` when decoding or encoding fails.
pub open spec fn spec_texture_uri(d: Seq<u8>) -> Option<Seq<char>> {
    match spec_decode_texture(d) {
        Some((w, h, p)) => match png_encoded(w, h, p) {
            Some(png) => Some("data:image/png;base64,"@ + crate::scene_model::base64_encoded(png)),
            None => None,
        },
        None => None,
    }
}

/// Decodes a texture file and embeds it as a PNG data URI.
pub fn texture_png_data_uri(data: &[u8]) -> (r: Option<String>)
    requires
        dds_decode_fits(data@),
    ensures
        crate::map::opt_view(r) == spec_texture_uri(data@),
{
    match decode_texture(data) {
        Some((w, h, pixels)) => match encode_png(w, h, pixels) {
            Some(png) => Some(crate::scene_model::png_data_uri(png.as_slice())),
            None => None,
        },
        None => None,
    }
}

} // verus!
