//! The image sink: reshapes the reconstructed vector, flips it
//! vertically, normalises it to 8-bit grayscale and encodes a PNG.
//!
//! The flip, the min/max scan, the normalisation arithmetic order and the
//! byte conversion are all verified; only the scalar IEEE operations and
//! the PNG byte-stream encoding are trusted.

use vstd::prelude::*;
use vstd::arithmetic::div_mod::lemma_fundamental_div_mod_converse;
use vstd::arithmetic::mul::lemma_mul_is_distributive_add_other_way;
use crate::fp64::{
    abs_bits, div_bits, f_abs, f_div, f_lt, f_mul, f_sub, lt_bits, mul_bits, sub_bits, B_FLAT,
    B_MAX_PIXEL, B_NEG_INF, B_POS_INF,
};
use crate::format::{
    dec_int_view, i64_to_dec, lemma_dec_int_single_line, lemma_single_line_concat,
    lemma_uuid_single_line, single_line, uuid_string, uuid_view,
};
use crate::matrix::lemma_index_in_bounds;
use crate::time::{unix_seconds, unix_seconds_of};
use crate::types::ReconstructionResult;
use vstd::string::StringExecFns;

verus! {

/// The row-major raster with its row order reversed: entry `(i, j)` of
/// the output is entry `(h - 1 - i, j)` of the input.
pub open spec fn flip_spec(f: Seq<u64>, h: int, w: int) -> Seq<u64> {
    Seq::new((h * w) as nat, |k: int| f[(h - 1 - k / w) * w + k % w])
}

/// Reverses the row order of a row-major raster.
#[verifier::loop_isolation(false)]
pub fn flip_rows(f: &Vec<u64>, h: usize, w: usize) -> (out: Vec<u64>)
    requires
        f@.len() == h * w,
    ensures
        out@ == flip_spec(f@, h as int, w as int),
        out@.len() == f@.len(),
{
    let ghost target = flip_spec(f@, h as int, w as int);
    let total = f.len();
    let mut out: Vec<u64> = Vec::new();
    let mut i: usize = 0;
    while i < h
        invariant
            i <= h,
            out@.len() == i * w,
            out@ == target.take((i * w) as int),
        decreases h - i,
    {
        let mut j: usize = 0;
        while j < w
            invariant
                i < h,
                j <= w,
                out@.len() == i * w + j,
                out@ == target.take((i * w + j) as int),
            decreases w - j,
        {
            proof {
                lemma_index_in_bounds(h as int, w as int, i as int, j as int);
                lemma_index_in_bounds(
                    h as int,
                    w as int,
                    h as int - 1 - i as int,
                    j as int,
                );
                let k = i as int * w as int + j as int;
                lemma_fundamental_div_mod_converse(k, w as int, i as int, j as int);
                assert(target[k] == f@[(h as int - 1 - i as int) * w as int + j as int]);
                assert(target.take(k + 1) =~= target.take(k).push(target[k]));
            }
            out.push(f[(h - 1 - i) * w + j]);
            j = j + 1;
        }
        proof {
            lemma_mul_is_distributive_add_other_way(w as int, i as int, 1);
        }
        i = i + 1;
    }
    proof {
        assert(target.take((h * w) as int) =~= target);
    }
    out
}

/// The fold the sink uses to find the smallest sample: starts at positive
/// infinity; a NaN never replaces the accumulator.
pub open spec fn fold_min(s: Seq<u64>) -> u64
    decreases s.len(),
{
    if s.len() == 0 {
        B_POS_INF
    } else {
        let p = fold_min(s.drop_last());
        if lt_bits(s.last(), p) {
            s.last()
        } else {
            p
        }
    }
}

/// The fold the sink uses to find the largest sample: starts at negative
/// infinity; a NaN never replaces the accumulator.
pub open spec fn fold_max(s: Seq<u64>) -> u64
    decreases s.len(),
{
    if s.len() == 0 {
        B_NEG_INF
    } else {
        let p = fold_max(s.drop_last());
        if lt_bits(p, s.last()) {
            s.last()
        } else {
            p
        }
    }
}

/// The smallest sample of a raster, by the sink's fold.
pub fn min_bits(v: &Vec<u64>) -> (r: u64)
    ensures
        r == fold_min(v@),
{
    let mut acc: u64 = B_POS_INF;
    let mut i: usize = 0;
    while i < v.len()
        invariant
            i <= v@.len(),
            acc == fold_min(v@.take(i as int)),
        decreases v@.len() - i,
    {
        proof {
            assert(v@.take(i as int + 1).drop_last() =~= v@.take(i as int));
        }
        if f_lt(v[i], acc) {
            acc = v[i];
        }
        i = i + 1;
    }
    proof {
        assert(v@.take(v@.len() as int) =~= v@);
    }
    acc
}

/// The largest sample of a raster, by the sink's fold.
pub fn max_bits(v: &Vec<u64>) -> (r: u64)
    ensures
        r == fold_max(v@),
{
    let mut acc: u64 = B_NEG_INF;
    let mut i: usize = 0;
    while i < v.len()
        invariant
            i <= v@.len(),
            acc == fold_max(v@.take(i as int)),
        decreases v@.len() - i,
    {
        proof {
            assert(v@.take(i as int + 1).drop_last() =~= v@.take(i as int));
        }
        if f_lt(acc, v[i]) {
            acc = v[i];
        }
        i = i + 1;
    }
    proof {
        assert(v@.take(v@.len() as int) =~= v@);
    }
    acc
}

/// The value of Rust's saturating double-to-byte conversion, computed on
/// the bit pattern: NaN and negative values give 0, values below one give
/// 0, values of 256 and above (and infinity) give 255, anything else its
/// integer part.
pub open spec fn u8_of_double_bits(b: u64) -> u8 {
    let sign = b >> 63;
    let exp = (b >> 52) & 0x7FF;
    let frac = b & 0xF_FFFF_FFFF_FFFF;
    if exp == 0x7FF && frac != 0 {
        0u8
    } else if sign == 1 {
        0u8
    } else if exp < 1023 {
        0u8
    } else if exp >= 1031 {
        255u8
    } else {
        (((1u64 << 52) | frac) >> ((1075 - exp) as u64)) as u8
    }
}

/// Saturating double-to-byte conversion on the bit pattern.
pub fn u8_of_double(b: u64) -> (r: u8)
    ensures
        r == u8_of_double_bits(b),
{
    let sign = b >> 63;
    let exp = (b >> 52) & 0x7FF;
    let frac = b & 0xF_FFFF_FFFF_FFFF;
    if exp == 0x7FF && frac != 0 {
        0
    } else if sign == 1 {
        0
    } else if exp < 1023 {
        0
    } else if exp >= 1031 {
        255
    } else {
        (((1u64 << 52) | frac) >> (1075 - exp)) as u8
    }
}

/// One normalised pixel: `(v - min) / range * 255`, converted to a byte.
pub open spec fn norm_pixel(v: u64, minb: u64, range: u64) -> u8 {
    u8_of_double_bits(mul_bits(div_bits(sub_bits(v, minb), range), B_MAX_PIXEL))
}

/// The normalised raster: all zeros when the value range is flat (its
/// absolute width compares below 1e-9), otherwise each sample normalised
/// against the raster's own min and range.
pub open spec fn pixels_spec(flipped: Seq<u64>) -> Seq<u8> {
    let minb = fold_min(flipped);
    let range = sub_bits(fold_max(flipped), minb);
    if lt_bits(abs_bits(range), B_FLAT) {
        Seq::new(flipped.len(), |k: int| 0u8)
    } else {
        Seq::new(flipped.len(), |k: int| norm_pixel(flipped[k], minb, range))
    }
}

/// Normalises a flipped raster to 8-bit grayscale.
pub fn normalize_pixels(flipped: &Vec<u64>) -> (out: Vec<u8>)
    ensures
        out@ == pixels_spec(flipped@),
        out@.len() == flipped@.len(),
{
    let minb = min_bits(flipped);
    let maxb = max_bits(flipped);
    let range = f_sub(maxb, minb);
    let mut out: Vec<u8> = Vec::new();
    let mut k: usize = 0;
    if f_lt(f_abs(range), B_FLAT) {
        while k < flipped.len()
            invariant
                k <= flipped@.len(),
                out@.len() == k,
                forall|t: int| 0 <= t < k ==> out@[t] == 0u8,
            decreases flipped@.len() - k,
        {
            out.push(0);
            k = k + 1;
        }
    } else {
        while k < flipped.len()
            invariant
                k <= flipped@.len(),
                out@.len() == k,
                minb == fold_min(flipped@),
                range == sub_bits(fold_max(flipped@), minb),
                forall|t: int| 0 <= t < k ==> out@[t] == norm_pixel(flipped@[t], minb, range),
            decreases flipped@.len() - k,
        {
            let scaled = f_mul(f_div(f_sub(flipped[k], minb), range), B_MAX_PIXEL);
            out.push(u8_of_double(scaled));
            k = k + 1;
        }
    }
    proof {
        assert(out@ =~= pixels_spec(flipped@));
    }
    out
}

/// The full rendering of a reconstructed vector: flip, then normalise.
pub open spec fn render_spec(f: Seq<u64>, h: int, w: int) -> Seq<u8> {
    pixels_spec(flip_spec(f, h, w))
}

/// Law: vertical flip. Pixel `(i, j)` of the rendered raster is sample
/// `(h - 1 - i, j)` of the reconstructed image, normalised against the
/// raster's min and range — or 0 for every pixel when the range is flat.
pub proof fn lemma_vertical_flip(f: Seq<u64>, h: int, w: int, i: int, j: int)
    requires
        f.len() == h * w,
        0 <= i < h,
        0 <= j < w,
    ensures
        ({
            let flipped = flip_spec(f, h, w);
            let minb = fold_min(flipped);
            let range = sub_bits(fold_max(flipped), minb);
            render_spec(f, h, w)[i * w + j] == if lt_bits(abs_bits(range), B_FLAT) {
                0u8
            } else {
                norm_pixel(f[(h - 1 - i) * w + j], minb, range)
            }
        }),
{
    lemma_index_in_bounds(h, w, i, j);
    lemma_index_in_bounds(h, w, h - 1 - i, j);
    let k = i * w + j;
    lemma_fundamental_div_mod_converse(k, w, i, j);
    assert(flip_spec(f, h, w)[k] == f[(h - 1 - i) * w + j]);
}

/// The PNG byte stream of an 8-bit grayscale raster, when the encoder
/// accepts the geometry.
pub uninterp spec fn png_of(pixels: Seq<u8>, w: u32, h: u32) -> Option<Seq<u8>>;

/// Relies on image's `PngEncoder` (`ImageEncoder::write_image` into a
/// memory buffer, color type L8): the encoded stream is a function of the
/// pixel bytes and the geometry alone; the encoder takes exactly
/// `w * h` bytes and rejects geometries it cannot encode, such as a zero
/// width or height.
#[verifier::external_body]
fn encode_png_gray(pixels: &Vec<u8>, w: u32, h: u32) -> (r: Option<Vec<u8>>)
    requires
        pixels@.len() == w * h,
    ensures
        match r {
            Some(b) => png_of(pixels@, w, h) == Some(b@),
            None => png_of(pixels@, w, h) is None,
        },
{
    let mut out: Vec<u8> = Vec::new();
    let enc = image::codecs::png::PngEncoder::new(&mut out);
    match image::ImageEncoder::write_image(
        enc,
        pixels.as_slice(),
        w,
        h,
        image::ExtendedColorType::L8,
    ) {
        Ok(()) => Some(out),
        Err(_) => None,
    }
}

/// The file name of a saved image: `img_`, the hyphenated user identity,
/// `_`, the whole seconds of the end timestamp, `.png`.
pub open spec fn image_filename_view(user: u128, end_ms: i64) -> Seq<char> {
    "img_"@ + uuid_view(user) + "_"@ + dec_int_view(unix_seconds_of(end_ms)) + ".png"@
}

/// The file name of an image stays on one line.
pub proof fn lemma_image_filename_single_line(user: u128, end_ms: i64)
    ensures
        single_line(image_filename_view(user, end_ms)),
{
    reveal_strlit("img_");
    reveal_strlit("_");
    reveal_strlit(".png");
    lemma_uuid_single_line(user);
    lemma_dec_int_single_line(unix_seconds_of(end_ms));
    let p1 = "img_"@;
    lemma_single_line_concat(p1, uuid_view(user));
    let p2 = p1 + uuid_view(user);
    lemma_single_line_concat(p2, "_"@);
    let p3 = p2 + "_"@;
    lemma_single_line_concat(p3, dec_int_view(unix_seconds_of(end_ms)));
    let p4 = p3 + dec_int_view(unix_seconds_of(end_ms));
    lemma_single_line_concat(p4, ".png"@);
}

/// Renders the file name of a result's image.
pub fn image_filename(user: u128, end_ms: i64) -> (r: String)
    ensures
        r@ == image_filename_view(user, end_ms),
        single_line(r@),
{
    let mut s = String::from_str("img_");
    s.append(uuid_string(user).as_str());
    s.append("_");
    s.append(i64_to_dec(unix_seconds(end_ms)).as_str());
    s.append(".png");
    proof {
        assert(s@ =~= image_filename_view(user, end_ms));
        lemma_image_filename_single_line(user, end_ms);
    }
    s
}

/// Why an image could not be produced.
#[derive(Clone, Copy, PartialEq, Eq, Structural, Debug)]
pub enum ImageError {
    /// The recorded geometry does not cover the reconstructed vector, or
    /// a side does not fit the encoder's 32-bit dimensions.
    DimensionMismatch,
    /// The encoder rejected the raster.
    EncodeError,
}

/// Renders a result into a PNG byte stream and its file name. Succeeds
/// exactly when the recorded geometry covers the vector, fits the
/// encoder's dimensions and the encoder accepts the raster; the caller
/// writes the bytes to disk.
pub fn render_image(res: &ReconstructionResult) -> (r: Result<(Vec<u8>, String), ImageError>)
    ensures
        ({
            let h = res.image_pixels.0 as int;
            let w = res.image_pixels.1 as int;
            match r {
                Ok(out) => h * w == res.f@.len() && h <= u32::MAX && w <= u32::MAX && png_of(
                    render_spec(res.f@, h, w),
                    res.image_pixels.1 as u32,
                    res.image_pixels.0 as u32,
                ) == Some(out.0@) && out.1@ == image_filename_view(res.user_id, res.end_time),
                Err(ImageError::DimensionMismatch) => h * w != res.f@.len() || h > u32::MAX || w
                    > u32::MAX,
                Err(ImageError::EncodeError) => h * w == res.f@.len() && h <= u32::MAX && w
                    <= u32::MAX && png_of(
                    render_spec(res.f@, h, w),
                    res.image_pixels.1 as u32,
                    res.image_pixels.0 as u32,
                ) is None,
            }
        }),
{
    let (height, width) = res.image_pixels;
    proof {
        vstd::arithmetic::mul::lemma_mul_upper_bound(
            height as int,
            0xFFFF_FFFF_FFFF_FFFF,
            width as int,
            0xFFFF_FFFF_FFFF_FFFF,
        );
        assert(0xFFFF_FFFF_FFFF_FFFFint * 0xFFFF_FFFF_FFFF_FFFFint < u128::MAX)
            by (nonlinear_arith);
    }
    let need = (height as u128) * (width as u128);
    if (res.f.len() as u128) != need || height > 0xFFFF_FFFFusize || width > 0xFFFF_FFFFusize {
        return Err(ImageError::DimensionMismatch);
    }
    let flipped = flip_rows(&res.f, height, width);
    let pixels = normalize_pixels(&flipped);
    match encode_png_gray(&pixels, width as u32, height as u32) {
        Some(png) => Ok((png, image_filename(res.user_id, res.end_time))),
        None => Err(ImageError::EncodeError),
    }
}

} // verus!
