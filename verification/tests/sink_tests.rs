//! The image sink: byte conversion, flip, normalisation, PNG encoding
//! and file naming.

use recon::image_sink::{
    flip_rows, image_filename, normalize_pixels, render_image, u8_of_double,
};
use recon::solver::{execute_cgnr, Algorithm};
use recon::matrix::ModelMatrix;
use recon::types::ReconstructionResult;

fn bits_of(v: &[f64]) -> Vec<u64> {
    v.iter().map(|x| x.to_bits()).collect()
}

#[test]
fn byte_conversion_matches_the_native_cast() {
    let samples: [f64; 16] = [
        -1e9, -3.7, -1.0, -0.2, -0.0, 0.0, 0.49, 0.5, 1.0, 1.9, 127.5, 254.999, 255.0, 255.6,
        256.3, 1e9,
    ];
    for v in samples {
        assert_eq!(u8_of_double(v.to_bits()), v as u8, "value {v}");
    }
    assert_eq!(u8_of_double(f64::NAN.to_bits()), f64::NAN as u8);
    assert_eq!(u8_of_double(f64::INFINITY.to_bits()), f64::INFINITY as u8);
    assert_eq!(
        u8_of_double(f64::NEG_INFINITY.to_bits()),
        f64::NEG_INFINITY as u8
    );
}

#[test]
fn flip_reverses_row_order() {
    let f = bits_of(&[1.0, 2.0, 3.0, 4.0, 5.0, 6.0]);
    let flipped = flip_rows(&f, 3, 2);
    assert_eq!(flipped, bits_of(&[5.0, 6.0, 3.0, 4.0, 1.0, 2.0]));
}

#[test]
fn normalisation_spans_the_byte_range() {
    let flipped = bits_of(&[0.0, 1.0, 2.0]);
    let px = normalize_pixels(&flipped);
    let expect: Vec<u8> = [0.0f64, 1.0, 2.0]
        .iter()
        .map(|v| (((v - 0.0) / 2.0) * 255.0) as u8)
        .collect();
    assert_eq!(px, expect);
    assert_eq!(*px.iter().min().unwrap(), 0);
    assert_eq!(*px.iter().max().unwrap(), 255);
}

#[test]
fn constant_image_renders_black() {
    let flipped = bits_of(&[4.25, 4.25, 4.25, 4.25]);
    let px = normalize_pixels(&flipped);
    assert_eq!(px, vec![0u8; 4]);
}

fn sample_result(f: &[f64], h: usize, w: usize) -> ReconstructionResult {
    ReconstructionResult {
        user_id: 0x1234,
        algorithm_id: "CGNR".to_string(),
        start_time: 1_700_000_000_000,
        end_time: 1_700_000_001_500,
        reconstruction_time_ms: 1_500,
        image_pixels: (h, w),
        iterations: 5,
        f: bits_of(f),
    }
}

#[test]
fn png_round_trips_with_vertical_flip() {
    let res = sample_result(&[0.0, 1.0, 2.0, 3.0], 2, 2);
    let (png, name) = render_image(&res).unwrap();
    assert_eq!(
        name,
        format!(
            "img_{}_{}.png",
            uuid::Uuid::from_u128(0x1234),
            1_700_000_001i64
        )
    );
    let img = image::load_from_memory(&png).unwrap().to_luma8();
    assert_eq!(img.dimensions(), (2, 2));
    let norm = |v: f64| (((v - 0.0) / 3.0) * 255.0) as u8;
    // Native rows are [0,1] then [2,3]; the PNG is vertically flipped.
    assert_eq!(img.get_pixel(0, 0).0[0], norm(2.0));
    assert_eq!(img.get_pixel(1, 0).0[0], norm(3.0));
    assert_eq!(img.get_pixel(0, 1).0[0], norm(0.0));
    assert_eq!(img.get_pixel(1, 1).0[0], norm(1.0));
}

#[test]
fn render_rejects_mismatched_geometry() {
    let res = sample_result(&[0.0, 1.0, 2.0], 2, 2);
    assert!(matches!(
        render_image(&res),
        Err(recon::image_sink::ImageError::DimensionMismatch)
    ));
}

#[test]
fn render_rejects_an_empty_raster() {
    let res = sample_result(&[], 0, 0);
    assert!(matches!(
        render_image(&res),
        Err(recon::image_sink::ImageError::EncodeError)
    ));
}

#[test]
fn reconstruction_of_zero_signal_renders_all_black() {
    let m = ModelMatrix {
        s: 4,
        n: 4,
        data: bits_of(&[
            2.0, 0.5, 0.0, 0.0, 0.5, 3.0, 0.25, 0.0, 0.0, 0.25, 1.5, 0.125, 0.0, 0.0, 0.125, 2.5,
        ]),
    };
    let g = bits_of(&[0.0; 4]);
    let res = execute_cgnr(Algorithm::Cgnr, 1, &m, &g);
    let (png, _name) = render_image(&res).unwrap();
    let img = image::load_from_memory(&png).unwrap().to_luma8();
    for p in img.pixels() {
        assert_eq!(p.0[0], 0);
    }
}

#[test]
fn image_file_names_carry_user_and_seconds() {
    let user: u128 = 0xDEAD_BEEF_0123_4567_89AB_CDEF_0011_2233;
    let name = image_filename(user, -1_500);
    assert_eq!(
        name,
        format!("img_{}_{}.png", uuid::Uuid::from_u128(user), -2i64)
    );
    let name2 = image_filename(user, 1_999);
    assert_eq!(
        name2,
        format!("img_{}_{}.png", uuid::Uuid::from_u128(user), 1i64)
    );
}
