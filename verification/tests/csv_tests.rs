//! The CSV grammar: splitting, trimming, decimal parsing, matrix
//! loading.

use recon::csvtext::{parse_csv_doubles, parse_g_vector};
use recon::model::{load_matrix, ModelError};

fn bits_of(v: &[f64]) -> Vec<u64> {
    v.iter().map(|x| x.to_bits()).collect()
}

#[test]
fn csv_reads_rows_and_fields() {
    let text = b"1.0,2.5\n-300.0\n".to_vec();
    let got = parse_csv_doubles(&text).unwrap();
    assert_eq!(got, bits_of(&[1.0, 2.5, -300.0]));
}

#[test]
fn csv_correctly_rounds_decimals() {
    let text = b"0.1,0.2,1e-3,2.5e10,-0.3333333333333333\n".to_vec();
    let expected: Vec<f64> = vec![
        "0.1".parse().unwrap(),
        "0.2".parse().unwrap(),
        "1e-3".parse().unwrap(),
        "2.5e10".parse().unwrap(),
        "-0.3333333333333333".parse().unwrap(),
    ];
    assert_eq!(parse_csv_doubles(&text).unwrap(), bits_of(&expected));
}

#[test]
fn csv_trims_fields_and_skips_empty_lines() {
    let text = b" 1.5 ,\t2.5\r\n\n  -4.25  \n".to_vec();
    assert_eq!(
        parse_csv_doubles(&text).unwrap(),
        bits_of(&[1.5, 2.5, -4.25])
    );
}

#[test]
fn csv_rejects_bad_fields() {
    assert!(parse_csv_doubles(&b"1.0,abc\n".to_vec()).is_none());
    assert!(parse_csv_doubles(&b"1.0,,2.0\n".to_vec()).is_none());
    assert!(parse_csv_doubles(&b"   \n".to_vec()).is_none());
}

#[test]
fn csv_empty_file_is_empty() {
    assert_eq!(parse_csv_doubles(&Vec::new()).unwrap(), Vec::<u64>::new());
    assert_eq!(parse_csv_doubles(&b"\n\n".to_vec()).unwrap(), Vec::<u64>::new());
}

#[test]
fn g_vector_takes_first_field_of_each_line() {
    let text = b"1.5,9.0\n2.5\n\n-3.5,0,0\n".to_vec();
    assert_eq!(parse_g_vector(&text).unwrap(), bits_of(&[1.5, 2.5, -3.5]));
}

#[test]
fn g_vector_rejects_bad_leading_field() {
    assert!(parse_g_vector(&b"1.5\nx,2.0\n".to_vec()).is_none());
}

#[test]
fn load_matrix_shapes_and_checks() {
    let text = b"1.0,2.0\n3.0,4.0\n5.0,6.0\n".to_vec();
    let m = load_matrix(3, 2, &text).unwrap();
    assert_eq!(m.s, 3);
    assert_eq!(m.n, 2);
    assert_eq!(m.data, bits_of(&[1.0, 2.0, 3.0, 4.0, 5.0, 6.0]));
}

#[test]
fn load_matrix_reports_dimension_mismatch() {
    let text = b"1.0,2.0\n3.0,4.0\n".to_vec();
    assert!(matches!(load_matrix(3, 2, &text), Err(ModelError::DimensionMismatch)));
}

#[test]
fn load_matrix_reports_parse_error() {
    let text = b"1.0,two\n".to_vec();
    assert!(matches!(load_matrix(1, 2, &text), Err(ModelError::ParseError)));
}
