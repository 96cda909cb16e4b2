//! Report formatting, timestamps, status snapshots and the result
//! record's constructors.

use recon::report::{format_report_line, needs_header, report_header};
use recon::time::{elapsed_ms, unix_seconds};
use recon::types::{build_status, ReconstructionResult};

fn bits_of(v: &[f64]) -> Vec<u64> {
    v.iter().map(|x| x.to_bits()).collect()
}

#[test]
fn header_text_and_rule() {
    assert_eq!(
        report_header(),
        "user_id,algorithm_id,start_time,end_time,reconstruction_ms,image_pixels,iterations,image_filename"
    );
    assert!(needs_header(0));
    assert!(!needs_header(1));
    assert!(!needs_header(4096));
}

#[test]
fn report_line_matches_the_documented_format() {
    let user: u128 = 0x0123_4567_89AB_CDEF_0011_2233_4455_6677;
    let res = ReconstructionResult {
        user_id: user,
        algorithm_id: "CGNR".to_string(),
        start_time: 0,
        end_time: 86_400_123,
        reconstruction_time_ms: 86_400_123,
        image_pixels: (30, 30),
        iterations: 17,
        f: bits_of(&[1.0]),
    };
    let line = format_report_line(&res, &"img_u_1.png".to_string());
    let expected = format!(
        "{},{},{},{},{},\"({},{})\",{},{}",
        uuid::Uuid::from_u128(user),
        "CGNR",
        chrono::DateTime::from_timestamp_millis(0).unwrap().to_rfc3339(),
        chrono::DateTime::from_timestamp_millis(86_400_123)
            .unwrap()
            .to_rfc3339(),
        86_400_123i64,
        30,
        30,
        17,
        "img_u_1.png"
    );
    assert_eq!(line, expected);
    // One CSV row: the only unquoted commas separate the eight fields,
    // and the line holds no line break.
    assert!(!line.contains('\n'));
    // Seven separators between the eight fields, one comma inside the
    // quoted geometry.
    assert_eq!(line.matches(',').count(), 8);
}

#[test]
fn elapsed_is_a_signed_clamped_difference() {
    assert_eq!(elapsed_ms(100, 250), 150);
    assert_eq!(elapsed_ms(250, 100), -150);
    assert_eq!(elapsed_ms(0, 0), 0);
    assert_eq!(elapsed_ms(i64::MIN, i64::MAX), i64::MAX);
    assert_eq!(elapsed_ms(i64::MAX, i64::MIN), i64::MIN);
}

#[test]
fn unix_seconds_round_toward_minus_infinity() {
    assert_eq!(unix_seconds(0), 0);
    assert_eq!(unix_seconds(999), 0);
    assert_eq!(unix_seconds(1_000), 1);
    assert_eq!(unix_seconds(-1), -1);
    assert_eq!(unix_seconds(-1_000), -1);
    assert_eq!(unix_seconds(-1_500), -2);
    assert_eq!(
        unix_seconds(1_700_000_001_500),
        chrono::DateTime::from_timestamp_millis(1_700_000_001_500)
            .unwrap()
            .timestamp()
    );
    assert_eq!(
        unix_seconds(-7_200_123),
        chrono::DateTime::from_timestamp_millis(-7_200_123)
            .unwrap()
            .timestamp()
    );
}

#[test]
fn error_sentinel_shape() {
    let e = ReconstructionResult::new_error(77, "CGNR".to_string());
    assert!(e.is_error_sentinel());
    assert_eq!(e.user_id, 77);
    assert_eq!(e.algorithm_id, "CGNR");
    assert_eq!(e.start_time, e.end_time);
    assert_eq!(e.reconstruction_time_ms, 0);
    assert_eq!(e.iterations, 0);
    assert_eq!(e.image_pixels, (0, 0));
    assert!(e.f.is_empty());
}

#[test]
fn default_result_is_the_blank_sentinel() {
    let d = ReconstructionResult::default();
    assert!(d.is_error_sentinel());
    assert_eq!(d.user_id, 0);
    assert_eq!(d.algorithm_id, "ERROR");
}

#[test]
fn status_snapshot_reports_whole_mebibytes() {
    let st = build_status(42.5f32.to_bits(), 3 * 1024 * 1024 * 1024, 4 * 1024 * 1024 * 1024);
    assert_eq!(f32::from_bits(st.cpu_usage), 42.5);
    assert_eq!(st.memory_usage_mb, 3 * 1024);
    assert_eq!(st.total_memory_mb, 4 * 1024);
    assert!(st.memory_usage_mb <= st.total_memory_mb);
    let odd = build_status(0, 1_572_864_123, 2_147_483_648);
    assert_eq!(odd.memory_usage_mb, 1_500);
    assert_eq!(odd.total_memory_mb, 2_048);
}
