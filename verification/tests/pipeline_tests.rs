//! A whole job walked through the library, the way the worker drives
//! it: validate, load and cache the matrix, solve, render, report.

use recon::image_sink::render_image;
use recon::model::{load_matrix, ModelId, ModelStore};
use recon::orchestrator::validate_request;
use recon::queue::{JobQueue, OfferResult};
use recon::report::{format_report_line, needs_header, report_header};
use recon::sched::{units_for, AcquireOutcome, MemScheduler};
use recon::solver::execute_cgnr;
use recon::types::ReconstructionRequest;

fn csv_of(rows: &[&[f64]]) -> Vec<u8> {
    let mut out = Vec::new();
    for row in rows {
        let line = row
            .iter()
            .map(|v| format!("{v}"))
            .collect::<Vec<_>>()
            .join(",");
        out.extend_from_slice(line.as_bytes());
        out.push(b'\n');
    }
    out
}

#[test]
fn small_valid_reconstruction_completes() {
    // A 4-pixel model stands in for the real geometry: the pipeline
    // steps are the same.
    let req = ReconstructionRequest {
        user_id: 0xABCD,
        model_id: "30x30".to_string(),
        algorithm_id: "CGNR".to_string(),
        g: [1.0f64, -2.0, 0.5, 3.0].iter().map(|v| v.to_bits()).collect(),
    };
    let (alg, model) = validate_request(&req).unwrap();
    assert_eq!(model, ModelId::M30);

    let mut sched = MemScheduler::new(4);
    let units = units_for(model);
    assert_eq!(sched.try_acquire(units), AcquireOutcome::Granted);

    let text = csv_of(&[
        &[2.0, 0.5, 0.0, 0.0],
        &[0.5, 3.0, 0.25, 0.0],
        &[0.0, 0.25, 1.5, 0.125],
        &[0.0, 0.0, 0.125, 2.5],
    ]);
    let matrix = load_matrix(req.g.len(), 4, &text).unwrap();
    let res = execute_cgnr(alg, req.user_id, &matrix, &req.g);
    assert_eq!(res.f.len(), 4);
    assert!(res.iterations >= 1 && res.iterations <= 1000);
    assert_eq!(res.image_pixels, (2, 2));

    let (png, filename) = render_image(&res).unwrap();
    assert!(!png.is_empty());
    assert!(filename.starts_with("img_"));
    assert!(filename.ends_with(".png"));

    let mut file = String::new();
    if needs_header(file.len() as u64) {
        file.push_str(&report_header());
        file.push('\n');
    }
    file.push_str(&format_report_line(&res, &filename));
    file.push('\n');
    // The file begins with the header and carries exactly one entry.
    assert!(file.starts_with("user_id,"));
    assert_eq!(file.lines().count(), 2);

    sched.release(units);
    assert_eq!(sched.available, 4);
}

#[test]
fn unknown_model_makes_no_job() {
    let req = ReconstructionRequest {
        user_id: 1,
        model_id: "99x99".to_string(),
        algorithm_id: "CGNR".to_string(),
        g: vec![0u64; 4],
    };
    assert!(validate_request(&req).is_err());
    // The queue never sees the request.
    let q: JobQueue<ReconstructionRequest> = JobQueue::new(10);
    assert_eq!(q.capacity, 10);
    assert_eq!(q.items.len(), 0);
}

#[test]
fn second_large_job_waits_for_the_first() {
    // Total capacity of three units; two large jobs of three units each.
    let mut sched = MemScheduler::new(3);
    let units = units_for(ModelId::M60);
    assert_eq!(units, 3);
    assert_eq!(sched.try_acquire(units), AcquireOutcome::Granted);
    assert_eq!(sched.try_acquire(units), AcquireOutcome::MustWait);
    sched.release(units);
    assert_eq!(sched.try_acquire(units), AcquireOutcome::Granted);
    sched.release(units);
}

#[test]
fn oversized_model_is_rejected_outright() {
    let mut sched = MemScheduler::new(2);
    assert_eq!(sched.try_acquire(3), AcquireOutcome::TooLarge);
    // Nothing was reserved for the rejected job.
    assert_eq!(sched.available, 2);
}

#[test]
fn offers_queue_in_arrival_order() {
    let mut q: JobQueue<u128> = JobQueue::new(2);
    assert_eq!(q.offer(1), OfferResult::Accepted);
    assert_eq!(q.offer(2), OfferResult::Accepted);
    assert_eq!(q.offer(3), OfferResult::Rejected);
    assert_eq!(q.take(), Some(1));
    assert_eq!(q.take(), Some(2));
}
