//! Request validation, admission mapping and reply classification.

use recon::model::ModelId;
use recon::orchestrator::{
    admission_error, classify_reply, parse_algorithm_id, validate_request, HttpError,
};
use recon::queue::OfferResult;
use recon::solver::Algorithm;
use recon::types::{ReconstructionRequest, ReconstructionResult};

fn request(alg: &str, model: &str) -> ReconstructionRequest {
    ReconstructionRequest {
        user_id: 5,
        model_id: model.to_string(),
        algorithm_id: alg.to_string(),
        g: vec![0u64; 4],
    }
}

#[test]
fn algorithms_parse_exactly() {
    assert_eq!(parse_algorithm_id(&"CGNR".to_string()), Some(Algorithm::Cgnr));
    assert_eq!(parse_algorithm_id(&"CGNE".to_string()), Some(Algorithm::Cgne));
    assert_eq!(parse_algorithm_id(&"cgnr".to_string()), None);
    assert_eq!(parse_algorithm_id(&"".to_string()), None);
}

#[test]
fn validation_accepts_known_pairs() {
    assert_eq!(
        validate_request(&request("CGNR", "30x30")),
        Ok((Algorithm::Cgnr, ModelId::M30))
    );
    assert_eq!(
        validate_request(&request("CGNE", "60x60")),
        Ok((Algorithm::Cgne, ModelId::M60))
    );
}

#[test]
fn unknown_model_is_a_bad_request() {
    assert_eq!(
        validate_request(&request("CGNR", "99x99")),
        Err(HttpError::BadRequest)
    );
    assert_eq!(
        validate_request(&request("NOPE", "30x30")),
        Err(HttpError::BadRequest)
    );
}

#[test]
fn status_codes() {
    assert_eq!(HttpError::BadRequest.status_code(), 400);
    assert_eq!(HttpError::ServiceUnavailable.status_code(), 503);
    assert_eq!(HttpError::InternalError.status_code(), 500);
}

#[test]
fn full_queue_surfaces_as_unavailable() {
    assert_eq!(
        admission_error(OfferResult::Rejected),
        Some(HttpError::ServiceUnavailable)
    );
    assert_eq!(admission_error(OfferResult::Accepted), None);
}

#[test]
fn replies_classify_by_channel_and_sentinel() {
    match classify_reply(None) {
        Err(HttpError::InternalError) => {},
        _ => panic!("a closed channel is an internal error"),
    }
    let sentinel = ReconstructionResult::new_error(3, "CGNR".to_string());
    match classify_reply(Some(sentinel)) {
        Err(HttpError::BadRequest) => {},
        _ => panic!("a sentinel is a bad request"),
    }
    let ok = ReconstructionResult {
        user_id: 3,
        algorithm_id: "CGNR".to_string(),
        start_time: 0,
        end_time: 5,
        reconstruction_time_ms: 5,
        image_pixels: (1, 1),
        iterations: 2,
        f: vec![0u64],
    };
    match classify_reply(Some(ok)) {
        Ok(res) => {
            assert_eq!(res.iterations, 2);
            assert_eq!(res.user_id, 3);
        },
        _ => panic!("a normal result passes through"),
    }
}
