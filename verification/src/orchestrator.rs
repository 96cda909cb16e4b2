//! The request orchestrator's decisions: validating a request, mapping
//! the queue's answer, and classifying what comes back over a job's
//! reply channel. The transport around these decisions lives outside the
//! library.

use vstd::prelude::*;
use crate::model::{spec_parse_model, parse_model_id, ModelId};
use crate::solver::Algorithm;
use crate::types::ReconstructionRequest;
use crate::queue::OfferResult;
use vstd::string::StringExecFns;

verus! {

/// The error dispositions the orchestrator surfaces.
#[derive(Clone, Copy, PartialEq, Eq, Structural, Debug)]
pub enum HttpError {
    /// An unrecognised algorithm or model, or a worker-side model/data
    /// fault.
    BadRequest,
    /// The admission queue is full.
    ServiceUnavailable,
    /// The dispatcher or the reply channel failed.
    InternalError,
}

impl HttpError {
    /// The HTTP status code of the disposition.
    pub fn status_code(&self) -> (r: u16)
        ensures
            r == match *self {
                HttpError::BadRequest => 400u16,
                HttpError::ServiceUnavailable => 503u16,
                HttpError::InternalError => 500u16,
            },
    {
        match self {
            HttpError::BadRequest => 400,
            HttpError::ServiceUnavailable => 503,
            HttpError::InternalError => 500,
        }
    }
}

/// Which algorithm a wire name denotes, if any.
pub open spec fn spec_parse_algorithm(s: Seq<char>) -> Option<Algorithm> {
    if s == "CGNR"@ {
        Some(Algorithm::Cgnr)
    } else if s == "CGNE"@ {
        Some(Algorithm::Cgne)
    } else {
        None
    }
}

/// Parses an algorithm wire name.
pub fn parse_algorithm_id(s: &String) -> (r: Option<Algorithm>)
    ensures
        r == spec_parse_algorithm(s@),
{
    if *s == String::from_str("CGNR") {
        Some(Algorithm::Cgnr)
    } else if *s == String::from_str("CGNE") {
        Some(Algorithm::Cgne)
    } else {
        None
    }
}

/// Validates a request before any job is created: both names must be
/// recognised; an unknown algorithm is reported before an unknown model.
pub fn validate_request(req: &ReconstructionRequest) -> (r: Result<
    (Algorithm, ModelId),
    HttpError,
>)
    ensures
        match r {
            Ok(am) => spec_parse_algorithm(req.algorithm_id@) == Some(am.0) && spec_parse_model(
                req.model_id@,
            ) == Some(am.1),
            Err(e) => e == HttpError::BadRequest && (spec_parse_algorithm(req.algorithm_id@)
                is None || spec_parse_model(req.model_id@) is None),
        },
        r is Ok <==> spec_parse_algorithm(req.algorithm_id@) is Some && spec_parse_model(
            req.model_id@,
        ) is Some,
{
    match parse_algorithm_id(&req.algorithm_id) {
        None => Err(HttpError::BadRequest),
        Some(alg) => match parse_model_id(&req.model_id) {
            None => Err(HttpError::BadRequest),
            Some(model) => Ok((alg, model)),
        },
    }
}

/// Maps the queue's answer: a rejected offer is surfaced as 503.
pub fn admission_error(offer: OfferResult) -> (r: Option<HttpError>)
    ensures
        r == if offer == OfferResult::Rejected {
            Some(HttpError::ServiceUnavailable)
        } else {
            Option::<HttpError>::None
        },
{
    match offer {
        OfferResult::Rejected => Some(HttpError::ServiceUnavailable),
        OfferResult::Accepted => None,
    }
}

/// Classifies what a job's reply channel yielded: a closed channel is an
/// internal failure, a sentinel result a worker-side model/data fault,
/// anything else the completed reconstruction.
pub fn classify_reply(
    reply: Option<crate::types::ReconstructionResult>,
) -> (r: Result<crate::types::ReconstructionResult, HttpError>)
    ensures
        match reply {
            None => r == Result::<crate::types::ReconstructionResult, HttpError>::Err(
                HttpError::InternalError,
            ),
            Some(res) => if res.is_sentinel() {
                r == Result::<crate::types::ReconstructionResult, HttpError>::Err(
                    HttpError::BadRequest,
                )
            } else {
                r == Result::<crate::types::ReconstructionResult, HttpError>::Ok(res)
            },
        },
{
    match reply {
        None => Err(HttpError::InternalError),
        Some(res) => {
            if res.is_error_sentinel() {
                Err(HttpError::BadRequest)
            } else {
                Ok(res)
            }
        },
    }
}

} // verus!
