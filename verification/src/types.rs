//! The request, result and status records of the reconstruction service.
//!
//! Signal and image samples are IEEE-754 double bits (`u64`); the user
//! identity is the 128-bit value of its UUID; timestamps are milliseconds
//! since the Unix epoch; the CPU percentage of a status snapshot is the
//! raw bits of an IEEE-754 single.

use vstd::prelude::*;
use vstd::arithmetic::div_mod::lemma_div_is_ordered;
use vstd::string::StringExecFns;
use crate::time::now_millis;

verus! {

/// A reconstruction request as the orchestrator receives it.
pub struct ReconstructionRequest {
    /// 128-bit user identity.
    pub user_id: u128,
    /// Requested model, e.g. "30x30".
    pub model_id: String,
    /// Requested algorithm, "CGNR" or "CGNE".
    pub algorithm_id: String,
    /// Measured signal, one double per sample, as bits.
    pub g: Vec<u64>,
}

/// The outcome of a reconstruction job.
pub struct ReconstructionResult {
    /// 128-bit user identity.
    pub user_id: u128,
    /// The algorithm that ran.
    pub algorithm_id: String,
    /// Wall-clock start, milliseconds since the Unix epoch.
    pub start_time: i64,
    /// Wall-clock end, milliseconds since the Unix epoch.
    pub end_time: i64,
    /// Signed millisecond duration.
    pub reconstruction_time_ms: i64,
    /// Image height and width.
    pub image_pixels: (usize, usize),
    /// Iterations the solver performed.
    pub iterations: usize,
    /// Reconstructed image, one double per pixel, as bits.
    pub f: Vec<u64>,
}

impl ReconstructionResult {
    /// An in-band error: no iterations, no duration, an empty image.
    pub open spec fn is_sentinel(self) -> bool {
        self.iterations == 0 && self.reconstruction_time_ms == 0 && self.f@.len() == 0
    }

    /// The sentinel result a worker sends when a job fails before the
    /// solver produced anything.
    pub fn new_error(user_id: u128, algorithm_id: String) -> (r: ReconstructionResult)
        ensures
            r.is_sentinel(),
            r.user_id == user_id,
            r.algorithm_id == algorithm_id,
            r.start_time == r.end_time,
            r.image_pixels.0 == 0 && r.image_pixels.1 == 0,
    {
        let now = now_millis();
        ReconstructionResult {
            user_id,
            algorithm_id,
            start_time: now,
            end_time: now,
            reconstruction_time_ms: 0,
            image_pixels: (0, 0),
            iterations: 0,
            f: Vec::new(),
        }
    }

    /// Whether this result is the in-band error sentinel.
    pub fn is_error_sentinel(&self) -> (r: bool)
        ensures
            r == self.is_sentinel(),
    {
        self.iterations == 0 && self.reconstruction_time_ms == 0 && self.f.len() == 0
    }
}

impl Default for ReconstructionResult {
    /// A blank sentinel result carrying the nil user and the marker
    /// algorithm id "ERROR".
    fn default() -> (r: Self)
        ensures
            r.is_sentinel(),
            r.user_id == 0,
            r.algorithm_id@ == "ERROR"@,
            r.start_time == r.end_time,
            r.image_pixels.0 == 0 && r.image_pixels.1 == 0,
    {
        let now = now_millis();
        ReconstructionResult {
            user_id: 0,
            algorithm_id: String::from_str("ERROR"),
            start_time: now,
            end_time: now,
            reconstruction_time_ms: 0,
            image_pixels: (0, 0),
            iterations: 0,
            f: Vec::new(),
        }
    }
}

/// A coarse snapshot of host CPU and memory usage.
pub struct ServerStatus {
    /// Global CPU usage percentage, as the bits of an IEEE-754 single.
    pub cpu_usage: u32,
    /// Used memory, in whole mebibytes.
    pub memory_usage_mb: u64,
    /// Total memory, in whole mebibytes.
    pub total_memory_mb: u64,
}

/// Builds the status snapshot from raw probe readings: byte counts are
/// reported in whole mebibytes.
pub fn build_status(cpu_bits: u32, used_bytes: u64, total_bytes: u64) -> (st: ServerStatus)
    ensures
        st.cpu_usage == cpu_bits,
        st.memory_usage_mb == used_bytes as int / 1024 / 1024,
        st.total_memory_mb == total_bytes as int / 1024 / 1024,
{
    ServerStatus {
        cpu_usage: cpu_bits,
        memory_usage_mb: used_bytes / 1024 / 1024,
        total_memory_mb: total_bytes / 1024 / 1024,
    }
}

/// Law: a snapshot taken from a probe that reports no more used than
/// total bytes shows no more used than total mebibytes.
pub proof fn lemma_status_memory_bounded(cpu_bits: u32, used_bytes: u64, total_bytes: u64)
    requires
        used_bytes <= total_bytes,
    ensures
        used_bytes as int / 1024 / 1024 <= total_bytes as int / 1024 / 1024,
{
    lemma_div_is_ordered(used_bytes as int, total_bytes as int, 1024);
    lemma_div_is_ordered(used_bytes as int / 1024, total_bytes as int / 1024, 1024);
}

} // verus!
