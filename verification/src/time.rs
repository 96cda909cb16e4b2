//! Wall-clock readings and timestamp arithmetic.
//!
//! Timestamps travel as milliseconds since the Unix epoch. Only the two
//! chrono calls are trusted: reading the clock (of which nothing is
//! promised) and rendering a timestamp as RFC-3339 text.

use vstd::prelude::*;

verus! {

/// Relies on `chrono::Utc::now` / `timestamp_millis`: the current wall-clock
/// time as milliseconds since the Unix epoch. Nothing is promised of the
/// value; in particular the clock may step backwards between two calls.
#[verifier::external_body]
pub fn now_millis() -> i64 {
    chrono::Utc::now().timestamp_millis()
}

/// The RFC-3339 rendering of a UTC timestamp given in milliseconds.
pub uninterp spec fn rfc3339_of(ms: i64) -> Seq<char>;

/// Relies on `chrono::DateTime::from_timestamp_millis` and `to_rfc3339`:
/// the RFC-3339 text of a UTC timestamp is a function of the timestamp
/// alone, and its characters come from the RFC-3339 grammar, which has
/// neither commas nor line breaks. A timestamp outside chrono's
/// representable range renders as the empty string.
#[verifier::external_body]
pub fn rfc3339_of_millis(ms: i64) -> (r: String)
    ensures
        r@ == rfc3339_of(ms),
        forall|k: int| 0 <= k < r@.len() ==> r@[k] != ',' && r@[k] != '\n',
{
    match chrono::DateTime::from_timestamp_millis(ms) {
        Some(t) => t.to_rfc3339(),
        None => String::new(),
    }
}

/// The signed millisecond span from `start` to `end`, clamped to `i64`.
pub open spec fn duration_ms(start: i64, end: i64) -> i64 {
    let d = end - start;
    if d > i64::MAX {
        i64::MAX
    } else if d < i64::MIN {
        i64::MIN
    } else {
        d as i64
    }
}

/// The signed millisecond difference of two timestamps.
pub fn elapsed_ms(start: i64, end: i64) -> (r: i64)
    ensures
        r == duration_ms(start, end),
{
    let wide = (end as i128) - (start as i128);
    if wide > (i64::MAX as i128) {
        i64::MAX
    } else if wide < (i64::MIN as i128) {
        i64::MIN
    } else {
        wide as i64
    }
}

/// Law: a job whose start does not lie after its end reports a
/// non-negative reconstruction time, namely their difference.
pub proof fn lemma_completed_job_times(start: i64, end: i64)
    requires
        start <= end,
    ensures
        duration_ms(start, end) >= 0,
        end - start <= i64::MAX ==> duration_ms(start, end) == end - start,
{
}

/// The whole seconds of a millisecond timestamp, rounded toward minus
/// infinity, as a calendar library reads it.
pub open spec fn unix_seconds_of(ms: i64) -> int {
    ms as int / 1000
}

/// Whole seconds of a millisecond timestamp.
pub fn unix_seconds(ms: i64) -> (r: i64)
    ensures
        r as int == unix_seconds_of(ms),
{
    let q = ms / 1000;
    let rem = ms % 1000;
    if rem < 0 {
        q - 1
    } else {
        q
    }
}

} // verus!
