//! The report log: the header rule and the CSV line of a completed job.
//!
//! The file itself is appended by the caller; this module fixes, to the
//! character, what is written.

use vstd::prelude::*;
use vstd::string::StringExecFns;
use crate::format::{
    dec_int_view, dec_view, i64_to_dec, lemma_dec_int_single_line, lemma_dec_single_line,
    lemma_single_line_concat, lemma_uuid_single_line, single_line, usize_to_dec, uuid_string,
    uuid_view,
};
use crate::time::{rfc3339_of, rfc3339_of_millis};
use crate::types::ReconstructionResult;

verus! {

/// The header line of the report file.
pub open spec fn report_header_view() -> Seq<char> {
    "user_id,algorithm_id,start_time,end_time,reconstruction_ms,image_pixels,iterations,image_filename"@
}

/// The header line of the report file.
pub fn report_header() -> (r: String)
    ensures
        r@ == report_header_view(),
{
    String::from_str(
        "user_id,algorithm_id,start_time,end_time,reconstruction_ms,image_pixels,iterations,image_filename",
    )
}

/// Whether the header must be written first: exactly when the file is
/// empty at open time.
pub fn needs_header(file_len: u64) -> (r: bool)
    ensures
        r == (file_len == 0),
{
    file_len == 0
}

/// The CSV line of one completed job, without its line terminator: the
/// user identity, the algorithm, both timestamps in RFC-3339, the signed
/// duration, the quoted `"(H,W)"` geometry, the iteration count and the
/// image file name.
pub open spec fn report_line_view(res: ReconstructionResult, image_filename: Seq<char>) -> Seq<
    char,
> {
    uuid_view(res.user_id) + ","@ + res.algorithm_id@ + ","@ + rfc3339_of(res.start_time) + ","@
        + rfc3339_of(res.end_time) + ","@ + dec_int_view(res.reconstruction_time_ms as int)
        + ",\"("@ + dec_view(res.image_pixels.0 as int) + ","@ + dec_view(
        res.image_pixels.1 as int,
    ) + ")\","@ + dec_view(res.iterations as int) + ","@ + image_filename
}

/// Law: report append — each completed job adds exactly one line. The
/// rendered entry holds no line break, given fields that hold none
/// themselves; the timestamps' RFC-3339 text never does.
pub proof fn lemma_report_line_single_line(res: ReconstructionResult, filename: Seq<char>)
    requires
        single_line(rfc3339_of(res.start_time)),
        single_line(rfc3339_of(res.end_time)),
        single_line(res.algorithm_id@),
        single_line(filename),
    ensures
        single_line(report_line_view(res, filename)),
{
    reveal_strlit(",");
    reveal_strlit(",\"(");
    reveal_strlit(")\",");
    lemma_uuid_single_line(res.user_id);
    lemma_dec_int_single_line(res.reconstruction_time_ms as int);
    lemma_dec_single_line(res.image_pixels.0 as int);
    lemma_dec_single_line(res.image_pixels.1 as int);
    lemma_dec_single_line(res.iterations as int);
    let p1 = uuid_view(res.user_id);
    lemma_single_line_concat(p1, ","@);
    let p2 = p1 + ","@;
    lemma_single_line_concat(p2, res.algorithm_id@);
    let p3 = p2 + res.algorithm_id@;
    lemma_single_line_concat(p3, ","@);
    let p4 = p3 + ","@;
    lemma_single_line_concat(p4, rfc3339_of(res.start_time));
    let p5 = p4 + rfc3339_of(res.start_time);
    lemma_single_line_concat(p5, ","@);
    let p6 = p5 + ","@;
    lemma_single_line_concat(p6, rfc3339_of(res.end_time));
    let p7 = p6 + rfc3339_of(res.end_time);
    lemma_single_line_concat(p7, ","@);
    let p8 = p7 + ","@;
    lemma_single_line_concat(p8, dec_int_view(res.reconstruction_time_ms as int));
    let p9 = p8 + dec_int_view(res.reconstruction_time_ms as int);
    lemma_single_line_concat(p9, ",\"("@);
    let p10 = p9 + ",\"("@;
    lemma_single_line_concat(p10, dec_view(res.image_pixels.0 as int));
    let p11 = p10 + dec_view(res.image_pixels.0 as int);
    lemma_single_line_concat(p11, ","@);
    let p12 = p11 + ","@;
    lemma_single_line_concat(p12, dec_view(res.image_pixels.1 as int));
    let p13 = p12 + dec_view(res.image_pixels.1 as int);
    lemma_single_line_concat(p13, ")\","@);
    let p14 = p13 + ")\","@;
    lemma_single_line_concat(p14, dec_view(res.iterations as int));
    let p15 = p14 + dec_view(res.iterations as int);
    lemma_single_line_concat(p15, ","@);
    let p16 = p15 + ","@;
    lemma_single_line_concat(p16, filename);
}

/// Renders the report line of a completed job; it spans a single line
/// whenever the algorithm name and the file name do.
pub fn format_report_line(res: &ReconstructionResult, image_filename: &String) -> (r: String)
    ensures
        r@ == report_line_view(*res, image_filename@),
        single_line(res.algorithm_id@) && single_line(image_filename@) ==> single_line(r@),
{
    let mut s = uuid_string(res.user_id);
    s.append(",");
    s.append(res.algorithm_id.as_str());
    s.append(",");
    s.append(rfc3339_of_millis(res.start_time).as_str());
    s.append(",");
    s.append(rfc3339_of_millis(res.end_time).as_str());
    s.append(",");
    s.append(i64_to_dec(res.reconstruction_time_ms).as_str());
    s.append(",\"(");
    s.append(usize_to_dec(res.image_pixels.0).as_str());
    s.append(",");
    s.append(usize_to_dec(res.image_pixels.1).as_str());
    s.append(")\",");
    s.append(usize_to_dec(res.iterations).as_str());
    s.append(",");
    s.append(image_filename.as_str());
    proof {
        assert(s@ =~= report_line_view(*res, image_filename@));
        if single_line(res.algorithm_id@) && single_line(image_filename@) {
            assert(single_line(rfc3339_of(res.start_time)));
            assert(single_line(rfc3339_of(res.end_time)));
            lemma_report_line_single_line(*res, image_filename@);
        }
    }
    s
}

} // verus!
