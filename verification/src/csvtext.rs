//! The textual grammar of the model and signal files.
//!
//! A file is lines separated by `\n`; empty lines carry nothing; a line is
//! fields separated by commas; a field is trimmed of ASCII whitespace and
//! read as a decimal double. The splitting and trimming are verified; only
//! the decimal-to-double conversion of a single trimmed field is trusted.

use vstd::prelude::*;
use rustc_apfloat::Float;

verus! {

/// Field separator.
pub const COMMA: u8 = 44;

/// Line separator.
pub const NEWLINE: u8 = 10;

/// ASCII whitespace as the field trimmer sees it: space, tab, carriage
/// return, line feed.
pub open spec fn is_ws(b: u8) -> bool {
    b == 32 || b == 9 || b == 13 || b == 10
}

/// Whether a byte is trimmable whitespace.
fn is_ws_byte(b: u8) -> (r: bool)
    ensures
        r == is_ws(b),
{
    b == 32 || b == 9 || b == 13 || b == 10
}

/// The bytes with leading whitespace removed.
pub open spec fn trim_front(s: Seq<u8>) -> Seq<u8>
    decreases s.len(),
{
    if s.len() > 0 && is_ws(s[0]) {
        trim_front(s.drop_first())
    } else {
        s
    }
}

/// The bytes with trailing whitespace removed.
pub open spec fn trim_back(s: Seq<u8>) -> Seq<u8>
    decreases s.len(),
{
    if s.len() > 0 && is_ws(s[s.len() - 1]) {
        trim_back(s.drop_last())
    } else {
        s
    }
}

/// The bytes with whitespace removed at both ends.
pub open spec fn trim_spec(s: Seq<u8>) -> Seq<u8> {
    trim_back(trim_front(s))
}

/// Splitting at a separator byte: every separator ends the piece before
/// it, so the result always holds one piece more than there are
/// separators.
pub open spec fn split_spec(s: Seq<u8>, sep: u8) -> Seq<Seq<u8>>
    decreases s.len(),
{
    if s.len() == 0 {
        seq![Seq::empty()]
    } else {
        let p = split_spec(s.drop_last(), sep);
        if s.last() == sep {
            p.push(Seq::empty())
        } else {
            p.update(p.len() - 1, p.last().push(s.last()))
        }
    }
}

/// The views of a vector of byte vectors.
pub open spec fn views_of(vs: Seq<Vec<u8>>) -> Seq<Seq<u8>> {
    vs.map_values(|v: Vec<u8>| v@)
}

/// Splits a byte vector at every occurrence of `sep`.
pub fn split_bytes(s: &Vec<u8>, sep: u8) -> (out: Vec<Vec<u8>>)
    ensures
        views_of(out@) == split_spec(s@, sep),
        out@.len() >= 1,
{
    let mut done: Vec<Vec<u8>> = Vec::new();
    let mut cur: Vec<u8> = Vec::new();
    let mut i: usize = 0;
    while i < s.len()
        invariant
            i <= s@.len(),
            split_spec(s@.take(i as int), sep) == views_of(done@).push(cur@),
        decreases s@.len() - i,
    {
        let b = s[i];
        proof {
            assert(s@.take(i as int + 1).drop_last() =~= s@.take(i as int));
            assert(s@.take(i as int + 1).last() == s@[i as int]);
        }
        if b == sep {
            let ghost cur_view = cur@;
            done.push(cur);
            cur = Vec::new();
            proof {
                assert(views_of(done@).push(cur@) =~= split_spec(s@.take(i as int), sep).push(
                    Seq::empty(),
                ));
            }
        } else {
            let ghost p = views_of(done@).push(cur@);
            cur.push(b);
            proof {
                assert(views_of(done@).push(cur@) =~= p.update(
                    p.len() - 1,
                    p.last().push(s@[i as int]),
                ));
            }
        }
        i = i + 1;
    }
    proof {
        assert(s@.take(s@.len() as int) =~= s@);
    }
    let ghost final_views = views_of(done@).push(cur@);
    done.push(cur);
    proof {
        assert(views_of(done@) =~= final_views);
    }
    done
}

/// Trims ASCII whitespace from both ends of a field.
pub fn trim_bytes(f: &Vec<u8>) -> (out: Vec<u8>)
    ensures
        out@ == trim_spec(f@),
{
    proof {
        assert(f@.skip(0) =~= f@);
    }
    let mut start: usize = 0;
    while start < f.len() && is_ws_byte(f[start])
        invariant
            start <= f@.len(),
            trim_front(f@) == trim_front(f@.skip(start as int)),
        decreases f@.len() - start,
    {
        proof {
            assert(f@.skip(start as int).drop_first() =~= f@.skip(start as int + 1));
        }
        start = start + 1;
    }
    proof {
        assert(trim_front(f@) == f@.skip(start as int));
    }
    let mut end: usize = f.len();
    while end > start && is_ws_byte(f[end - 1])
        invariant
            start <= end <= f@.len(),
            trim_front(f@) == f@.skip(start as int),
            trim_back(f@.skip(start as int)) == trim_back(f@.subrange(start as int, end as int)),
        decreases end,
    {
        proof {
            assert(f@.subrange(start as int, end as int).drop_last() =~= f@.subrange(
                start as int,
                end as int - 1,
            ));
        }
        end = end - 1;
    }
    proof {
        assert(trim_back(f@.subrange(start as int, end as int)) == f@.subrange(
            start as int,
            end as int,
        ));
    }
    let mut out: Vec<u8> = Vec::new();
    let mut k: usize = start;
    while k < end
        invariant
            start <= k <= end <= f@.len(),
            out@ == f@.subrange(start as int, k as int),
        decreases end - k,
    {
        out.push(f[k]);
        proof {
            assert(f@.subrange(start as int, k as int + 1) =~= f@.subrange(
                start as int,
                k as int,
            ).push(f@[k as int]));
        }
        k = k + 1;
    }
    out
}

/// The double encoded by a trimmed text field, if the text is a float
/// literal; the field's bytes alone decide the outcome.
pub uninterp spec fn f64_of_text(s: Seq<u8>) -> Option<u64>;

/// Relies on `rustc_apfloat::ieee::Double`'s `FromStr`: the correctly
/// rounded conversion of a decimal (or hexadecimal) float literal to an
/// IEEE-754 double, a pure function of the text; anything else, including
/// text that is not UTF-8, is rejected with `None`.
#[verifier::external_body]
fn parse_f64_text(b: &Vec<u8>) -> (r: Option<u64>)
    ensures
        r == f64_of_text(b@),
{
    match core::str::from_utf8(b.as_slice()) {
        Ok(t) => match t.parse::<rustc_apfloat::ieee::Double>() {
            Ok(v) => Some(v.to_bits() as u64),
            Err(_) => None,
        },
        Err(_) => None,
    }
}

/// The value a raw field carries: trim, then read as a double.
pub open spec fn field_value(f: Seq<u8>) -> Option<u64> {
    f64_of_text(trim_spec(f))
}

/// Reads one raw field.
pub fn parse_field(f: &Vec<u8>) -> (r: Option<u64>)
    ensures
        r == field_value(f@),
{
    let t = trim_bytes(f);
    parse_f64_text(&t)
}

/// The values of a row's fields, in order; `None` as soon as any field is
/// unreadable.
pub open spec fn fields_values(fields: Seq<Seq<u8>>) -> Option<Seq<u64>>
    decreases fields.len(),
{
    if fields.len() == 0 {
        Some(Seq::empty())
    } else {
        match (fields_values(fields.drop_last()), field_value(fields.last())) {
            (Some(vs), Some(v)) => Some(vs.push(v)),
            _ => None,
        }
    }
}

/// One unreadable field spoils the whole row.
proof fn lemma_fields_values_none(fields: Seq<Seq<u8>>, k: int)
    requires
        0 <= k < fields.len(),
        field_value(fields[k]) is None,
    ensures
        fields_values(fields) is None,
    decreases fields.len(),
{
    if k < fields.len() - 1 {
        lemma_fields_values_none(fields.drop_last(), k);
    }
}

/// The values of a file's lines, flattened in order: empty lines carry
/// nothing; `None` as soon as any line has an unreadable field.
pub open spec fn lines_values(lines: Seq<Seq<u8>>) -> Option<Seq<u64>>
    decreases lines.len(),
{
    if lines.len() == 0 {
        Some(Seq::empty())
    } else {
        let pre = lines_values(lines.drop_last());
        let ln = lines.last();
        if ln.len() == 0 {
            pre
        } else {
            match (pre, fields_values(split_spec(ln, COMMA))) {
                (Some(vs), Some(fs)) => Some(vs + fs),
                _ => None,
            }
        }
    }
}

/// One spoiled line spoils the whole file.
proof fn lemma_lines_values_none(lines: Seq<Seq<u8>>, k: int)
    requires
        0 <= k < lines.len(),
        lines[k].len() != 0,
        fields_values(split_spec(lines[k], COMMA)) is None,
    ensures
        lines_values(lines) is None,
    decreases lines.len(),
{
    if k < lines.len() - 1 {
        lemma_lines_values_none(lines.drop_last(), k);
    }
}

/// Every double in the file, row-major: all fields of all non-empty
/// lines.
pub open spec fn csv_values(text: Seq<u8>) -> Option<Seq<u64>> {
    lines_values(split_spec(text, NEWLINE))
}

/// Reads a whole file of comma-separated doubles, flattened row-major.
#[verifier::loop_isolation(false)]
pub fn parse_csv_doubles(text: &Vec<u8>) -> (r: Option<Vec<u64>>)
    ensures
        match r {
            Some(vs) => csv_values(text@) == Some(vs@),
            None => csv_values(text@) is None,
        },
{
    let lines = split_bytes(text, NEWLINE);
    let ghost lviews = views_of(lines@);
    let mut out: Vec<u64> = Vec::new();
    let mut li: usize = 0;
    while li < lines.len()
        invariant
            li <= lines@.len(),
            lviews == views_of(lines@),
            lines_values(lviews.take(li as int)) == Some(out@),
        decreases lines@.len() - li,
    {
        let line = &lines[li];
        proof {
            assert(lviews.take(li as int + 1).drop_last() =~= lviews.take(li as int));
            assert(lviews.take(li as int + 1).last() == line@);
        }
        if line.len() > 0 {
            let fields = split_bytes(line, COMMA);
            let ghost fviews = views_of(fields@);
            let ghost pre = out@;
            proof {
                assert(lviews[li as int] == line@);
                assert(out@.take(pre.len() as int) =~= pre);
                assert(out@.skip(pre.len() as int) =~= Seq::<u64>::empty());
                assert(fviews.take(0) =~= Seq::<Seq<u8>>::empty());
            }
            let mut fi: usize = 0;
            while fi < fields.len()
                invariant
                    fi <= fields@.len(),
                    fviews == views_of(fields@),
                    out@.len() >= pre.len(),
                    out@.take(pre.len() as int) == pre,
                    fields_values(fviews.take(fi as int)) == Some(
                        out@.skip(pre.len() as int),
                    ),
                decreases fields@.len() - fi,
            {
                proof {
                    assert(fviews.take(fi as int + 1).drop_last() =~= fviews.take(fi as int));
                    assert(fviews.take(fi as int + 1).last() == fviews[fi as int]);
                }
                match parse_field(&fields[fi]) {
                    Some(v) => {
                        let ghost out_old = out@;
                        out.push(v);
                        proof {
                            assert(out@.take(pre.len() as int) =~= pre);
                            assert(out@.skip(pre.len() as int) =~= out_old.skip(
                                pre.len() as int,
                            ).push(v));
                        }
                    },
                    None => {
                        proof {
                            assert(fviews[fi as int] == fields@[fi as int]@);
                            lemma_fields_values_none(fviews, fi as int);
                            assert(lviews.len() == lines@.len());
                            assert(lviews[li as int].len() != 0);
                            lemma_lines_values_none(lviews, li as int);
                        }
                        return None;
                    },
                }
                fi = fi + 1;
            }
            proof {
                assert(fviews.take(fields@.len() as int) =~= fviews);
                assert(out@ =~= pre + out@.skip(pre.len() as int));
            }
        }
        li = li + 1;
    }
    proof {
        assert(lviews.take(lines@.len() as int) =~= lviews);
    }
    Some(out)
}

/// The first field of every non-empty line: how a one-column signal file
/// is read.
pub open spec fn lines_first_values(lines: Seq<Seq<u8>>) -> Option<Seq<u64>>
    decreases lines.len(),
{
    if lines.len() == 0 {
        Some(Seq::empty())
    } else {
        let pre = lines_first_values(lines.drop_last());
        let ln = lines.last();
        if ln.len() == 0 {
            pre
        } else {
            match (pre, field_value(split_spec(ln, COMMA)[0])) {
                (Some(vs), Some(v)) => Some(vs.push(v)),
                _ => None,
            }
        }
    }
}

/// A spoiled leading field spoils the whole signal file.
proof fn lemma_lines_first_values_none(lines: Seq<Seq<u8>>, k: int)
    requires
        0 <= k < lines.len(),
        lines[k].len() != 0,
        field_value(split_spec(lines[k], COMMA)[0]) is None,
    ensures
        lines_first_values(lines) is None,
    decreases lines.len(),
{
    if k < lines.len() - 1 {
        lemma_lines_first_values_none(lines.drop_last(), k);
    }
}

/// The signal samples of a one-column file: the first field of each
/// non-empty line.
pub open spec fn g_values(text: Seq<u8>) -> Option<Seq<u64>> {
    lines_first_values(split_spec(text, NEWLINE))
}

/// Reads a signal vector: the first field of every non-empty line.
#[verifier::loop_isolation(false)]
pub fn parse_g_vector(text: &Vec<u8>) -> (r: Option<Vec<u64>>)
    ensures
        match r {
            Some(vs) => g_values(text@) == Some(vs@),
            None => g_values(text@) is None,
        },
{
    let lines = split_bytes(text, NEWLINE);
    let ghost lviews = views_of(lines@);
    let mut out: Vec<u64> = Vec::new();
    let mut li: usize = 0;
    while li < lines.len()
        invariant
            li <= lines@.len(),
            lviews == views_of(lines@),
            lines_first_values(lviews.take(li as int)) == Some(out@),
        decreases lines@.len() - li,
    {
        let line = &lines[li];
        proof {
            assert(lviews.take(li as int + 1).drop_last() =~= lviews.take(li as int));
            assert(lviews.take(li as int + 1).last() == line@);
        }
        if line.len() > 0 {
            let fields = split_bytes(line, COMMA);
            proof {
                assert(lviews[li as int] == line@);
                assert(views_of(fields@)[0] == fields@[0]@);
            }
            match parse_field(&fields[0]) {
                Some(v) => {
                    out.push(v);
                },
                None => {
                    proof {
                        assert(lviews.len() == lines@.len());
                        assert(lviews[li as int].len() != 0);
                        lemma_lines_first_values_none(lviews, li as int);
                    }
                    return None;
                },
            }
        }
        li = li + 1;
    }
    proof {
        assert(lviews.take(lines@.len() as int) =~= lviews);
    }
    Some(out)
}

} // verus!
