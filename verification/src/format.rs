//! Verified rendering of numbers and identifiers as text: decimal
//! integers, and the hyphenated lowercase hexadecimal form of a 128-bit
//! user identity.

use vstd::prelude::*;
use vstd::string::StringExecFns;

verus! {

/// The text of one decimal digit.
pub open spec fn digit_view(d: int) -> Seq<char> {
    if d == 0 {
        "0"@
    } else if d == 1 {
        "1"@
    } else if d == 2 {
        "2"@
    } else if d == 3 {
        "3"@
    } else if d == 4 {
        "4"@
    } else if d == 5 {
        "5"@
    } else if d == 6 {
        "6"@
    } else if d == 7 {
        "7"@
    } else if d == 8 {
        "8"@
    } else {
        "9"@
    }
}

/// The decimal text of a non-negative number: most significant digit
/// first, no leading zeros (a single zero for zero).
pub open spec fn dec_view(n: int) -> Seq<char>
    decreases n,
{
    if n < 10 {
        digit_view(n)
    } else {
        dec_view(n / 10) + digit_view(n % 10)
    }
}

/// The decimal text of a signed number: a leading minus for negatives.
pub open spec fn dec_int_view(v: int) -> Seq<char> {
    if v < 0 {
        "-"@ + dec_view(-v)
    } else {
        dec_view(v)
    }
}

/// Appends one decimal digit.
fn append_digit(s: &mut String, d: u64)
    requires
        d < 10,
    ensures
        final(s)@ == old(s)@ + digit_view(d as int),
{
    if d == 0 {
        s.append("0");
    } else if d == 1 {
        s.append("1");
    } else if d == 2 {
        s.append("2");
    } else if d == 3 {
        s.append("3");
    } else if d == 4 {
        s.append("4");
    } else if d == 5 {
        s.append("5");
    } else if d == 6 {
        s.append("6");
    } else if d == 7 {
        s.append("7");
    } else if d == 8 {
        s.append("8");
    } else {
        s.append("9");
    }
}

/// Appends the decimal text of a non-negative number.
fn append_dec(s: &mut String, n: u64)
    ensures
        final(s)@ == old(s)@ + dec_view(n as int),
    decreases n,
{
    if n < 10 {
        append_digit(s, n);
    } else {
        append_dec(s, n / 10);
        append_digit(s, n % 10);
        proof {
            assert(old(s)@ + dec_view(n as int / 10) + digit_view(n as int % 10) =~= old(s)@
                + dec_view(n as int));
        }
    }
}

/// The decimal text of an unsigned number.
pub fn u64_to_dec(n: u64) -> (r: String)
    ensures
        r@ == dec_view(n as int),
{
    let mut s = String::new();
    append_dec(&mut s, n);
    proof {
        assert(Seq::<char>::empty() + dec_view(n as int) =~= dec_view(n as int));
    }
    s
}

/// The decimal text of a signed number.
pub fn i64_to_dec(v: i64) -> (r: String)
    ensures
        r@ == dec_int_view(v as int),
{
    if v < 0 {
        let mag: u64 = (-(v as i128)) as u64;
        let mut s = String::from_str("-");
        append_dec(&mut s, mag);
        s
    } else {
        u64_to_dec(v as u64)
    }
}

/// The decimal text of a length.
pub fn usize_to_dec(n: usize) -> (r: String)
    ensures
        r@ == dec_view(n as int),
{
    u64_to_dec(n as u64)
}

/// The text of one lowercase hexadecimal digit.
pub open spec fn hex_digit_view(d: int) -> Seq<char> {
    if d < 10 {
        digit_view(d)
    } else if d == 10 {
        "a"@
    } else if d == 11 {
        "b"@
    } else if d == 12 {
        "c"@
    } else if d == 13 {
        "d"@
    } else if d == 14 {
        "e"@
    } else {
        "f"@
    }
}

/// Nibble `i` of a 128-bit value, counting from the most significant.
pub open spec fn nibble(u: u128, i: int) -> int {
    ((u >> (((31 - i) * 4) as u128)) & 0xF) as int
}

/// The hex text of nibbles `start .. start + len`.
pub open spec fn hex_span_view(u: u128, start: int, len: nat) -> Seq<char>
    decreases len,
{
    if len == 0 {
        Seq::empty()
    } else {
        hex_span_view(u, start, (len - 1) as nat) + hex_digit_view(nibble(u, start + len - 1))
    }
}

/// Appends one lowercase hexadecimal digit.
fn append_hex_digit(s: &mut String, d: u64)
    requires
        d < 16,
    ensures
        final(s)@ == old(s)@ + hex_digit_view(d as int),
{
    if d < 10 {
        append_digit(s, d);
    } else if d == 10 {
        s.append("a");
    } else if d == 11 {
        s.append("b");
    } else if d == 12 {
        s.append("c");
    } else if d == 13 {
        s.append("d");
    } else if d == 14 {
        s.append("e");
    } else {
        s.append("f");
    }
}

/// Appends the hex text of a run of nibbles.
fn append_hex_span(s: &mut String, u: u128, start: usize, len: usize)
    requires
        start + len <= 32,
    ensures
        final(s)@ == old(s)@ + hex_span_view(u, start as int, len as nat),
{
    let mut t: usize = 0;
    while t < len
        invariant
            t <= len,
            start + len <= 32,
            s@ == old(s)@ + hex_span_view(u, start as int, t as nat),
        decreases len - t,
    {
        let i = start + t;
        let sh: u32 = ((31 - i) as u32) * 4;
        let d: u64 = ((u >> sh) & 0xF) as u64;
        proof {
            assert((u >> (((31 - i as int) * 4) as u128)) & 0xF == (u >> sh) & 0xF);
            assert((u >> sh) & 0xF < 16) by (bit_vector);
        }
        append_hex_digit(s, d);
        t = t + 1;
    }
}

/// The hyphenated lowercase hexadecimal form of a 128-bit user identity:
/// nibble groups of 8, 4, 4, 4 and 12.
pub open spec fn uuid_view(u: u128) -> Seq<char> {
    hex_span_view(u, 0, 8) + "-"@ + hex_span_view(u, 8, 4) + "-"@ + hex_span_view(u, 12, 4)
        + "-"@ + hex_span_view(u, 16, 4) + "-"@ + hex_span_view(u, 20, 12)
}

/// Text that stays on one line: it holds no line break.
pub open spec fn single_line(s: Seq<char>) -> bool {
    forall|k: int| 0 <= k < s.len() ==> s[k] != '\n'
}

/// Joining one-line texts yields a one-line text.
pub proof fn lemma_single_line_concat(a: Seq<char>, b: Seq<char>)
    requires
        single_line(a),
        single_line(b),
    ensures
        single_line(a + b),
{
    assert forall|k: int| 0 <= k < (a + b).len() implies (a + b)[k] != '\n' by {
        if k < a.len() {
            assert((a + b)[k] == a[k]);
        } else {
            assert((a + b)[k] == b[k - a.len()]);
        }
    }
}

/// A decimal digit is one line.
pub proof fn lemma_digit_single_line(d: int)
    ensures
        single_line(digit_view(d)),
{
    reveal_strlit("0");
    reveal_strlit("1");
    reveal_strlit("2");
    reveal_strlit("3");
    reveal_strlit("4");
    reveal_strlit("5");
    reveal_strlit("6");
    reveal_strlit("7");
    reveal_strlit("8");
    reveal_strlit("9");
}

/// Decimal text is one line.
pub proof fn lemma_dec_single_line(n: int)
    ensures
        single_line(dec_view(n)),
    decreases n,
{
    if n < 10 {
        lemma_digit_single_line(n);
    } else {
        lemma_dec_single_line(n / 10);
        lemma_digit_single_line(n % 10);
        lemma_single_line_concat(dec_view(n / 10), digit_view(n % 10));
    }
}

/// Signed decimal text is one line.
pub proof fn lemma_dec_int_single_line(v: int)
    ensures
        single_line(dec_int_view(v)),
{
    if v < 0 {
        reveal_strlit("-");
        lemma_dec_single_line(-v);
        lemma_single_line_concat("-"@, dec_view(-v));
    } else {
        lemma_dec_single_line(v);
    }
}

/// A hexadecimal digit is one line.
pub proof fn lemma_hex_digit_single_line(d: int)
    ensures
        single_line(hex_digit_view(d)),
{
    if d < 10 {
        lemma_digit_single_line(d);
    } else {
        reveal_strlit("a");
        reveal_strlit("b");
        reveal_strlit("c");
        reveal_strlit("d");
        reveal_strlit("e");
        reveal_strlit("f");
    }
}

/// A run of hexadecimal digits is one line.
pub proof fn lemma_hex_span_single_line(u: u128, start: int, len: nat)
    ensures
        single_line(hex_span_view(u, start, len)),
    decreases len,
{
    if len == 0 {
    } else {
        lemma_hex_span_single_line(u, start, (len - 1) as nat);
        lemma_hex_digit_single_line(nibble(u, start + len - 1));
        lemma_single_line_concat(
            hex_span_view(u, start, (len - 1) as nat),
            hex_digit_view(nibble(u, start + len - 1)),
        );
    }
}

/// The hyphenated identity is one line.
pub proof fn lemma_uuid_single_line(u: u128)
    ensures
        single_line(uuid_view(u)),
{
    reveal_strlit("-");
    lemma_hex_span_single_line(u, 0, 8);
    lemma_hex_span_single_line(u, 8, 4);
    lemma_hex_span_single_line(u, 12, 4);
    lemma_hex_span_single_line(u, 16, 4);
    lemma_hex_span_single_line(u, 20, 12);
    lemma_single_line_concat(hex_span_view(u, 0, 8), "-"@);
    lemma_single_line_concat(hex_span_view(u, 0, 8) + "-"@, hex_span_view(u, 8, 4));
    lemma_single_line_concat(hex_span_view(u, 0, 8) + "-"@ + hex_span_view(u, 8, 4), "-"@);
    lemma_single_line_concat(
        hex_span_view(u, 0, 8) + "-"@ + hex_span_view(u, 8, 4) + "-"@,
        hex_span_view(u, 12, 4),
    );
    lemma_single_line_concat(
        hex_span_view(u, 0, 8) + "-"@ + hex_span_view(u, 8, 4) + "-"@ + hex_span_view(u, 12, 4),
        "-"@,
    );
    lemma_single_line_concat(
        hex_span_view(u, 0, 8) + "-"@ + hex_span_view(u, 8, 4) + "-"@ + hex_span_view(u, 12, 4)
            + "-"@,
        hex_span_view(u, 16, 4),
    );
    lemma_single_line_concat(
        hex_span_view(u, 0, 8) + "-"@ + hex_span_view(u, 8, 4) + "-"@ + hex_span_view(u, 12, 4)
            + "-"@ + hex_span_view(u, 16, 4),
        "-"@,
    );
    lemma_single_line_concat(
        hex_span_view(u, 0, 8) + "-"@ + hex_span_view(u, 8, 4) + "-"@ + hex_span_view(u, 12, 4)
            + "-"@ + hex_span_view(u, 16, 4) + "-"@,
        hex_span_view(u, 20, 12),
    );
}

/// Renders a 128-bit user identity in its hyphenated hexadecimal form.
pub fn uuid_string(u: u128) -> (r: String)
    ensures
        r@ == uuid_view(u),
{
    let mut s = String::new();
    append_hex_span(&mut s, u, 0, 8);
    s.append("-");
    append_hex_span(&mut s, u, 8, 4);
    s.append("-");
    append_hex_span(&mut s, u, 12, 4);
    s.append("-");
    append_hex_span(&mut s, u, 16, 4);
    s.append("-");
    append_hex_span(&mut s, u, 20, 12);
    proof {
        assert(s@ =~= uuid_view(u));
    }
    s
}

} // verus!
