//! Verified construction of the small pieces of text the daemon reports:
//! decimal numbers, zero-padded clock fields, and `HH:MM:SS` renderings.

use vstd::prelude::*;

verus! {

/// Relies on `String::push` from std: "Appends the given char to the end of
/// this String."
pub assume_specification[ String::push ](s: &mut String, c: char)
    ensures
        final(s)@ == old(s)@.push(c),
;

/// Relies on `PartialEq for str` from std: two string slices are equal
/// exactly when they hold the same text.
#[verifier::external_body]
pub fn str_equal(a: &str, b: &str) -> (r: bool)
    ensures
        r == (a@ == b@),
{
    a == b
}

/// The character for one decimal digit.
pub open spec fn digit_char(d: nat) -> char {
    ((48 + d) as u8) as char
}

/// The decimal digits of `n`, most significant first, no leading zeros
/// (a single `'0'` for zero).
pub open spec fn decimal_digits(n: nat) -> Seq<char>
    decreases n,
{
    if n < 10 {
        seq![digit_char(n)]
    } else {
        decimal_digits(n / 10).push(digit_char(n % 10))
    }
}

/// Appends the decimal rendering of `n` to `s`.
pub fn append_decimal(s: &mut String, n: u64)
    ensures
        final(s)@ == old(s)@ + decimal_digits(n as nat),
    decreases n,
{
    if n >= 10 {
        append_decimal(s, n / 10);
    }
    let d: u8 = (n % 10) as u8;
    s.push((48 + d) as char);
    proof {
        assert(final(s)@ =~= old(s)@ + decimal_digits(n as nat));
    }
}

/// The decimal rendering of `n`, left-padded with `'0'` to at least two
/// characters.
pub open spec fn padded_two(n: nat) -> Seq<char> {
    if n < 10 {
        seq!['0'] + decimal_digits(n)
    } else {
        decimal_digits(n)
    }
}

/// Appends the two-character zero-padded rendering of `n` to `s`.
pub fn append_padded_two(s: &mut String, n: u64)
    ensures
        final(s)@ == old(s)@ + padded_two(n as nat),
{
    if n < 10 {
        s.push('0');
    }
    append_decimal(s, n);
    proof {
        assert(final(s)@ =~= old(s)@ + padded_two(n as nat));
    }
}

/// `HH:MM:SS` with each field zero-padded to at least two characters.
pub open spec fn hms_text(h: nat, m: nat, s: nat) -> Seq<char> {
    padded_two(h) + seq![':'] + padded_two(m) + seq![':'] + padded_two(s)
}

/// Appends `HH:MM:SS` built from the three fields to `out`.
pub fn append_hms(out: &mut String, h: u64, m: u64, s: u64)
    ensures
        final(out)@ == old(out)@ + hms_text(h as nat, m as nat, s as nat),
{
    append_padded_two(out, h);
    out.push(':');
    append_padded_two(out, m);
    out.push(':');
    append_padded_two(out, s);
    proof {
        assert(final(out)@ =~= old(out)@ + hms_text(h as nat, m as nat, s as nat));
    }
}

/// The wall-clock time of day of the epoch timestamp `t`, as `HH:MM:SS`.
pub open spec fn time_of_day_text(t: nat) -> Seq<char> {
    hms_text((t % 86400) / 3600, (t % 3600) / 60, t % 60)
}

/// Appends the time of day of the epoch timestamp `t` to `out`.
pub fn append_time_of_day(out: &mut String, t: u64)
    ensures
        final(out)@ == old(out)@ + time_of_day_text(t as nat),
{
    append_hms(out, (t % 86400) / 3600, (t % 3600) / 60, t % 60);
}

/// An elapsed duration in seconds rendered as `HH:MM:SS`; the hour field
/// grows beyond two characters when the duration asks for it.
pub open spec fn duration_text(e: nat) -> Seq<char> {
    hms_text(e / 3600, (e % 3600) / 60, e % 60)
}

/// Appends the rendering of the elapsed duration `e` to `out`.
pub fn append_duration(out: &mut String, e: u64)
    ensures
        final(out)@ == old(out)@ + duration_text(e as nat),
{
    append_hms(out, e / 3600, (e % 3600) / 60, e % 60);
}

/// The decimal rendering of a signed number: a minus sign for a negative
/// value, then the digits of its magnitude.
pub open spec fn signed_text(n: int) -> Seq<char> {
    if n < 0 {
        seq!['-'] + decimal_digits((-n) as nat)
    } else {
        decimal_digits(n as nat)
    }
}

/// Appends the decimal rendering of the signed number `n` to `s`.
pub fn append_signed(s: &mut String, n: i32)
    ensures
        final(s)@ == old(s)@ + signed_text(n as int),
{
    if n < 0 {
        s.push('-');
        let magnitude: u64 = (-(n as i64)) as u64;
        append_decimal(s, magnitude);
        proof {
            assert(final(s)@ =~= old(s)@ + signed_text(n as int));
        }
    } else {
        append_decimal(s, n as u64);
    }
}

/// One character of text, escaped where a quoted rendering demands it:
/// a backslash is put before a double quote or a backslash.
pub open spec fn escaped_char(c: char) -> Seq<char> {
    if c == '"' || c == '\\' {
        seq!['\\', c]
    } else {
        seq![c]
    }
}

/// A piece of text with every character escaped.
pub open spec fn escaped_text(s: Seq<char>) -> Seq<char>
    decreases s.len(),
{
    if s.len() == 0 {
        Seq::empty()
    } else {
        escaped_text(s.drop_last()) + escaped_char(s.last())
    }
}

/// The quoted rendering of a piece of text: double quotes around the
/// escaped characters.
pub open spec fn quoted_text(s: Seq<char>) -> Seq<char> {
    seq!['"'] + escaped_text(s) + seq!['"']
}

/// Appends the quoted rendering of `t` to `s`.
pub fn append_quoted(s: &mut String, t: &str)
    ensures
        final(s)@ == old(s)@ + quoted_text(t@),
{
    s.push('"');
    let n = t.unicode_len();
    let mut i: usize = 0;
    while i < n
        invariant
            i <= n,
            n as nat == t@.len(),
            s@ == old(s)@ + seq!['"'] + escaped_text(t@.take(i as int)),
        decreases n - i,
    {
        let c = t.get_char(i);
        if c == '"' || c == '\\' {
            s.push('\\');
        }
        s.push(c);
        proof {
            assert(t@.take(i as int + 1).drop_last() =~= t@.take(i as int));
            assert(t@.take(i as int + 1).last() == t@[i as int]);
            assert(s@ =~= old(s)@ + seq!['"'] + escaped_text(t@.take(i as int + 1)));
        }
        i = i + 1;
    }
    s.push('"');
    proof {
        assert(t@.take(n as int) =~= t@);
        assert(final(s)@ =~= old(s)@ + quoted_text(t@));
    }
}

} // verus!
