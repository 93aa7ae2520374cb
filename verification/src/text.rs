//! Small text-building helpers: appending single characters and decimal
//! numbers to a string, and the humanized form of a duration.

use vstd::prelude::*;

use crate::model::SessionDuration;

verus! {

/// Appends one character. Relies on std's `String::push`, which appends
/// exactly the given character.
#[verifier::external_body]
pub(crate) fn push_char(s: &mut String, c: char)
    ensures
        final(s)@ == old(s)@ + seq![c],
{
    s.push(c);
}

/// Relies on std's string-slice equality: two slices are equal exactly when
/// their character sequences are.
#[verifier::external_body]
pub(crate) fn str_eq(a: &str, b: &str) -> (r: bool)
    ensures
        r == (a@ == b@),
{
    a == b
}

/// What humantime's `format_duration` displays for a duration of `secs`
/// whole seconds and `nanos` subsecond nanoseconds.
pub uninterp spec fn humanized(secs: u64, nanos: u32) -> Seq<char>;

/// Relies on humantime's `format_duration`: its display is computed from the
/// duration's whole seconds and subsecond nanoseconds alone.
#[verifier::external_body]
pub(crate) fn humanize_duration(d: &SessionDuration) -> (r: String)
    requires
        d.wf(),
    ensures
        r@ == humanized(d.secs, d.nanos),
{
    humantime::format_duration(std::time::Duration::new(d.secs, d.nanos)).to_string()
}

/// The decimal digit for a value below ten.
pub open spec fn dec_digit(d: int) -> char {
    if d == 0 {
        '0'
    } else if d == 1 {
        '1'
    } else if d == 2 {
        '2'
    } else if d == 3 {
        '3'
    } else if d == 4 {
        '4'
    } else if d == 5 {
        '5'
    } else if d == 6 {
        '6'
    } else if d == 7 {
        '7'
    } else if d == 8 {
        '8'
    } else {
        '9'
    }
}

/// The decimal representation of a non-negative number, most significant
/// digit first, with no leading zeros (a single zero for zero itself).
pub open spec fn dec_rep(n: int) -> Seq<char>
    decreases n,
{
    if n < 10 {
        seq![dec_digit(n)]
    } else {
        dec_rep(n / 10).push(dec_digit(n % 10))
    }
}

/// The character for one digit.
fn digit_char(d: u8) -> (c: char)
    requires
        d < 10,
    ensures
        c == dec_digit(d as int),
{
    match d {
        0 => '0',
        1 => '1',
        2 => '2',
        3 => '3',
        4 => '4',
        5 => '5',
        6 => '6',
        7 => '7',
        8 => '8',
        _ => '9',
    }
}

/// Appends the decimal representation of `n`.
pub(crate) fn push_u64(s: &mut String, n: u64)
    ensures
        final(s)@ == old(s)@ + dec_rep(n as int),
    decreases n,
{
    if n >= 10 {
        push_u64(s, n / 10);
    }
    let c = digit_char((n % 10) as u8);
    push_char(s, c);
    proof {
        if n >= 10 {
            assert(old(s)@ + dec_rep(n as int / 10) + seq![dec_digit(n as int % 10)] =~= old(s)@
                + dec_rep(n as int));
        } else {
            assert(old(s)@ + dec_rep(n as int) =~= old(s)@ + seq![dec_digit(n as int)]);
        }
    }
}

} // verus!
