//! Rendering a duration as a short human-readable figure.
//!
//! A duration is taken as plain values — whole seconds plus subsecond
//! nanoseconds — and rendered with the unit that fits it: plain
//! nanoseconds under a microsecond, then `us`, `ms` and `s` with one
//! decimal place, rounded to the nearest tenth with ties rounded up.
//! A duration whose nanosecond total does not fit 64 bits is rendered
//! as whole seconds. All arithmetic is integral.

use vstd::prelude::*;

verus! {

/// The decimal digit character for `d`.
pub open spec fn digit_char(d: int) -> char {
    if d == 0 {
        '0'
    } else if d == 1 {
        '1'
    } else if d == 2 {
        '2'
    } else if d == 3 {
        '3'
    } else if d == 4 {
        '4'
    } else if d == 5 {
        '5'
    } else if d == 6 {
        '6'
    } else if d == 7 {
        '7'
    } else if d == 8 {
        '8'
    } else {
        '9'
    }
}

/// The decimal digits of `n`, most significant first.
pub open spec fn dec_digits(n: int) -> Seq<char>
    decreases n,
{
    if n < 10 {
        seq![digit_char(n)]
    } else {
        dec_digits(n / 10).push(digit_char(n % 10))
    }
}

/// A quantity scaled to tenths of a unit, written with one decimal
/// place.
pub open spec fn tenths_text(t: int) -> Seq<char> {
    dec_digits(t / 10) + seq!['.', digit_char(t % 10)]
}

/// What [`format_time`] returns, as a function of the duration.
pub open spec fn spec_format_time(secs: int, nanos: int) -> Seq<char> {
    if secs * 1_000_000_000 > u64::MAX {
        dec_digits(secs) + seq!['s']
    } else {
        let ns = secs * 1_000_000_000 + nanos;
        if ns < 1_000 {
            dec_digits(ns) + seq!['n', 's']
        } else if ns < 1_000_000 {
            tenths_text((ns + 50) / 100) + seq!['u', 's']
        } else if ns < 1_000_000_000 {
            tenths_text((ns + 50_000) / 100_000) + seq!['m', 's']
        } else {
            tenths_text((ns + 50_000_000) / 100_000_000) + seq!['s']
        }
    }
}

/// The character for one decimal digit.
fn digit_of(d: u64) -> (c: char)
    requires
        d < 10,
    ensures
        c == digit_char(d as int),
{
    if d == 0 {
        '0'
    } else if d == 1 {
        '1'
    } else if d == 2 {
        '2'
    } else if d == 3 {
        '3'
    } else if d == 4 {
        '4'
    } else if d == 5 {
        '5'
    } else if d == 6 {
        '6'
    } else if d == 7 {
        '7'
    } else if d == 8 {
        '8'
    } else {
        '9'
    }
}

/// Append the decimal digits of `n`.
fn push_digits(out: &mut Vec<char>, n: u64)
    ensures
        final(out)@ == old(out)@ + dec_digits(n as int),
    decreases n,
{
    if n < 10 {
        out.push(digit_of(n));
        proof {
            assert(final(out)@ =~= old(out)@ + dec_digits(n as int));
        }
    } else {
        push_digits(out, n / 10);
        out.push(digit_of(n % 10));
        proof {
            assert(final(out)@ =~= old(out)@ + dec_digits(n as int));
        }
    }
}

/// Append tenths of a unit with one decimal place.
fn push_tenths(out: &mut Vec<char>, t: u64)
    ensures
        final(out)@ == old(out)@ + tenths_text(t as int),
{
    push_digits(out, t / 10);
    out.push('.');
    out.push(digit_of(t % 10));
    proof {
        assert(final(out)@ =~= old(out)@ + tenths_text(t as int));
    }
}

/// Relies on `Iterator::collect` building a `String` from chars: the
/// returned string holds exactly the characters of `v`, in order.
#[verifier::external_body]
fn chars_to_string(v: &Vec<char>) -> (s: String)
    ensures
        s@ == v@,
{
    v.iter().collect()
}

/// Render a duration, given as whole seconds plus subsecond
/// nanoseconds, with the unit that fits it.
pub fn format_time(secs: u64, subsec_nanos: u32) -> (r: String)
    requires
        subsec_nanos < 1_000_000_000,
    ensures
        r@ == spec_format_time(secs as int, subsec_nanos as int),
{
    let mut out: Vec<char> = Vec::new();
    match secs.checked_mul(1_000_000_000) {
        None => {
            push_digits(&mut out, secs);
            out.push('s');
            proof {
                assert(out@ =~= spec_format_time(secs as int, subsec_nanos as int));
            }
        },
        Some(part) => {
            let ns: u128 = part as u128 + subsec_nanos as u128;
            if ns < 1_000 {
                push_digits(&mut out, ns as u64);
                out.push('n');
                out.push('s');
            } else if ns < 1_000_000 {
                push_tenths(&mut out, ((ns + 50) / 100) as u64);
                out.push('u');
                out.push('s');
            } else if ns < 1_000_000_000 {
                push_tenths(&mut out, ((ns + 50_000) / 100_000) as u64);
                out.push('m');
                out.push('s');
            } else {
                push_tenths(&mut out, ((ns + 50_000_000) / 100_000_000) as u64);
                out.push('s');
            }
            proof {
                assert(out@ =~= spec_format_time(secs as int, subsec_nanos as int));
            }
        },
    }
    chars_to_string(&out)
}

} // verus!
