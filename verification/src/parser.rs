//! The command parser: a pure map from one line of free text to an
//! accumulated `(dx, dy)` movement intent.
//!
//! The line is split on whitespace and the tokens are consumed oldest
//! first. Each recognised verb (`left`/`l`, `right`/`r`, `up`/`u`,
//! `down`/`d`) consumes the token after it, if there is one, as its
//! magnitude; a magnitude that is not a valid integer counts as `1`.
//! Any other token in verb position is ignored. `up` decrements `dy`
//! (the row index grows downward) and `down` increments it; `left` and
//! `right` act on `dx` the same way. Contributions accumulate with
//! saturating additions, oldest first.

use vstd::prelude::*;
use vstd::string::StrSliceExecFns;

use crate::arith::add_clamped;
use crate::arith::clamp_i64;
use crate::arith::sub_clamped;

verus! {

/// Unicode whitespace, the same character class the tokenizer of the
/// standard library splits on.
pub open spec fn is_space(c: char) -> bool {
    let u = c as u32;
    ||| (0x09 <= u && u <= 0x0D)
    ||| u == 0x20
    ||| u == 0x85
    ||| u == 0xA0
    ||| u == 0x1680
    ||| (0x2000 <= u && u <= 0x200A)
    ||| u == 0x2028
    ||| u == 0x2029
    ||| u == 0x202F
    ||| u == 0x205F
    ||| u == 0x3000
}

/// Whether `c` is whitespace.
pub fn is_space_char(c: char) -> (r: bool)
    ensures
        r == is_space(c),
{
    let u = c as u32;
    (0x09 <= u && u <= 0x0D) || u == 0x20 || u == 0x85 || u == 0xA0 || u == 0x1680 || (0x2000 <= u
        && u <= 0x200A) || u == 0x2028 || u == 0x2029 || u == 0x202F || u == 0x205F || u == 0x3000
}

/// One left-to-right scan step of the tokenizer: `cur` is the token
/// being gathered when the scan reaches `s`.
pub open spec fn token_scan(s: Seq<char>, cur: Seq<char>) -> Seq<Seq<char>>
    decreases s.len(),
{
    if s.len() == 0 {
        if cur.len() == 0 {
            Seq::empty()
        } else {
            seq![cur]
        }
    } else if is_space(s[0]) {
        if cur.len() == 0 {
            token_scan(s.drop_first(), Seq::empty())
        } else {
            seq![cur] + token_scan(s.drop_first(), Seq::empty())
        }
    } else {
        token_scan(s.drop_first(), cur.push(s[0]))
    }
}

/// The whitespace-separated tokens of `s`, oldest first.
pub open spec fn spec_tokens(s: Seq<char>) -> Seq<Seq<char>> {
    token_scan(s, Seq::empty())
}

/// Split `s` on whitespace.
pub fn tokenize(s: &str) -> (toks: Vec<Vec<char>>)
    ensures
        toks.deep_view() == spec_tokens(s@),
{
    let n = s.unicode_len();
    let mut toks: Vec<Vec<char>> = Vec::new();
    let mut cur: Vec<char> = Vec::new();
    let mut i: usize = 0;
    proof {
        assert(s@.skip(0) =~= s@);
        assert(toks.deep_view() =~= Seq::<Seq<char>>::empty());
        assert(cur@ =~= Seq::<char>::empty());
    }
    while i < n
        invariant
            n == s@.len(),
            i <= n,
            spec_tokens(s@) == toks.deep_view() + token_scan(s@.skip(i as int), cur@),
        decreases n - i,
    {
        let ghost dv0 = toks.deep_view();
        let ghost cur0 = cur@;
        let c = s.get_char(i);
        proof {
            assert(s@.skip(i as int)[0] == s@[i as int]);
            assert(s@.skip(i as int).drop_first() =~= s@.skip(i as int + 1));
        }
        if is_space_char(c) {
            if cur.len() > 0 {
                toks.push(cur);
                cur = Vec::new();
                proof {
                    assert(toks.deep_view() =~~= dv0.push(cur0));
                    assert(cur@ =~= Seq::<char>::empty());
                    assert(token_scan(s@.skip(i as int), cur0) == seq![cur0] + token_scan(
                        s@.skip(i as int + 1),
                        Seq::empty(),
                    ));
                    assert(dv0 + (seq![cur0] + token_scan(s@.skip(i as int + 1), Seq::empty()))
                        =~= (dv0.push(cur0)) + token_scan(s@.skip(i as int + 1), Seq::empty()));
                    assert(spec_tokens(s@) == toks.deep_view() + token_scan(
                        s@.skip(i as int + 1),
                        cur@,
                    ));
                }
            } else {
                proof {
                    assert(cur@ =~= Seq::<char>::empty());
                    assert(token_scan(s@.skip(i as int), cur@) == token_scan(
                        s@.skip(i as int).drop_first(),
                        Seq::empty(),
                    ));
                    assert(spec_tokens(s@) == toks.deep_view() + token_scan(
                        s@.skip(i as int + 1),
                        cur@,
                    ));
                }
            }
        } else {
            cur.push(c);
            proof {
                assert(cur@ =~= cur0.push(s@[i as int]));
                assert(spec_tokens(s@) == toks.deep_view() + token_scan(
                    s@.skip(i as int + 1),
                    cur@,
                ));
            }
        }
        i = i + 1;
    }
    proof {
        assert(s@.skip(n as int) =~= Seq::<char>::empty());
    }
    if cur.len() > 0 {
        let ghost dv0 = toks.deep_view();
        let ghost cur0 = cur@;
        toks.push(cur);
        proof {
            assert(toks.deep_view() =~~= dv0.push(cur0));
            assert(dv0 + seq![cur0] =~= dv0.push(cur0));
        }
    } else {
        proof {
            assert(toks.deep_view() + Seq::<Seq<char>>::empty() =~= toks.deep_view());
        }
    }
    toks
}

/// A decimal digit.
pub open spec fn is_digit_char(c: char) -> bool {
    48 <= c as u32 && c as u32 <= 57
}

/// The value of a decimal digit.
pub open spec fn digit_val(c: char) -> int {
    c as u32 - 48
}

/// Every character of `s` is a decimal digit.
pub open spec fn all_digits(s: Seq<char>) -> bool {
    forall|j: int| 0 <= j < s.len() ==> is_digit_char(s[j])
}

/// The value of a digit string, most significant digit first.
pub open spec fn digits_val(s: Seq<char>) -> int
    decreases s.len(),
{
    if s.len() == 0 {
        0
    } else {
        digits_val(s.drop_last()) * 10 + digit_val(s.last())
    }
}

/// The digits of an integer token, after any single leading sign.
pub open spec fn int_body(t: Seq<char>) -> Seq<char> {
    if t.len() > 0 && (t[0] == '+' || t[0] == '-') {
        t.drop_first()
    } else {
        t
    }
}

/// The token starts with a minus sign.
pub open spec fn int_negative(t: Seq<char>) -> bool {
    t.len() > 0 && t[0] == '-'
}

/// An optional sign followed by one or more decimal digits.
pub open spec fn is_int_literal(t: Seq<char>) -> bool {
    int_body(t).len() > 0 && all_digits(int_body(t))
}

/// The mathematical value of an integer token.
pub open spec fn int_value(t: Seq<char>) -> int {
    if int_negative(t) {
        -digits_val(int_body(t))
    } else {
        digits_val(int_body(t))
    }
}

/// A digit string is worth at least zero.
proof fn lemma_digits_val_nonneg(s: Seq<char>)
    requires
        all_digits(s),
    ensures
        digits_val(s) >= 0,
    decreases s.len(),
{
    if s.len() > 0 {
        assert(all_digits(s.drop_last()));
        lemma_digits_val_nonneg(s.drop_last());
    }
}

/// Extending a digit string never shrinks its value.
proof fn lemma_digits_val_prefix(s: Seq<char>, k: int)
    requires
        all_digits(s),
        0 <= k <= s.len(),
    ensures
        digits_val(s.take(k)) <= digits_val(s),
    decreases s.len() - k,
{
    if k < s.len() {
        let t = s.take(k + 1);
        assert(t.drop_last() =~= s.take(k));
        assert(t.last() == s[k]);
        assert(all_digits(s.take(k)));
        lemma_digits_val_nonneg(s.take(k));
        assert(digits_val(s.take(k + 1)) == digits_val(s.take(k)) * 10 + digit_val(s[k]));
        lemma_digits_val_prefix(s, k + 1);
    } else {
        assert(s.take(k) =~= s);
    }
}

/// Parse a token as an `i64`, the way the standard decimal parse does:
/// an optional sign, then digits; `None` on anything else and on a
/// value outside the `i64` range.
pub fn parse_i64(t: &Vec<char>) -> (r: Option<i64>)
    ensures
        r == (if is_int_literal(t@) && i64::MIN <= int_value(t@) <= i64::MAX {
            Some(int_value(t@) as i64)
        } else {
            None::<i64>
        }),
{
    let n = t.len();
    if n == 0 {
        return None;
    }
    let c0 = t[0];
    let neg = c0 == '-';
    let start: usize = if c0 == '-' || c0 == '+' {
        1
    } else {
        0
    };
    proof {
        assert(int_body(t@) =~= t@.skip(start as int));
    }
    if start >= n {
        // a bare sign has no digits
        return None;
    }
    let ghost body = t@.skip(start as int);
    let mut acc: i64 = 0;  // always -(value of the digits seen so far)
    let mut i: usize = start;
    while i < n
        invariant
            n == t@.len(),
            start <= i <= n,
            start < n,
            body == t@.skip(start as int),
            body == int_body(t@),
            neg == int_negative(t@),
            body.len() == n - start,
            forall|j: int| start <= j < i ==> is_digit_char(t@[j]),
            acc == -digits_val(t@.subrange(start as int, i as int)),
            i64::MIN <= acc <= 0,
        decreases n - i,
    {
        let c = t[i];
        let u = c as u32;
        if !(48 <= u && u <= 57) {
            proof {
                assert(body[i - start] == t@[i as int]);
                assert(!all_digits(body));
            }
            return None;
        }
        let d = (u - 48) as i64;
        let ghost pre = t@.subrange(start as int, i as int);
        let ghost ext = t@.subrange(start as int, i as int + 1);
        proof {
            assert(ext.drop_last() =~= pre);
            assert(ext.last() == t@[i as int]);
            assert(digits_val(ext) == digits_val(pre) * 10 + digit_val(t@[i as int]));
            assert(forall|j: int| 0 <= j < ext.len() ==> ext[j] == t@[start + j]);
        }
        let step = match acc.checked_mul(10) {
            Some(a) => a.checked_sub(d),
            None => None,
        };
        match step {
            Some(b) => {
                acc = b;
            },
            None => {
                // the digits seen so far already exceed the magnitude
                // any i64 can carry, and more digits cannot reduce it
                proof {
                    assert(digits_val(ext) > 0x8000_0000_0000_0000);
                    if is_int_literal(t@) {
                        assert(all_digits(body));
                        assert(ext =~= body.take(i - start + 1));
                        lemma_digits_val_prefix(body, i - start + 1);
                        assert(digits_val(body) > 0x8000_0000_0000_0000);
                    }
                }
                return None;
            },
        }
        i = i + 1;
    }
    proof {
        assert(t@.subrange(start as int, n as int) =~= body);
        assert(forall|j: int| 0 <= j < body.len() ==> body[j] == t@[start + j]);
        assert(all_digits(body));
        assert(is_int_literal(t@));
        assert(int_negative(t@) == neg);
    }
    if neg {
        Some(acc)
    } else {
        if acc == i64::MIN {
            // the magnitude is one past i64::MAX
            None
        } else {
            Some(-acc)
        }
    }
}

/// The token is `left` or `l`.
pub open spec fn is_left_token(t: Seq<char>) -> bool {
    ||| (t.len() == 4 && t[0] == 'l' && t[1] == 'e' && t[2] == 'f' && t[3] == 't')
    ||| (t.len() == 1 && t[0] == 'l')
}

/// The token is `right` or `r`.
pub open spec fn is_right_token(t: Seq<char>) -> bool {
    ||| (t.len() == 5 && t[0] == 'r' && t[1] == 'i' && t[2] == 'g' && t[3] == 'h' && t[4] == 't')
    ||| (t.len() == 1 && t[0] == 'r')
}

/// The token is `up` or `u`.
pub open spec fn is_up_token(t: Seq<char>) -> bool {
    ||| (t.len() == 2 && t[0] == 'u' && t[1] == 'p')
    ||| (t.len() == 1 && t[0] == 'u')
}

/// The token is `down` or `d`.
pub open spec fn is_down_token(t: Seq<char>) -> bool {
    ||| (t.len() == 4 && t[0] == 'd' && t[1] == 'o' && t[2] == 'w' && t[3] == 'n')
    ||| (t.len() == 1 && t[0] == 'd')
}

/// The token is one of the recognised movement verbs.
pub open spec fn is_verb(t: Seq<char>) -> bool {
    is_left_token(t) || is_right_token(t) || is_up_token(t) || is_down_token(t)
}

/// The magnitude a verb takes from the token after it: its integer
/// value when it is one, else the unit step.
pub open spec fn magnitude(t: Seq<char>) -> i64 {
    if is_int_literal(t) && i64::MIN <= int_value(t) <= i64::MAX {
        int_value(t) as i64
    } else {
        1
    }
}

fn token_is_left(t: &Vec<char>) -> (r: bool)
    ensures
        r == is_left_token(t@),
{
    (t.len() == 4 && t[0] == 'l' && t[1] == 'e' && t[2] == 'f' && t[3] == 't') || (t.len() == 1
        && t[0] == 'l')
}

fn token_is_right(t: &Vec<char>) -> (r: bool)
    ensures
        r == is_right_token(t@),
{
    (t.len() == 5 && t[0] == 'r' && t[1] == 'i' && t[2] == 'g' && t[3] == 'h' && t[4] == 't') || (
    t.len() == 1 && t[0] == 'r')
}

fn token_is_up(t: &Vec<char>) -> (r: bool)
    ensures
        r == is_up_token(t@),
{
    (t.len() == 2 && t[0] == 'u' && t[1] == 'p') || (t.len() == 1 && t[0] == 'u')
}

fn token_is_down(t: &Vec<char>) -> (r: bool)
    ensures
        r == is_down_token(t@),
{
    (t.len() == 4 && t[0] == 'd' && t[1] == 'o' && t[2] == 'w' && t[3] == 'n') || (t.len() == 1
        && t[0] == 'd')
}

fn magnitude_of(t: &Vec<char>) -> (m: i64)
    ensures
        m == magnitude(t@),
{
    match parse_i64(t) {
        Some(v) => v,
        None => 1,
    }
}

/// What is left to add once the scan has accumulated `(dx, dy)` and the
/// tokens `toks` remain.
pub open spec fn scan_deltas(toks: Seq<Seq<char>>, dx: i64, dy: i64) -> (i64, i64)
    decreases toks.len(),
{
    if toks.len() == 0 {
        (dx, dy)
    } else if is_verb(toks[0]) {
        let m = if toks.len() >= 2 {
            magnitude(toks[1])
        } else {
            1
        };
        let dx2 = if is_left_token(toks[0]) {
            clamp_i64(dx - m)
        } else if is_right_token(toks[0]) {
            clamp_i64(dx + m)
        } else {
            dx
        };
        let dy2 = if is_up_token(toks[0]) {
            clamp_i64(dy - m)
        } else if is_down_token(toks[0]) {
            clamp_i64(dy + m)
        } else {
            dy
        };
        if toks.len() >= 2 {
            scan_deltas(toks.skip(2), dx2, dy2)
        } else {
            scan_deltas(toks.skip(1), dx2, dy2)
        }
    } else {
        scan_deltas(toks.skip(1), dx, dy)
    }
}

/// The accumulated movement intent of a token sequence.
pub open spec fn spec_deltas(toks: Seq<Seq<char>>) -> (i64, i64) {
    scan_deltas(toks, 0, 0)
}

/// Parse one command line into its accumulated `(dx, dy)` intent.
pub fn parse_command(s: &str) -> (d: (i64, i64))
    ensures
        d == spec_deltas(spec_tokens(s@)),
{
    let toks = tokenize(s);
    let ghost all = toks.deep_view();
    let mut dx: i64 = 0;
    let mut dy: i64 = 0;
    let mut i: usize = 0;
    proof {
        assert(all.skip(0) =~= all);
    }
    while i < toks.len()
        invariant
            all == toks.deep_view(),
            all.len() == toks@.len(),
            i <= toks@.len(),
            spec_deltas(spec_tokens(s@)) == scan_deltas(all.skip(i as int), dx, dy),
        decreases toks@.len() - i,
    {
        proof {
            assert(all.skip(i as int)[0] == all[i as int]);
            assert(toks@[i as int].deep_view() =~= toks@[i as int]@);
            assert(all[i as int] == toks@[i as int]@);
            assert(all.skip(i as int).skip(1) =~= all.skip(i as int + 1));
            assert(all.skip(i as int).len() == all.len() - i);
        }
        let t = &toks[i];
        let left = token_is_left(t);
        let right = token_is_right(t);
        let up = token_is_up(t);
        let down = token_is_down(t);
        if left || right || up || down {
            let has_mag = i + 1 < toks.len();
            let m: i64 = if has_mag {
                proof {
                    assert(toks@[i as int + 1].deep_view() =~= toks@[i as int + 1]@);
                    assert(all[i as int + 1] == toks@[i as int + 1]@);
                    assert(all.skip(i as int)[1] == all[i as int + 1]);
                }
                magnitude_of(&toks[i + 1])
            } else {
                1
            };
            if left {
                dx = sub_clamped(dx, m);
            } else if right {
                dx = add_clamped(dx, m);
            }
            if up {
                dy = sub_clamped(dy, m);
            } else if down {
                dy = add_clamped(dy, m);
            }
            if has_mag {
                proof {
                    assert(all.skip(i as int).skip(2) =~= all.skip(i as int + 2));
                }
                i = i + 2;
            } else {
                i = i + 1;
            }
        } else {
            i = i + 1;
        }
    }
    proof {
        assert(all.skip(i as int) =~= Seq::<Seq<char>>::empty());
    }
    (dx, dy)
}

} // verus!
