//! Shared ground of the command codec.
//!
//! Every command type renders the exact ASCII line it sends and reads the
//! module's reply bytes back into a typed response or an error.  The helpers
//! here are the pieces the response readers share: reply bytes as
//! characters, line-end trimming, prefix checks, comma splitting and bounded
//! decimal fields.

use vstd::prelude::*;

verus! {

use crate::poro::{parse_int_radix, parse_int_spec};
use crate::text::{chars_eq, str_to_chars, string_from_utf8};
use vstd::utf8::{decode_utf8, valid_utf8};

/// A command whose reply carries no values: only the status line matters.
#[derive(Debug, Clone, Copy, PartialEq, Eq, Structural)]
pub struct NoResponse;

/// How a command can fail: a reply of the wrong shape, no reply in time, or
/// a failure the module itself reported.
#[derive(Debug, Clone, Copy, PartialEq, Eq, Structural)]
pub enum AtError {
    Parse,
    Timeout,
    Protocol,
}

/// The hardware shim the runtime provides: timing, the indicator LED, and
/// the module's power switch.  The crate never calls these itself; they are
/// declared here so that the runtime and its test double implement one
/// interface.
pub trait PicoHW {
    fn sleep(&mut self, millis: u64);

    fn set_led_high(&mut self);

    fn set_led_low(&mut self);

    fn power_on_off(&mut self);
}

/// The reply bytes as characters: replies are text, anything else is
/// malformed.
pub open spec fn resp_chars(v: Seq<u8>) -> Option<Seq<char>> {
    if valid_utf8(v) {
        Some(decode_utf8(v))
    } else {
        None
    }
}

/// Reads reply bytes into characters, or rejects a non-text reply.
pub fn bytes_to_chars(v: &[u8]) -> (r: Result<Vec<char>, AtError>)
    ensures
        match resp_chars(v@) {
            Option::Some(s) => r is Ok && r->Ok_0@ == s,
            Option::None => r is Err && r->Err_0 == AtError::Parse,
        },
{
    let owned = vstd::slice::slice_to_vec(v);
    match string_from_utf8(owned) {
        Option::Some(s) => Ok(str_to_chars(s.as_str())),
        Option::None => Err(AtError::Parse),
    }
}

/// A string without its trailing carriage returns and line feeds.
pub open spec fn trim_crlf(s: Seq<char>) -> Seq<char>
    decreases s.len(),
{
    if s.len() > 0 && (s.last() == '\r' || s.last() == '\n') {
        trim_crlf(s.drop_last())
    } else {
        s
    }
}

/// Drops trailing carriage returns and line feeds.
pub fn trim_crlf_chars(s: &[char]) -> (r: Vec<char>)
    ensures
        r@ == trim_crlf(s@),
{
    let mut end: usize = s.len();
    proof {
        assert(s@.take(end as int) =~= s@);
    }
    while end > 0 && (s[end - 1] == '\r' || s[end - 1] == '\n')
        invariant
            end <= s@.len(),
            trim_crlf(s@) == trim_crlf(s@.take(end as int)),
        decreases end,
    {
        end = end - 1;
        proof {
            assert(s@.take(end as int + 1).drop_last() =~= s@.take(end as int));
        }
    }
    let mut out: Vec<char> = Vec::new();
    let mut i: usize = 0;
    while i < end
        invariant
            i <= end,
            end <= s@.len(),
            out@ == s@.take(end as int).take(i as int),
        decreases end - i,
    {
        out.push(s[i]);
        i = i + 1;
        proof {
            assert(s@.take(end as int).take(i as int) =~= s@.take(end as int).take(
                i as int - 1,
            ).push(s@[i as int - 1]));
            assert(out@ =~= s@.take(end as int).take(i as int));
        }
    }
    proof {
        assert(s@.take(end as int).take(end as int) =~= s@.take(end as int));
        if end == s@.len() {
            assert(s@.take(end as int) =~= s@);
        } else {
            assert(trim_crlf(s@.take(end as int)) == s@.take(end as int)) by {
                if end > 0 {
                    assert(s@.take(end as int).last() == s@[end as int - 1]);
                }
            }
        }
    }
    out
}

/// Whether `s` begins with `p`.
pub open spec fn has_prefix(s: Seq<char>, p: Seq<char>) -> bool {
    s.len() >= p.len() && s.take(p.len() as int) == p
}

/// The rest of `s` after the prefix `p`, or nothing where `p` is not its
/// head.
pub fn strip_prefix_chars(s: &[char], p: &str) -> (r: Option<Vec<char>>)
    ensures
        match r {
            Option::Some(rest) => has_prefix(s@, p@) && rest@ == s@.skip(p@.len() as int),
            Option::None => !has_prefix(s@, p@),
        },
{
    let pc = str_to_chars(p);
    let k = pc.len();
    if s.len() < k {
        return None;
    }
    let mut head: Vec<char> = Vec::new();
    let mut i: usize = 0;
    while i < k
        invariant
            i <= k,
            k <= s@.len(),
            head@ == s@.take(k as int).take(i as int),
        decreases k - i,
    {
        head.push(s[i]);
        i = i + 1;
        proof {
            assert(s@.take(k as int).take(i as int) =~= s@.take(k as int).take(i as int - 1).push(
                s@[i as int - 1],
            ));
            assert(head@ =~= s@.take(k as int).take(i as int));
        }
    }
    proof {
        assert(s@.take(k as int).take(k as int) =~= s@.take(k as int));
    }
    if !chars_eq(head.as_slice(), pc.as_slice()) {
        return None;
    }
    let mut rest: Vec<char> = Vec::new();
    let mut j: usize = k;
    while j < s.len()
        invariant
            k <= j <= s@.len(),
            rest@ == s@.skip(k as int).take(j as int - k as int),
        decreases s@.len() - j,
    {
        rest.push(s[j]);
        j = j + 1;
        proof {
            assert(s@.skip(k as int)[j as int - k as int - 1] == s@[j as int - 1]);
            assert(s@.skip(k as int).take(j as int - k as int) =~= s@.skip(k as int).take(
                j as int - k as int - 1,
            ).push(s@[j as int - 1]));
            assert(rest@ =~= s@.skip(k as int).take(j as int - k as int));
        }
    }
    proof {
        assert(s@.skip(k as int).take(s@.len() - k as int) =~= s@.skip(k as int));
    }
    Some(rest)
}

/// The value of a plain bounded decimal field, as the field readers accept
/// one: an optional sign, digits, and the value inside `lo..=hi`.
pub open spec fn dec_bounded(c: Seq<char>, lo: int, hi: int) -> Option<int> {
    match parse_int_spec(c, 10) {
        Option::Some(v) => if lo <= v <= hi {
            Some(v)
        } else {
            None
        },
        Option::None => None,
    }
}

/// Reads a bounded decimal field.
pub fn parse_dec_bounded(c: &[char], lo: i64, hi: i64) -> (r: Result<i64, AtError>)
    ensures
        match dec_bounded(c@, lo as int, hi as int) {
            Option::Some(v) => r is Ok && r->Ok_0 == v,
            Option::None => r is Err && r->Err_0 == AtError::Parse,
        },
{
    match parse_int_radix(c, 10) {
        Ok(v) => {
            if lo <= v && v <= hi {
                Ok(v)
            } else {
                Err(AtError::Parse)
            }
        },
        Err(_) => Err(AtError::Parse),
    }
}

/// The value of a bounded decimal field with the fallback the acquisition
/// paths use: `0` for anything unreadable or out of range.
pub open spec fn dec_or_zero(c: Seq<char>, lo: int, hi: int) -> int {
    match dec_bounded(c, lo, hi) {
        Option::Some(v) => v,
        Option::None => 0,
    }
}

/// Reads a bounded decimal field, `0` for anything unreadable.
pub fn parse_dec_or_zero(c: &[char], lo: i64, hi: i64) -> (r: i64)
    ensures
        r as int == dec_or_zero(c@, lo as int, hi as int),
{
    match parse_dec_bounded(c, lo, hi) {
        Ok(v) => v,
        Err(_) => 0,
    }
}

/// The value of a fixed-point decimal field scaled by 10^`scale`: an
/// optional sign, an integer part, and an optional fraction of at most
/// `scale` digits, as `12.345` at scale 6 is `12345000`.
pub open spec fn fixpoint_value(c: Seq<char>, scale: int) -> Option<int>
    recommends
        0 <= scale <= 10,
{
    let dot = crate::poro::find_char(c, '.');
    if dot < 0 {
        match parse_int_spec(c, 10) {
            Option::Some(v) => Some(v * pow10(scale)),
            Option::None => None,
        }
    } else {
        let negative = c.len() > 0 && c[0] == '-';
        let int_part = c.take(dot);
        let frac = c.skip(dot + 1);
        if frac.len() > scale {
            None
        } else {
            match parse_int_spec(int_part, 10) {
                Option::Some(ip) => {
                    let fv = if frac.len() == 0 {
                        Some(0int)
                    } else {
                        match parse_int_spec(frac, 10) {
                            Option::Some(f) => if f >= 0 && (frac.len() == 0 || frac[0] != '-'
                                && frac[0] != '+') {
                                Some(f * pow10(scale - frac.len()))
                            } else {
                                None
                            },
                            Option::None => None,
                        }
                    };
                    match fv {
                        Option::Some(f) => if negative {
                            Some(ip * pow10(scale) - f)
                        } else {
                            Some(ip * pow10(scale) + f)
                        },
                        Option::None => None,
                    }
                },
                Option::None => None,
            }
        }
    }
}

/// A fixed-point field value that fits the machine word, or nothing.
pub open spec fn fixpoint_i64(c: Seq<char>, scale: int) -> Option<int> {
    match fixpoint_value(c, scale) {
        Option::Some(v) => if i64::MIN <= v <= i64::MAX {
            Some(v)
        } else {
            None
        },
        Option::None => None,
    }
}

/// Ten to a small power.
pub open spec fn pow10(e: int) -> int
    decreases e,
{
    if e <= 0 {
        1
    } else {
        10 * pow10(e - 1)
    }
}

/// Reads a fixed-point decimal field into its scaled integer, rejecting a
/// value whose magnitude cannot be held.
pub fn parse_fixpoint(c: &[char], scale: u32) -> (r: Result<i64, AtError>)
    requires
        scale <= 10,
    ensures
        match fixpoint_value(c@, scale as int) {
            Option::Some(v) => if i64::MIN <= v <= i64::MAX {
                r is Ok && r->Ok_0 == v
            } else {
                r is Err
            },
            Option::None => r is Err,
        },
{
    // locate the point
    let n = c.len();
    let mut i: usize = 0;
    while i < n && c[i] != '.'
        invariant
            i <= n,
            n == c@.len(),
            forall|j: int| 0 <= j < i ==> c@[j] != '.',
        decreases n - i,
    {
        i = i + 1;
    }
    let dot = i;
    proof {
        crate::poro::lemma_find_char(c@, '.');
        if dot == n {
            assert(forall|j: int| 0 <= j < c@.len() ==> c@[j] != '.');
            if crate::poro::find_char(c@, '.') >= 0 {
                assert(c@[crate::poro::find_char(c@, '.')] == '.');
            }
            assert(crate::poro::find_char(c@, '.') == -1);
        } else {
            assert(c@[dot as int] == '.');
            if crate::poro::find_char(c@, '.') != dot {
                let fc = crate::poro::find_char(c@, '.');
                if 0 <= fc < dot {
                    assert(c@[fc] != '.');
                }
            }
            assert(crate::poro::find_char(c@, '.') == dot);
        }
        lemma_pow10_bounds();
    }
    if dot == n {
        let v = match parse_int_radix(c, 10) {
            Ok(v) => v,
            Err(_) => {
                return Err(AtError::Parse);
            },
        };
        let p = pow10_exec(scale);
        proof {
            assert((v as int) * (p as int) <= 0x7FFF_FFFF_FFFF_FFFF * 10_000_000_000 && (v as int)
                * (p as int) >= -0x8000_0000_0000_0000 * 10_000_000_000) by (nonlinear_arith)
                requires
                    -0x8000_0000_0000_0000 <= v <= 0x7FFF_FFFF_FFFF_FFFF,
                    1 <= p <= 10_000_000_000,
            ;
        }
        let scaled: i128 = (v as i128) * (p as i128);
        if scaled > i64::MAX as i128 || scaled < i64::MIN as i128 {
            return Err(AtError::Parse);
        }
        Ok(scaled as i64)
    } else {
        let negative = n > 0 && c[0] == '-';
        let int_part = vstd::slice::slice_subrange(c, 0, dot);
        let frac = vstd::slice::slice_subrange(c, dot + 1, n);
        if frac.len() > scale as usize {
            return Err(AtError::Parse);
        }
        let ip = match parse_int_radix(int_part, 10) {
            Ok(v) => v,
            Err(_) => {
                return Err(AtError::Parse);
            },
        };
        let f: i64 = if frac.len() == 0 {
            0
        } else {
            if frac[0] == '-' || frac[0] == '+' {
                proof {
                    assert(frac@[0] == c@.skip(dot as int + 1)[0]);
                }
                return Err(AtError::Parse);
            }
            let fraw = match parse_int_radix(frac, 10) {
                Ok(v) => v,
                Err(_) => {
                    return Err(AtError::Parse);
                },
            };
            proof {
                lemma_fixpoint_frac_bound(c@.skip(dot as int + 1), fraw as int);
                lemma_pow10_add(frac@.len() as int, scale as int - frac@.len() as int);
            }
            let pw = pow10_exec(scale - frac.len() as u32);
            proof {
                assert((fraw as int) * (pw as int) < pow10(scale as int)) by (nonlinear_arith)
                    requires
                        0 <= fraw < pow10(frac@.len() as int),
                        pw == pow10(scale as int - frac@.len() as int),
                        pw >= 1,
                        pow10(frac@.len() as int) * (pw as int) == pow10(scale as int),
                ;
                assert((fraw as int) * (pw as int) >= 0) by (nonlinear_arith)
                    requires
                        fraw >= 0,
                        pw >= 1,
                ;
            }
            fraw * (pw as i64)
        };
        proof {
            if f != 0 {
                assert(f as int == parse_int_spec(c@.skip(dot as int + 1), 10)->Some_0 * pow10(
                    scale as int - c@.skip(dot as int + 1).len(),
                ));
            }
        }
        let p = pow10_exec(scale);
        proof {
            assert((ip as int) * (p as int) <= 0x7FFF_FFFF_FFFF_FFFF * 10_000_000_000 && (
            ip as int) * (p as int) >= -0x8000_0000_0000_0000 * 10_000_000_000)
                by (nonlinear_arith)
                requires
                    -0x8000_0000_0000_0000 <= ip <= 0x7FFF_FFFF_FFFF_FFFF,
                    1 <= p <= 10_000_000_000,
            ;
        }
        let scaled: i128 = if negative {
            (ip as i128) * (p as i128) - (f as i128)
        } else {
            (ip as i128) * (p as i128) + (f as i128)
        };
        if scaled > i64::MAX as i128 || scaled < i64::MIN as i128 {
            return Err(AtError::Parse);
        }
        Ok(scaled as i64)
    }
}

/// The scaled fraction of at most ten digits stays under 10^10.
proof fn lemma_fixpoint_frac_bound(frac: Seq<char>, v: int)
    requires
        parse_int_spec(frac, 10) == Some(v),
        frac.len() >= 1,
        frac[0] != '-',
        frac[0] != '+',
    ensures
        0 <= v,
        frac.len() <= 10 ==> v < pow10(frac.len() as int),
{
    lemma_digits_value_bound(frac, 10);
}

/// A digit string's value is nonnegative and under 10^len.
proof fn lemma_digits_value_bound(s: Seq<char>, radix: int)
    requires
        2 <= radix <= 36,
        s.len() >= 1,
        s[0] != '-',
        s[0] != '+',
    ensures
        parse_int_spec(s, radix) matches Some(v) ==> 0 <= v && (radix == 10 && s.len() <= 10 ==> v
            < pow10(s.len() as int)),
{
    lemma_pow10_bounds();
    match crate::poro::digits_value(s, radix) {
        Option::Some(v) => {
            lemma_digits_value_upper(s, radix);
        },
        Option::None => {},
    }
}

proof fn lemma_digits_value_upper(s: Seq<char>, radix: int)
    requires
        2 <= radix <= 36,
    ensures
        crate::poro::digits_value(s, radix) matches Some(v) ==> 0 <= v && (radix == 10 ==> v
            < pow10(s.len() as int)),
    decreases s.len(),
{
    lemma_pow10_bounds();
    if s.len() == 0 {
    } else if s.len() == 1 {
    } else {
        lemma_digits_value_upper(s.drop_last(), radix);
        match crate::poro::digits_value(s.drop_last(), radix) {
            Option::Some(v) => {
                if radix == 10 && 0 <= crate::poro::char_digit36(s.last()) < radix {
                    assert(pow10(s.len() as int) == 10 * pow10(s.len() - 1));
                    assert(v * 10 + crate::poro::char_digit36(s.last()) < 10 * pow10(s.len() - 1))
                        by (nonlinear_arith)
                        requires
                            v < pow10(s.len() - 1),
                            v >= 0,
                            crate::poro::char_digit36(s.last()) < 10,
                    ;
                }
                if 0 <= crate::poro::char_digit36(s.last()) < radix {
                    assert(v * radix + crate::poro::char_digit36(s.last()) >= 0)
                        by (nonlinear_arith)
                        requires
                            v >= 0,
                            radix >= 2,
                            crate::poro::char_digit36(s.last()) >= 0,
                    ;
                }
            },
            Option::None => {},
        }
    }
}

proof fn lemma_pow10_add(a: int, b: int)
    requires
        a >= 0,
        b >= 0,
    ensures
        pow10(a) * pow10(b) == pow10(a + b),
    decreases a,
{
    if a == 0 {
        assert(pow10(0) * pow10(b) == pow10(b)) by (nonlinear_arith)
            requires
                pow10(0) == 1,
        ;
    } else {
        lemma_pow10_add(a - 1, b);
        assert(pow10(a) == 10 * pow10(a - 1));
        assert(pow10(a + b) == 10 * pow10(a - 1 + b));
        assert((10 * pow10(a - 1)) * pow10(b) == 10 * (pow10(a - 1) * pow10(b)))
            by (nonlinear_arith);
    }
}

proof fn lemma_pow10_bounds()
    ensures
        forall|e: int| 0 <= e <= 10 ==> 1 <= #[trigger] pow10(e) <= 10_000_000_000,
        pow10(0) == 1,
        pow10(10) == 10_000_000_000,
{
    assert(pow10(0) == 1);
    assert(pow10(1) == 10);
    assert(pow10(2) == 100);
    assert(pow10(3) == 1000);
    assert(pow10(4) == 10000);
    assert(pow10(5) == 100000);
    assert(pow10(6) == 1000000);
    assert(pow10(7) == 10000000);
    assert(pow10(8) == 100000000);
    assert(pow10(9) == 1000000000);
    assert(pow10(10) == 10_000_000_000);
    assert forall|e: int| 0 <= e <= 10 implies 1 <= #[trigger] pow10(e) <= 10_000_000_000 by {
        if e == 0 {
        } else if e == 1 {
        } else if e == 2 {
        } else if e == 3 {
        } else if e == 4 {
        } else if e == 5 {
        } else if e == 6 {
        } else if e == 7 {
        } else if e == 8 {
        } else if e == 9 {
        } else {
            assert(e == 10);
        }
    }
}

/// Ten to a small power, as a value.
pub fn pow10_exec(e: u32) -> (r: u64)
    requires
        e <= 10,
    ensures
        r as int == pow10(e as int),
{
    proof {
        lemma_pow10_bounds();
    }
    let mut r: u64 = 1;
    let mut i: u32 = 0;
    while i < e
        invariant
            i <= e,
            e <= 10,
            r as int == pow10(i as int),
            r <= 10_000_000_000,
        decreases e - i,
    {
        proof {
            lemma_pow10_bounds();
        }
        r = r * 10;
        i = i + 1;
    }
    r
}

} // verus!
