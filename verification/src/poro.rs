//! Compact record codec for the SMS payloads.
//!
//! A record is a sequence of space-delimited tokens, one or more tokens per
//! field, fields emitted in a fixed declared order.  An absent optional field
//! is the single token `*`, a boolean is `t`/`f`, a signed integer is its
//! base-36 representation, and a string field is escaped so that it contains
//! no delimiter.  Fixed-point numeric fields carry their value scaled to an
//! integer; decoding returns exactly the integer that was encoded.

use vstd::prelude::*;

verus! {

use crate::datetime::{div_trunc, format_unix_datetime, iso_datetime_of};
use crate::text::{chars_to_string, str_eq, str_to_chars, string_push};

// ---------------------------------------------------------------------------
// Base-36 integers
// ---------------------------------------------------------------------------

/// The character that stands for one digit: `0`-`9` then `a`-`z`.
pub open spec fn digit36_char(d: int) -> char
    recommends
        0 <= d < 36,
{
    if d < 10 {
        ((d + 48) as u8) as char
    } else {
        ((d + 87) as u8) as char
    }
}

/// The value of one digit character; `-1` for a character that is no digit.
/// Upper-case letters are accepted on the way in, as the integer parser of
/// the wire format accepts them, though the encoder never emits them.
pub open spec fn char_digit36(c: char) -> int {
    let u = c as u32;
    if 48 <= u <= 57 {
        u - 48
    } else if 97 <= u <= 122 {
        u - 87
    } else if 65 <= u <= 90 {
        u - 55
    } else {
        -1
    }
}

/// Digits of `n` in base `radix`, most significant first.
pub open spec fn radix_digits(n: nat, radix: nat) -> Seq<char>
    recommends
        2 <= radix <= 36,
    decreases n,
    when radix >= 2
    via radix_digits_decreases
{
    if n < radix {
        seq![digit36_char(n as int)]
    } else {
        radix_digits(n / radix, radix).push(digit36_char((n % radix) as int))
    }
}

#[via_fn]
proof fn radix_digits_decreases(n: nat, radix: nat) {
    assert(n >= radix ==> n / radix < n) by (nonlinear_arith)
        requires
            radix >= 2,
    ;
}

/// The wire form of a signed integer in base `radix`: a leading `-` for a
/// negative value, then the digits of its magnitude.
pub open spec fn dump_int_spec(v: int, radix: nat) -> Seq<char> {
    if v < 0 {
        seq!['-'] + radix_digits((-v) as nat, radix)
    } else {
        radix_digits(v as nat, radix)
    }
}

/// Value of a plain digit string (no sign); `None` if it is empty or holds a
/// character that is no digit of the base.
pub open spec fn digits_value(s: Seq<char>, radix: int) -> Option<int>
    decreases s.len(),
{
    if s.len() == 0 {
        None
    } else if s.len() == 1 {
        if 0 <= char_digit36(s[0]) < radix {
            Some(char_digit36(s[0]))
        } else {
            None
        }
    } else {
        match digits_value(s.drop_last(), radix) {
            Option::None => None,
            Option::Some(v) => if 0 <= char_digit36(s.last()) < radix {
                Some(v * radix + char_digit36(s.last()))
            } else {
                None
            },
        }
    }
}

/// What the integer parser of the wire format returns on a whole token: an
/// optional single `+` or `-` sign, then digits, and the value must fit in
/// `i64`; anything else is rejected.
pub open spec fn parse_int_spec(s: Seq<char>, radix: int) -> Option<int> {
    let body = if s.len() > 0 && (s[0] == '-' || s[0] == '+') {
        digits_value(s.skip(1), radix)
    } else {
        digits_value(s, radix)
    };
    let negative = s.len() > 0 && s[0] == '-';
    match body {
        Option::None => None,
        Option::Some(v) => {
            let signed: int = if negative {
                -v
            } else {
                v
            };
            if i64::MIN <= signed <= i64::MAX {
                Some(signed)
            } else {
                None
            }
        },
    }
}

proof fn lemma_digit36_roundtrip(d: int)
    requires
        0 <= d < 36,
    ensures
        char_digit36(digit36_char(d)) == d,
        digit36_char(d) != '-',
        digit36_char(d) != '+',
        digit36_char(d) != ' ',
        digit36_char(d) != '*',
{
    if d < 10 {
        assert((((d + 48) as u8) as char) as u32 == d + 48);
    } else {
        assert((((d + 87) as u8) as char) as u32 == d + 87);
    }
}

/// Every digit string of a magnitude evaluates back to that magnitude, is
/// nonempty, and holds digit characters only.
proof fn lemma_radix_digits_value(n: nat, radix: nat)
    requires
        2 <= radix <= 36,
    ensures
        digits_value(radix_digits(n, radix), radix as int) == Some(n as int),
        radix_digits(n, radix).len() >= 1,
        forall|i: int|
            0 <= i < radix_digits(n, radix).len() ==> 0 <= char_digit36(
                #[trigger] radix_digits(n, radix)[i],
            ) < radix,
    decreases n,
{
    if n < radix {
        lemma_digit36_roundtrip(n as int);
        assert(radix_digits(n, radix) =~= seq![digit36_char(n as int)]);
    } else {
        assert(n / radix < n) by (nonlinear_arith)
            requires
                radix >= 2,
                n >= radix,
        ;
        lemma_radix_digits_value(n / radix, radix);
        lemma_digit36_roundtrip((n % radix) as int);
        let pre = radix_digits(n / radix, radix);
        let whole = pre.push(digit36_char((n % radix) as int));
        assert(whole.drop_last() =~= pre);
        assert(whole.last() == digit36_char((n % radix) as int));
        assert((n / radix) * (radix as int) + n % radix == n) by (nonlinear_arith)
            requires
                radix >= 2,
        ;
    }
}

proof fn lemma_digits_first_not_sign(n: nat, radix: nat)
    requires
        2 <= radix <= 36,
    ensures
        radix_digits(n, radix)[0] != '-',
        radix_digits(n, radix)[0] != '+',
        radix_digits(n, radix).len() >= 1,
    decreases n,
{
    if n < radix {
        lemma_digit36_roundtrip(n as int);
    } else {
        assert(n / radix < n) by (nonlinear_arith)
            requires
                radix >= 2,
                n >= radix,
        ;
        lemma_digits_first_not_sign(n / radix, radix);
    }
}

/// Decoding inverts encoding for every `i64` value: the round trip of the
/// integer layer of the codec.
pub proof fn lemma_int_roundtrip(v: int, radix: nat)
    requires
        i64::MIN <= v <= i64::MAX,
        2 <= radix <= 36,
    ensures
        parse_int_spec(dump_int_spec(v, radix), radix as int) == Some(v),
{
    if v < 0 {
        lemma_radix_digits_value((-v) as nat, radix);
        let s = seq!['-'] + radix_digits((-v) as nat, radix);
        assert(s[0] == '-');
        assert(s.skip(1) =~= radix_digits((-v) as nat, radix));
    } else {
        lemma_radix_digits_value(v as nat, radix);
        lemma_digits_first_not_sign(v as nat, radix);
    }
}

/// Renders `value` in base `radix`, digits `0`-`9` then `a`-`z`, with a
/// leading `-` for a negative value.
pub fn to_str_radix(value: i64, radix: u64) -> (r: String)
    requires
        2 <= radix <= 36,
    ensures
        r@ == dump_int_spec(value as int, radix as nat),
{
    let out = int_chars_radix(value, radix);
    chars_to_string(out.as_slice())
}

/// The same rendering as a character buffer.
#[verifier::rlimit(50)]
pub fn int_chars_radix(value: i64, radix: u64) -> (r: Vec<char>)
    requires
        2 <= radix <= 36,
    ensures
        r@ == dump_int_spec(value as int, radix as nat),
{
    let negative = value < 0;
    let mut quotient: u64 = if value < 0 {
        (-(value as i128)) as u64
    } else {
        value as u64
    };
    let ghost n0: nat = quotient as nat;
    let ghost rdx: nat = radix as nat;
    let mut buf: Vec<char> = Vec::new();
    if quotient == 0 {
        let c: char = 48u8 as char;
        proof {
            assert(c == digit36_char(0));
            assert(radix_digits(n0, rdx) =~= seq![c]);
        }
        buf.push(c);
        proof {
            assert(buf@.reverse() =~= seq![c]);
        }
    } else {
        proof {
            assert(radix_digits(n0, rdx) + Seq::<char>::empty().reverse() =~= radix_digits(
                n0,
                rdx,
            ));
        }
        while quotient > 0
            invariant
                2 <= radix <= 36,
                rdx == radix as nat,
                radix_digits(n0, rdx) == if quotient > 0 {
                    radix_digits(quotient as nat, rdx) + buf@.reverse()
                } else {
                    buf@.reverse()
                },
            decreases quotient,
        {
            let d: u64 = quotient % radix;
            let c: char = if d < 10 {
                ((48 + d) as u8) as char
            } else {
                ((87 + d) as u8) as char
            };
            proof {
                assert(c == digit36_char(d as int));
            }
            let ghost old_buf = buf@;
            let ghost old_q = quotient as nat;
            buf.push(c);
            quotient = quotient / radix;
            proof {
                assert(quotient as nat == old_q / rdx);
                assert(old_q / rdx < old_q) by (nonlinear_arith)
                    requires
                        old_q >= 1,
                        rdx >= 2,
                ;
                assert(old_q >= rdx ==> old_q / rdx >= 1) by (nonlinear_arith)
                    requires
                        rdx >= 2,
                ;
                assert(old_q < rdx ==> old_q / rdx == 0) by (nonlinear_arith)
                    requires
                        rdx >= 2,
                        old_q >= 0,
                ;
                assert(buf@.reverse() =~= seq![c] + old_buf.reverse());
                if old_q >= rdx {
                    assert(radix_digits(old_q, rdx) == radix_digits(old_q / rdx, rdx).push(
                        digit36_char((old_q % rdx) as int),
                    ));
                    assert(radix_digits(old_q / rdx, rdx).push(c) + old_buf.reverse()
                        =~= radix_digits(old_q / rdx, rdx) + (seq![c] + old_buf.reverse()));
                } else {
                    assert(old_q / rdx == 0);
                    assert(old_q % rdx == old_q) by (nonlinear_arith)
                        requires
                            0 <= old_q < rdx,
                    ;
                    assert(radix_digits(old_q, rdx) =~= seq![c]);
                    assert(seq![c] + old_buf.reverse() =~= buf@.reverse());
                }
            }
        }
    }
    if negative {
        let ghost old_buf = buf@;
        buf.push('-');
        proof {
            assert(buf@.reverse() =~= seq!['-'] + old_buf.reverse());
        }
    }
    let mut out: Vec<char> = Vec::new();
    let mut i: usize = buf.len();
    while i > 0
        invariant
            i <= buf@.len(),
            out@ == buf@.skip(i as int).reverse(),
        decreases i,
    {
        i = i - 1;
        out.push(buf[i]);
        proof {
            assert(out@ =~= buf@.skip(i as int).reverse());
        }
    }
    proof {
        assert(buf@.skip(0) =~= buf@);
        assert(out@ == dump_int_spec(value as int, rdx));
    }
    out
}

/// Appending digits to a digit string never shrinks its value, and a failed
/// prefix never recovers.
proof fn lemma_digits_value_extend(s: Seq<char>, j: int, k: int, radix: int)
    requires
        2 <= radix <= 36,
        0 <= j <= k <= s.len(),
    ensures
        digits_value(s.take(j), radix) is None ==> (j == 0 && k > 0 && digits_value(
            s.take(k),
            radix,
        ) is Some) || digits_value(s.take(k), radix) is None,
        digits_value(s.take(j), radix) matches Some(v) ==> (digits_value(s.take(k), radix) is None
            || (digits_value(s.take(k), radix) matches Some(w) && w >= v && v >= 0)),
    decreases k - j,
{
    if j == k {
        assert(s.take(j) =~= s.take(k));
        lemma_digits_value_nonneg(s.take(j), radix);
    } else {
        lemma_digits_value_extend(s, j, k - 1, radix);
        let pre = s.take(k - 1);
        let whole = s.take(k);
        assert(whole.drop_last() =~= pre);
        if whole.len() == 1 {
        } else {
            assert(whole.len() >= 2);
        }
        match digits_value(pre, radix) {
            Option::Some(v) => {
                lemma_digits_value_nonneg(pre, radix);
                if 0 <= char_digit36(whole.last()) < radix {
                    assert(v * radix + char_digit36(whole.last()) >= v) by (nonlinear_arith)
                        requires
                            v >= 0,
                            radix >= 2,
                            char_digit36(whole.last()) >= 0,
                    ;
                }
            },
            Option::None => {},
        }
    }
}

proof fn lemma_digits_value_nonneg(s: Seq<char>, radix: int)
    requires
        2 <= radix <= 36,
    ensures
        digits_value(s, radix) matches Some(v) ==> v >= 0,
    decreases s.len(),
{
    if s.len() > 1 {
        lemma_digits_value_nonneg(s.drop_last(), radix);
        match digits_value(s.drop_last(), radix) {
            Option::Some(v) => {
                if 0 <= char_digit36(s.last()) < radix {
                    assert(v * radix + char_digit36(s.last()) >= 0) by (nonlinear_arith)
                        requires
                            v >= 0,
                            radix >= 2,
                            char_digit36(s.last()) >= 0,
                    ;
                }
            },
            Option::None => {},
        }
    }
}

proof fn lemma_digits_value_step(s: Seq<char>, j: int, radix: int)
    requires
        2 <= radix <= 36,
        0 <= j < s.len(),
    ensures
        digits_value(s.take(j + 1), radix) == (match digits_value(s.take(j), radix) {
            Option::None => if j == 0 && 0 <= char_digit36(s[0]) < radix {
                Some(char_digit36(s[0]))
            } else {
                Option::<int>::None
            },
            Option::Some(v) => if 0 <= char_digit36(s[j]) < radix {
                Some(v * radix + char_digit36(s[j]))
            } else {
                Option::<int>::None
            },
        }),
{
    let whole = s.take(j + 1);
    assert(whole.drop_last() =~= s.take(j));
    assert(whole.last() == s[j]);
    if j == 0 {
        assert(whole.len() == 1);
    }
}

/// One more than `i64::MAX`: the largest magnitude the integer parser admits.
pub const MAGNITUDE_BOUND: i128 = 0x8000_0000_0000_0000;

/// Parses a whole token as a signed base-`radix` integer: an optional single
/// `+` or `-` sign, then at least one digit; rejects an empty token, any
/// other character, and a value outside the `i64` range.
pub fn parse_int_radix(tok: &[char], radix: u64) -> (r: Result<i64, &'static str>)
    requires
        2 <= radix <= 36,
    ensures
        match parse_int_spec(tok@, radix as int) {
            Option::Some(v) => r is Ok && r->Ok_0 == v,
            Option::None => r is Err,
        },
{
    let n = tok.len();
    let mut start: usize = 0;
    let mut negative = false;
    if n > 0 && (tok[0] == '-' || tok[0] == '+') {
        negative = tok[0] == '-';
        start = 1;
    }
    if start >= n {
        proof {
            if n > 0 {
                assert(tok@.skip(1).len() == 0);
            }
        }
        return Err("no digits in number token");
    }
    let ghost digits = tok@.skip(start as int);
    let mut i: usize = start;
    let mut acc: i128 = 0;
    while i < n
        invariant
            2 <= radix <= 36,
            start <= i <= n,
            n == tok@.len(),
            start < n,
            digits == tok@.skip(start as int),
            start <= 1,
            (start == 1) <==> (tok@.len() > 0 && (tok@[0] == '-' || tok@[0] == '+')),
            negative <==> (tok@.len() > 0 && tok@[0] == '-'),
            0 <= acc <= MAGNITUDE_BOUND,
            i > start ==> digits_value(digits.take(i - start), radix as int) == Some(acc as int),
            i == start ==> acc == 0,
        decreases n - i,
    {
        let c = tok[i];
        let u = c as u32;
        let d: u32 = if 48 <= u && u <= 57 {
            u - 48
        } else if 97 <= u && u <= 122 {
            u - 87
        } else if 65 <= u && u <= 90 {
            u - 55
        } else {
            proof {
                assert(digits[i - start] == c);
                lemma_digits_value_step(digits, i - start, radix as int);
                lemma_digits_value_extend(digits, i - start + 1, digits.len() as int, radix as int);
                assert(digits.take(digits.len() as int) =~= digits);
                assert(tok@.skip(0) =~= tok@);
            }
            return Err("not a digit");
        };
        proof {
            assert(char_digit36(c) == d);
        }
        if d as u64 >= radix {
            proof {
                assert(digits[i - start] == c);
                lemma_digits_value_step(digits, i - start, radix as int);
                lemma_digits_value_extend(digits, i - start + 1, digits.len() as int, radix as int);
                assert(digits.take(digits.len() as int) =~= digits);
                assert(tok@.skip(0) =~= tok@);
            }
            return Err("digit out of range for base");
        }
        proof {
            assert(digits[i - start] == c);
            lemma_digits_value_step(digits, i - start, radix as int);
            assert(acc * (radix as int) <= MAGNITUDE_BOUND * 36) by (nonlinear_arith)
                requires
                    0 <= acc <= MAGNITUDE_BOUND,
                    2 <= radix <= 36,
            ;
            assert(acc * (radix as int) >= 0) by (nonlinear_arith)
                requires
                    acc >= 0,
                    radix >= 2,
            ;
        }
        let new_acc: i128 = acc * (radix as i128) + (d as i128);
        proof {
            assert(new_acc as int == (acc as int) * (radix as int) + d);
            if i == start {
                assert(digits.take(0) =~= Seq::<char>::empty());
                assert(digits_value(digits.take(0), radix as int) is None);
                assert((0int) * (radix as int) == 0) by (nonlinear_arith);
                assert(digits_value(digits.take(1), radix as int) == Some(d as int));
            } else {
                assert(digits_value(digits.take(i - start), radix as int) == Some(acc as int));
            }
            assert(digits_value(digits.take(i - start + 1), radix as int) == Some(new_acc as int));
        }
        if new_acc > MAGNITUDE_BOUND {
            proof {
                lemma_digits_value_extend(digits, i - start + 1, digits.len() as int, radix as int);
                assert(digits.take(digits.len() as int) =~= digits);
                assert(tok@.skip(0) =~= tok@);
            }
            return Err("number does not fit");
        }
        acc = new_acc;
        i = i + 1;
        proof {
            assert(digits_value(digits.take(i - start), radix as int) == Some(acc as int));
        }
    }
    proof {
        assert(digits.take(i - start) =~= digits);
        assert(tok@.skip(0) =~= tok@);
    }
    if negative {
        Ok((-acc) as i64)
    } else {
        if acc > 0x7FFF_FFFF_FFFF_FFFF {
            return Err("number does not fit");
        }
        Ok(acc as i64)
    }
}


// ---------------------------------------------------------------------------
// String escaping
// ---------------------------------------------------------------------------
//
// A string field must not hold the token delimiter.  Escaping doubles the
// escape character `_`, turns a pair of spaces into four `_`, a single space
// into one `_`, and doubles `*` and `;` so that the absent-field and
// empty-string markers stay unambiguous.  The empty string is sent as the
// single character `;`.  A lone `_` in the source text collides with the
// space encoding and does not survive the round trip; every other string
// does (see `lemma_escape_roundtrip`).

/// Escaped form of a nonempty string, one greedy left-to-right pass.
pub open spec fn escape_chars(s: Seq<char>) -> Seq<char>
    decreases s.len(),
{
    if s.len() == 0 {
        Seq::empty()
    } else if s[0] == ' ' && s.len() >= 2 && s[1] == ' ' {
        seq!['_', '_', '_', '_'] + escape_chars(s.skip(2))
    } else if s[0] == ' ' {
        seq!['_'] + escape_chars(s.skip(1))
    } else if s[0] == '_' {
        seq!['_', '_'] + escape_chars(s.skip(1))
    } else if s[0] == '*' {
        seq!['*', '*'] + escape_chars(s.skip(1))
    } else if s[0] == ';' {
        seq![';', ';'] + escape_chars(s.skip(1))
    } else {
        seq![s[0]] + escape_chars(s.skip(1))
    }
}

/// The escaping transform of the wire format.
pub open spec fn escape_spec(s: Seq<char>) -> Seq<char> {
    if s.len() == 0 {
        seq![';']
    } else {
        escape_chars(s)
    }
}

/// Inverse pass: a pair or a lone `_` becomes a space, a pair of `*` or `;`
/// collapses to one, anything else is kept.
pub open spec fn unescape_chars(s: Seq<char>) -> Seq<char>
    decreases s.len(),
{
    if s.len() == 0 {
        Seq::empty()
    } else if s[0] == '_' {
        if s.len() >= 2 && s[1] == '_' {
            seq![' '] + unescape_chars(s.skip(2))
        } else {
            seq![' '] + unescape_chars(s.skip(1))
        }
    } else if s[0] == '*' {
        if s.len() >= 2 && s[1] == '*' {
            seq!['*'] + unescape_chars(s.skip(2))
        } else {
            seq!['*'] + unescape_chars(s.skip(1))
        }
    } else if s[0] == ';' {
        if s.len() >= 2 && s[1] == ';' {
            seq![';'] + unescape_chars(s.skip(2))
        } else {
            seq![';'] + unescape_chars(s.skip(1))
        }
    } else {
        seq![s[0]] + unescape_chars(s.skip(1))
    }
}

/// The decoding transform of the wire format: the lone `;` token stands for
/// the empty string.
pub open spec fn unescape_spec(s: Seq<char>) -> Seq<char> {
    if s =~= seq![';'] {
        Seq::empty()
    } else {
        unescape_chars(s)
    }
}

/// The first character of an escaped nonempty string, and that escaping
/// never emits a space.
proof fn lemma_escape_chars_shape(s: Seq<char>)
    ensures
        s.len() > 0 ==> escape_chars(s).len() > 0,
        s.len() > 0 ==> escape_chars(s)[0] == (if s[0] == ' ' {
            '_'
        } else {
            s[0]
        }),
        forall|i: int| 0 <= i < escape_chars(s).len() ==> #[trigger] escape_chars(s)[i] != ' ',
    decreases s.len(),
{
    if s.len() == 0 {
    } else if s[0] == ' ' && s.len() >= 2 && s[1] == ' ' {
        lemma_escape_chars_shape(s.skip(2));
        let emitted = seq!['_', '_', '_', '_'];
        assert forall|i: int| 0 <= i < escape_chars(s).len() implies #[trigger] escape_chars(
            s,
        )[i] != ' ' by {
            if i >= emitted.len() {
                assert(escape_chars(s)[i] == escape_chars(s.skip(2))[i - emitted.len()]);
            }
        }
    } else {
        lemma_escape_chars_shape(s.skip(1));
        let emitted: Seq<char> = if s[0] == ' ' {
            seq!['_']
        } else if s[0] == '_' {
            seq!['_', '_']
        } else if s[0] == '*' {
            seq!['*', '*']
        } else if s[0] == ';' {
            seq![';', ';']
        } else {
            seq![s[0]]
        };
        assert(escape_chars(s) == emitted + escape_chars(s.skip(1)));
        assert forall|i: int| 0 <= i < escape_chars(s).len() implies #[trigger] escape_chars(
            s,
        )[i] != ' ' by {
            if i >= emitted.len() {
                assert(escape_chars(s)[i] == escape_chars(s.skip(1))[i - emitted.len()]);
            }
        }
    }
}

/// Unescaping inverts escaping for every string without `_`: the round trip
/// of the string layer of the codec.
pub proof fn lemma_escape_roundtrip(s: Seq<char>)
    requires
        !s.contains('_'),
    ensures
        unescape_spec(escape_spec(s)) == s,
{
    if s.len() == 0 {
        assert(escape_spec(s) =~= seq![';']);
    } else {
        lemma_escape_not_lone_semicolon(s);
        lemma_unescape_escape_chars(s);
    }
}

proof fn lemma_escape_not_lone_semicolon(s: Seq<char>)
    requires
        s.len() > 0,
    ensures
        !(escape_chars(s) =~= seq![';']),
{
    lemma_escape_chars_shape(s);
    let e = escape_chars(s);
    if e.len() == 1 {
        if s[0] == ';' {
            assert(e.len() >= 2);
        }
    }
}

proof fn lemma_unescape_escape_chars(s: Seq<char>)
    requires
        !s.contains('_'),
    ensures
        unescape_chars(escape_chars(s)) == s,
    decreases s.len(),
{
    if s.len() == 0 {
        assert(unescape_chars(escape_chars(s)) =~= s);
    } else {
        assert(s[0] != '_') by {
            assert(s.contains('_') <==> exists|i: int| 0 <= i < s.len() && s[i] == '_');
        }
        if s[0] == ' ' && s.len() >= 2 && s[1] == ' ' {
            let rest = s.skip(2);
            assert(!rest.contains('_')) by {
                lemma_skip_no_char(s, 2, '_');
            }
            lemma_unescape_escape_chars(rest);
            let e = seq!['_', '_', '_', '_'] + escape_chars(rest);
            assert(e[0] == '_' && e[1] == '_');
            assert(e.skip(2) =~= seq!['_', '_'] + escape_chars(rest));
            let e2 = seq!['_', '_'] + escape_chars(rest);
            assert(e2[0] == '_' && e2[1] == '_');
            assert(e2.skip(2) =~= escape_chars(rest));
            assert(unescape_chars(e) =~= seq![' '] + unescape_chars(e2));
            assert(unescape_chars(e2) =~= seq![' '] + unescape_chars(escape_chars(rest)));
            assert(unescape_chars(escape_chars(s)) =~= seq![' ', ' '] + rest);
            assert(seq![' ', ' '] + rest =~= s);
        } else if s[0] == ' ' {
            let rest = s.skip(1);
            assert(!rest.contains('_')) by {
                lemma_skip_no_char(s, 1, '_');
            }
            lemma_unescape_escape_chars(rest);
            lemma_escape_chars_shape(rest);
            let e = seq!['_'] + escape_chars(rest);
            if e.len() >= 2 && e[1] == '_' {
                // the tail begins with the escape of `rest`, whose first
                // character is `_` only for a space or `_` head; `rest` has
                // neither here
                assert(escape_chars(rest)[0] == '_');
                assert(rest.len() > 0);
                if rest[0] == ' ' {
                    assert(false);
                } else {
                    assert(rest[0] != '_') by {
                        assert(s.contains('_') <==> exists|i: int|
                            0 <= i < s.len() && s[i] == '_');
                        assert(s[1] == rest[0]);
                    }
                    assert(false);
                }
            }
            assert(e.skip(1) =~= escape_chars(rest));
            assert(unescape_chars(e) =~= seq![' '] + rest);
            assert(seq![' '] + rest =~= s);
        } else if s[0] == '*' || s[0] == ';' {
            let c = s[0];
            let rest = s.skip(1);
            assert(!rest.contains('_')) by {
                lemma_skip_no_char(s, 1, '_');
            }
            lemma_unescape_escape_chars(rest);
            let e = seq![c, c] + escape_chars(rest);
            assert(e[0] == c && e[1] == c);
            assert(e.skip(2) =~= escape_chars(rest));
            assert(unescape_chars(e) =~= seq![c] + rest);
            assert(seq![c] + rest =~= s);
        } else {
            let c = s[0];
            let rest = s.skip(1);
            assert(!rest.contains('_')) by {
                lemma_skip_no_char(s, 1, '_');
            }
            lemma_unescape_escape_chars(rest);
            let e = seq![c] + escape_chars(rest);
            assert(e[0] == c);
            assert(e.skip(1) =~= escape_chars(rest));
            assert(unescape_chars(e) =~= seq![c] + rest);
            assert(seq![c] + rest =~= s);
        }
    }
}

proof fn lemma_skip_no_char(s: Seq<char>, k: int, c: char)
    requires
        0 <= k <= s.len(),
        !s.contains(c),
    ensures
        !s.skip(k).contains(c),
{
    assert forall|i: int| 0 <= i < s.skip(k).len() implies s.skip(k)[i] != c by {
        assert(s.skip(k)[i] == s[k + i]);
        assert(!(exists|j: int| 0 <= j < s.len() && s[j] == c));
    }
    if s.skip(k).contains(c) {
        let i = choose|i: int| 0 <= i < s.skip(k).len() && s.skip(k)[i] == c;
        assert(false);
    }
}

/// Applies the escaping transform to a string.
pub fn escape(text: String) -> (r: String)
    ensures
        r@ == escape_spec(text@),
{
    let chars = str_to_chars(text.as_str());
    let out = escape_to_chars(chars.as_slice());
    chars_to_string(out.as_slice())
}

fn escape_to_chars(s: &[char]) -> (r: Vec<char>)
    ensures
        r@ == escape_spec(s@),
{
    let n = s.len();
    if n == 0 {
        let mut out: Vec<char> = Vec::new();
        out.push(';');
        proof {
            assert(out@ =~= seq![';']);
        }
        return out;
    }
    let mut out: Vec<char> = Vec::new();
    let mut i: usize = 0;
    proof {
        assert(s@.skip(0) =~= s@);
        assert(Seq::<char>::empty() + escape_chars(s@) =~= escape_chars(s@));
    }
    while i < n
        invariant
            i <= n,
            n == s@.len(),
            escape_chars(s@) == out@ + escape_chars(s@.skip(i as int)),
        decreases n - i,
    {
        let ghost pre = out@;
        let ghost tail = s@.skip(i as int);
        let c = s[i];
        proof {
            assert(tail[0] == s@[i as int]);
        }
        if c == ' ' && i + 1 < n && s[i + 1] == ' ' {
            out.push('_');
            out.push('_');
            out.push('_');
            out.push('_');
            i = i + 2;
            proof {
                assert(tail[1] == s@[i as int - 1]);
                assert(tail.skip(2) =~= s@.skip(i as int));
                assert(escape_chars(tail) =~= seq!['_', '_', '_', '_'] + escape_chars(
                    s@.skip(i as int),
                ));
                assert(out@ =~= pre + seq!['_', '_', '_', '_']);
                assert(pre + (seq!['_', '_', '_', '_'] + escape_chars(s@.skip(i as int))) =~= (pre
                    + seq!['_', '_', '_', '_']) + escape_chars(s@.skip(i as int)));
            }
        } else {
            if c == ' ' {
                out.push('_');
                proof {
                    assert(out@ =~= pre + seq!['_']);
                }
            } else if c == '_' {
                out.push('_');
                out.push('_');
                proof {
                    assert(out@ =~= pre + seq!['_', '_']);
                }
            } else if c == '*' {
                out.push('*');
                out.push('*');
                proof {
                    assert(out@ =~= pre + seq!['*', '*']);
                }
            } else if c == ';' {
                out.push(';');
                out.push(';');
                proof {
                    assert(out@ =~= pre + seq![';', ';']);
                }
            } else {
                out.push(c);
                proof {
                    assert(out@ =~= pre + seq![c]);
                }
            }
            proof {
                if i + 1 < n && c == ' ' {
                    assert(tail[1] == s@[i as int + 1]);
                }
            }
            i = i + 1;
            proof {
                assert(tail.skip(1) =~= s@.skip(i as int));
                let emitted = if c == ' ' {
                    seq!['_']
                } else if c == '_' {
                    seq!['_', '_']
                } else if c == '*' {
                    seq!['*', '*']
                } else if c == ';' {
                    seq![';', ';']
                } else {
                    seq![c]
                };
                assert(escape_chars(tail) =~= emitted + escape_chars(s@.skip(i as int)));
                assert(pre + (emitted + escape_chars(s@.skip(i as int))) =~= (pre + emitted)
                    + escape_chars(s@.skip(i as int)));
            }
        }
    }
    proof {
        assert(s@.skip(n as int) =~= Seq::<char>::empty());
        assert(out@ + Seq::<char>::empty() =~= out@);
    }
    out
}

/// Applies the inverse of the escaping transform to a token.
pub fn unescape(text: String) -> (r: String)
    ensures
        r@ == unescape_spec(text@),
{
    let chars = str_to_chars(text.as_str());
    let out = unescape_to_chars(chars.as_slice());
    chars_to_string(out.as_slice())
}

fn unescape_to_chars(s: &[char]) -> (r: Vec<char>)
    ensures
        r@ == unescape_spec(s@),
{
    let n = s.len();
    if n == 1 && s[0] == ';' {
        proof {
            assert(s@ =~= seq![';']);
        }
        return Vec::new();
    }
    proof {
        assert(!(s@ =~= seq![';']));
    }
    let mut out: Vec<char> = Vec::new();
    let mut i: usize = 0;
    proof {
        assert(s@.skip(0) =~= s@);
        assert(Seq::<char>::empty() + unescape_chars(s@) =~= unescape_chars(s@));
    }
    while i < n
        invariant
            i <= n,
            n == s@.len(),
            unescape_chars(s@) == out@ + unescape_chars(s@.skip(i as int)),
        decreases n - i,
    {
        let ghost pre = out@;
        let ghost tail = s@.skip(i as int);
        let c = s[i];
        proof {
            assert(tail[0] == s@[i as int]);
        }
        let paired = (c == '_' || c == '*' || c == ';') && i + 1 < n && s[i + 1] == c;
        let emitted_char = if c == '_' {
            ' '
        } else {
            c
        };
        out.push(emitted_char);
        proof {
            assert(out@ =~= pre + seq![emitted_char]);
            if paired {
                assert(tail[1] == s@[i as int + 1]);
            }
        }
        if paired {
            i = i + 2;
        } else {
            i = i + 1;
        }
        proof {
            if paired {
                assert(tail.skip(2) =~= s@.skip(i as int));
            } else {
                assert(tail.skip(1) =~= s@.skip(i as int));
            }
            assert(unescape_chars(tail) =~= seq![emitted_char] + unescape_chars(
                s@.skip(i as int),
            ));
            assert(pre + (seq![emitted_char] + unescape_chars(s@.skip(i as int))) =~= (pre
                + seq![emitted_char]) + unescape_chars(s@.skip(i as int)));
        }
    }
    proof {
        assert(s@.skip(n as int) =~= Seq::<char>::empty());
        assert(out@ + Seq::<char>::empty() =~= out@);
    }
    out
}

// ---------------------------------------------------------------------------
// Token layer
// ---------------------------------------------------------------------------

/// Index of the first occurrence of `c` in `s`, or `-1` if there is none.
pub open spec fn find_char(s: Seq<char>, c: char) -> int
    decreases s.len(),
{
    if s.len() == 0 {
        -1
    } else if s[0] == c {
        0
    } else {
        let r = find_char(s.skip(1), c);
        if r < 0 {
            -1
        } else {
            r + 1
        }
    }
}

pub proof fn lemma_find_char(s: Seq<char>, c: char)
    ensures
        -1 <= find_char(s, c) < s.len(),
        find_char(s, c) >= 0 ==> s[find_char(s, c)] == c,
        find_char(s, c) >= 0 ==> forall|i: int| 0 <= i < find_char(s, c) ==> s[i] != c,
        find_char(s, c) == -1 ==> forall|i: int| 0 <= i < s.len() ==> s[i] != c,
    decreases s.len(),
{
    if s.len() == 0 {
    } else if s[0] == c {
    } else {
        lemma_find_char(s.skip(1), c);
        let r = find_char(s.skip(1), c);
        if r >= 0 {
            assert(s.skip(1)[r] == c);
            assert forall|i: int| 0 <= i < r + 1 implies s[i] != c by {
                if i >= 1 {
                    assert(s.skip(1)[i - 1] == s[i]);
                }
            }
        } else {
            assert forall|i: int| 0 <= i < s.len() implies s[i] != c by {
                if i >= 1 {
                    assert(s.skip(1)[i - 1] == s[i]);
                }
            }
        }
    }
}

/// Splits `s` on every occurrence of `c`; adjacent delimiters yield empty
/// pieces, and the empty string yields one empty piece.
pub open spec fn split_on(s: Seq<char>, c: char) -> Seq<Seq<char>>
    decreases s.len(),
    via split_on_decreases
{
    let i = find_char(s, c);
    if i < 0 {
        seq![s]
    } else {
        seq![s.take(i)] + split_on(s.skip(i + 1), c)
    }
}

#[via_fn]
proof fn split_on_decreases(s: Seq<char>, c: char) {
    lemma_find_char(s, c);
}

/// Joins tokens with the delimiter `c` between every two of them.
pub open spec fn join_on(toks: Seq<Seq<char>>, c: char) -> Seq<char>
    decreases toks.len(),
{
    if toks.len() == 0 {
        Seq::empty()
    } else if toks.len() == 1 {
        toks[0]
    } else {
        toks[0] + seq![c] + join_on(toks.skip(1), c)
    }
}

/// Splitting inverts joining whenever no token holds the delimiter itself:
/// the round trip of the token layer of the codec.
pub proof fn lemma_split_join(toks: Seq<Seq<char>>, c: char)
    requires
        toks.len() >= 1,
        forall|t: int| 0 <= t < toks.len() ==> !(#[trigger] toks[t]).contains(c),
    ensures
        split_on(join_on(toks, c), c) == toks,
    decreases toks.len(),
{
    if toks.len() == 1 {
        let s = join_on(toks, c);
        assert(s == toks[0]);
        lemma_find_char(s, c);
        if find_char(s, c) >= 0 {
            assert(toks[0].contains(c));
        }
        assert(split_on(s, c) =~= seq![toks[0]]);
        assert(seq![toks[0]] =~= toks);
    } else {
        let rest = toks.skip(1);
        assert forall|t: int| 0 <= t < rest.len() implies !(#[trigger] rest[t]).contains(c) by {
            assert(rest[t] == toks[t + 1]);
        }
        lemma_split_join(rest, c);
        let t0 = toks[0];
        let s = t0 + seq![c] + join_on(rest, c);
        lemma_find_char(s, c);
        let i = find_char(s, c);
        assert(s[t0.len() as int] == c);
        if i < 0 {
        } else {
            if i < t0.len() {
                assert(s[i] == t0[i]);
                assert(t0.contains(c));
            }
        }
        assert(i == t0.len());
        assert(s.take(i) =~= t0);
        assert(s.skip(i + 1) =~= join_on(rest, c));
        assert(split_on(s, c) =~= seq![t0] + split_on(join_on(rest, c), c));
        assert(seq![t0] + rest =~= toks);
    }
}

/// The character sequences a vector of token buffers stands for.
pub open spec fn token_views(v: Seq<Vec<char>>) -> Seq<Seq<char>> {
    v.map_values(|t: Vec<char>| t@)
}

proof fn lemma_token_views_push(v: Seq<Vec<char>>, t: Vec<char>)
    ensures
        token_views(v.push(t)) == token_views(v) + seq![t@],
{
    assert(token_views(v.push(t)) =~= token_views(v) + seq![t@]);
}

/// Splits a character string on a delimiter, as the token reader of the wire
/// format does.
pub fn split_chars(s: &[char], c: char) -> (r: Vec<Vec<char>>)
    ensures
        token_views(r@) == split_on(s@, c),
{
    let n = s.len();
    let mut done: Vec<Vec<char>> = Vec::new();
    let mut cur: Vec<char> = Vec::new();
    let mut start: usize = 0;
    let mut i: usize = 0;
    proof {
        assert(s@.skip(0) =~= s@);
    }
    while i < n
        invariant
            start <= i <= n,
            n == s@.len(),
            cur@ == s@.subrange(start as int, i as int),
            !s@.subrange(start as int, i as int).contains(c),
            split_on(s@, c) == token_views(done@) + split_on(s@.skip(start as int), c),
        decreases n - i,
    {
        let ch = s[i];
        if ch == c {
            let ghost tail = s@.skip(start as int);
            proof {
                lemma_find_char(tail, c);
                assert(tail[i - start] == c);
                assert forall|j: int| 0 <= j < i - start implies tail[j] != c by {
                    assert(tail[j] == s@.subrange(start as int, i as int)[j]);
                    assert(!(exists|k: int|
                        0 <= k < s@.subrange(start as int, i as int).len() && s@.subrange(
                            start as int,
                            i as int,
                        )[k] == c));
                }
                if find_char(tail, c) != i - start {
                    let f = find_char(tail, c);
                    if f < i - start {
                        assert(tail[f] != c);
                    }
                }
                assert(find_char(tail, c) == i - start);
                assert(tail.take(i - start) =~= s@.subrange(start as int, i as int));
                assert(tail.skip(i - start + 1) =~= s@.skip(i as int + 1));
            }
            let ghost old_done = done@;
            let ghost old_cur = cur@;
            done.push(cur);
            cur = Vec::new();
            start = i + 1;
            i = i + 1;
            proof {
                lemma_token_views_push(old_done, done@.last());
                assert(cur@ =~= s@.subrange(start as int, i as int));
                assert(token_views(old_done) + (seq![old_cur] + split_on(
                    s@.skip(start as int),
                    c,
                )) =~= (token_views(old_done) + seq![old_cur]) + split_on(
                    s@.skip(start as int),
                    c,
                ));
            }
        } else {
            cur.push(ch);
            i = i + 1;
            proof {
                assert(cur@ =~= s@.subrange(start as int, i as int));
                let sub = s@.subrange(start as int, i as int);
                assert forall|j: int| 0 <= j < sub.len() implies sub[j] != c by {
                    if j < sub.len() - 1 {
                        assert(sub[j] == s@.subrange(start as int, i as int - 1)[j]);
                    }
                }
                if sub.contains(c) {
                    let j = choose|j: int| 0 <= j < sub.len() && sub[j] == c;
                    assert(false);
                }
            }
        }
    }
    let ghost tail = s@.skip(start as int);
    proof {
        lemma_find_char(tail, c);
        if find_char(tail, c) >= 0 {
            let f = find_char(tail, c);
            assert(tail[f] == s@.subrange(start as int, n as int)[f]);
            assert(s@.subrange(start as int, n as int).contains(c));
        }
        assert(tail =~= s@.subrange(start as int, n as int));
        assert(split_on(tail, c) == seq![tail]);
    }
    let ghost old_done = done@;
    let ghost final_cur = cur@;
    done.push(cur);
    proof {
        lemma_token_views_push(old_done, done@.last());
        assert(final_cur =~= tail);
        assert(token_views(done@) =~= token_views(old_done) + seq![tail]);
    }
    done
}

/// Joins tokens with a delimiter, as the record writer of the wire format
/// does.
pub fn join_chars(toks: &Vec<Vec<char>>, c: char) -> (r: Vec<char>)
    ensures
        r@ == join_on(token_views(toks@), c),
{
    let mut r: Vec<char> = Vec::new();
    let n = toks.len();
    if n == 0 {
        return r;
    }
    let mut i: usize = 0;
    while i < n
        invariant
            i <= n,
            n == toks@.len(),
            n >= 1,
            token_views(toks@).len() == n,
            i == 0 ==> r@.len() == 0,
            i > 0 ==> join_on(token_views(toks@), c) == r@ + prefix_join_tail(
                token_views(toks@),
                c,
                i as int,
            ),
        decreases n - i,
    {
        if i > 0 {
            r.push(c);
        }
        let ghost pre = r@;
        let tok = &toks[i];
        let mut j: usize = 0;
        while j < tok.len()
            invariant
                j <= tok@.len(),
                r@ == pre + tok@.take(j as int),
            decreases tok@.len() - j,
        {
            r.push(tok[j]);
            j = j + 1;
            proof {
                assert(r@ =~= pre + tok@.take(j as int));
            }
        }
        proof {
            assert(tok@.take(tok@.len() as int) =~= tok@);
            assert(token_views(toks@)[i as int] == tok@);
        }
        i = i + 1;
        proof {
            lemma_join_step(token_views(toks@), c, i as int);
        }
    }
    proof {
        assert(prefix_join_tail(token_views(toks@), c, n as int) =~= Seq::<char>::empty());
        assert(r@ + Seq::<char>::empty() =~= r@);
    }
    r
}

/// What remains of a join after the first `k` tokens have been written.
pub open spec fn prefix_join_tail(toks: Seq<Seq<char>>, c: char, k: int) -> Seq<char>
    recommends
        1 <= k <= toks.len(),
{
    if k >= toks.len() {
        Seq::empty()
    } else {
        seq![c] + join_on(toks.skip(k), c)
    }
}

proof fn lemma_join_step(toks: Seq<Seq<char>>, c: char, i: int)
    requires
        1 <= i <= toks.len(),
        toks.len() >= 1,
    ensures
        i == 1 ==> join_on(toks, c) == toks[0] + prefix_join_tail(toks, c, 1),
        i > 1 ==> prefix_join_tail(toks, c, i - 1) == seq![c] + toks[i - 1] + prefix_join_tail(
            toks,
            c,
            i,
        ),
{
    if i == 1 {
        if toks.len() == 1 {
            assert(prefix_join_tail(toks, c, 1) =~= Seq::<char>::empty());
            assert(toks[0] + Seq::<char>::empty() =~= toks[0]);
        } else {
            assert(join_on(toks, c) == toks[0] + seq![c] + join_on(toks.skip(1), c));
            assert(toks[0] + seq![c] + join_on(toks.skip(1), c) =~= toks[0] + (seq![c] + join_on(
                toks.skip(1),
                c,
            )));
        }
    } else {
        let rest = toks.skip(i - 1);
        assert(rest[0] == toks[i - 1]);
        if rest.len() == 1 {
            assert(i == toks.len());
            assert(join_on(rest, c) == rest[0]);
            assert(prefix_join_tail(toks, c, i) =~= Seq::<char>::empty());
            assert(seq![c] + join_on(rest, c) =~= seq![c] + toks[i - 1] + Seq::<char>::empty());
        } else {
            assert(join_on(rest, c) == rest[0] + seq![c] + join_on(rest.skip(1), c));
            assert(rest.skip(1) =~= toks.skip(i));
            assert(seq![c] + (rest[0] + seq![c] + join_on(toks.skip(i), c)) =~= seq![c] + toks[i
                - 1] + (seq![c] + join_on(toks.skip(i), c)));
        }
    }
}

// ---------------------------------------------------------------------------
// Records
// ---------------------------------------------------------------------------
//
// Numeric fields are fixed-point integers: latitude and longitude carry
// 1e-10 degrees, an accuracy carries 1e-6 meters, a battery level 1e-6 of
// the full charge, a timestamp milliseconds since the Unix epoch.

/// The service-enabled flag of a record.
#[derive(Debug, Clone, Copy, PartialEq, Eq, Structural)]
pub struct Service {
    pub value: bool,
}

/// A geographic position in 1e-10 degrees.
#[derive(Debug, Clone, Copy, PartialEq, Eq, Structural)]
pub struct Position {
    pub latitude: i64,
    pub longitude: i64,
}

/// The vehicle's last known location, with accuracy, battery and time.
#[derive(Debug, Clone, Copy, PartialEq, Eq, Structural)]
pub struct CarLocation {
    pub position: Position,
    pub accuracy: i64,
    pub battery: i64,
    pub timestamp: i64,
}

/// The stored parking location.
#[derive(Debug, Clone, Copy, PartialEq, Eq, Structural)]
pub struct ParkLocation {
    pub position: Position,
    pub accuracy: i64,
}

/// The event a device-to-phone record reports.
#[derive(Debug, Clone, Copy, PartialEq, Eq, Structural)]
pub enum Status {
    ParkingDetected,
    ParkingUpdated,
    CarTheftDetected,
}

/// The device-to-phone status payload.
#[derive(Debug, Clone, Copy, PartialEq, Eq, Structural)]
pub struct Protector {
    pub car_location: Option<CarLocation>,
    pub park_location: Option<ParkLocation>,
    pub status: Option<Status>,
    pub service: Option<Service>,
}

/// The call-back request flag of a phone-to-device record.
#[derive(Debug, Clone, Copy, PartialEq, Eq, Structural)]
pub struct Call {
    pub value: bool,
}

/// The refresh request flag of a phone-to-device record.
#[derive(Debug, Clone, Copy, PartialEq, Eq, Structural)]
pub struct Refresh {
    pub value: bool,
}

/// The park/unpark request flag of a phone-to-device record.
#[derive(Debug, Clone, Copy, PartialEq, Eq, Structural)]
pub struct Park {
    pub value: bool,
}

/// Where a phone-to-device record came in from.
#[derive(Debug, Clone, Copy, PartialEq, Eq, Structural)]
pub enum Source {
    Gcm,
    SmsHuman,
    SmsMachine,
    Service,
}

/// The sender of a phone-to-device record.
#[derive(Debug, Clone, PartialEq, Eq)]
pub struct ReceiverInfo {
    pub source: Source,
    pub phone_number: String,
}

/// The phone-to-device command payload.
#[derive(Debug, Clone, PartialEq, Eq)]
pub struct Watcher {
    pub call: Option<Call>,
    pub refresh: Option<Refresh>,
    pub park: Option<Park>,
    pub receiver: Option<ReceiverInfo>,
    pub service: Option<Service>,
}

/// Mathematical image of a `ReceiverInfo`.
pub ghost struct ReceiverView {
    pub source: Source,
    pub phone_number: Seq<char>,
}

/// Mathematical image of a `Watcher`.
pub ghost struct WatcherView {
    pub call: Option<Call>,
    pub refresh: Option<Refresh>,
    pub park: Option<Park>,
    pub receiver: Option<ReceiverView>,
    pub service: Option<Service>,
}

impl View for ReceiverInfo {
    type V = ReceiverView;

    open spec fn view(&self) -> ReceiverView {
        ReceiverView { source: self.source, phone_number: self.phone_number@ }
    }
}

impl View for Watcher {
    type V = WatcherView;

    open spec fn view(&self) -> WatcherView {
        WatcherView {
            call: self.call,
            refresh: self.refresh,
            park: self.park,
            receiver: match self.receiver {
                Option::Some(r) => Some(r@),
                Option::None => None,
            },
            service: self.service,
        }
    }
}

impl Status {
    /// The integer code a status travels as.
    pub open spec fn code(self) -> int {
        match self {
            Status::ParkingDetected => 0,
            Status::ParkingUpdated => 1,
            Status::CarTheftDetected => 2,
        }
    }

    /// Returns the integer code of this status.
    pub fn as_int(&self) -> (r: i64)
        ensures
            r as int == self.code(),
    {
        match self {
            Status::ParkingDetected => 0,
            Status::ParkingUpdated => 1,
            Status::CarTheftDetected => 2,
        }
    }
}

impl Source {
    /// The integer code a source travels as.
    pub open spec fn code(self) -> int {
        match self {
            Source::Gcm => 0,
            Source::SmsHuman => 1,
            Source::SmsMachine => 2,
            Source::Service => 3,
        }
    }

    /// Returns the integer code of this source.
    pub fn as_int(&self) -> (r: i64)
        ensures
            r as int == self.code(),
    {
        match self {
            Source::Gcm => 0,
            Source::SmsHuman => 1,
            Source::SmsMachine => 2,
            Source::Service => 3,
        }
    }
}

// ---------------------------------------------------------------------------
// Record tokens
// ---------------------------------------------------------------------------

/// The token of an integer field.
pub open spec fn int36_token(v: int) -> Seq<char> {
    dump_int_spec(v, 36)
}

/// The token of an absent optional field.
pub open spec fn star_token() -> Seq<char> {
    seq!['*']
}

/// The token of a boolean field.
pub open spec fn bool_token(b: bool) -> Seq<char> {
    if b {
        seq!['t']
    } else {
        seq!['f']
    }
}

pub open spec fn position_tokens(p: Position) -> Seq<Seq<char>> {
    seq![int36_token(p.latitude as int), int36_token(p.longitude as int)]
}

pub open spec fn car_location_tokens(c: CarLocation) -> Seq<Seq<char>> {
    position_tokens(c.position) + seq![
        int36_token(c.accuracy as int),
        int36_token(c.battery as int),
        int36_token(c.timestamp as int),
    ]
}

pub open spec fn park_location_tokens(p: ParkLocation) -> Seq<Seq<char>> {
    position_tokens(p.position) + seq![int36_token(p.accuracy as int)]
}

/// The full token sequence of a device-to-phone record, fields in declared
/// order, `*` for an absent one.
pub open spec fn protector_tokens(p: Protector) -> Seq<Seq<char>> {
    (match p.car_location {
        Option::Some(c) => car_location_tokens(c),
        Option::None => seq![star_token()],
    }) + (match p.park_location {
        Option::Some(l) => park_location_tokens(l),
        Option::None => seq![star_token()],
    }) + (match p.status {
        Option::Some(st) => seq![int36_token(st.code())],
        Option::None => seq![star_token()],
    }) + (match p.service {
        Option::Some(sv) => seq![bool_token(sv.value)],
        Option::None => seq![star_token()],
    })
}

pub open spec fn receiver_tokens(r: ReceiverView) -> Seq<Seq<char>> {
    seq![int36_token(r.source.code()), escape_spec(r.phone_number)]
}

/// The full token sequence of a phone-to-device record.
pub open spec fn watcher_tokens(w: WatcherView) -> Seq<Seq<char>> {
    (match w.call {
        Option::Some(c) => seq![bool_token(c.value)],
        Option::None => seq![star_token()],
    }) + (match w.refresh {
        Option::Some(c) => seq![bool_token(c.value)],
        Option::None => seq![star_token()],
    }) + (match w.park {
        Option::Some(c) => seq![bool_token(c.value)],
        Option::None => seq![star_token()],
    }) + (match w.receiver {
        Option::Some(r) => receiver_tokens(r),
        Option::None => seq![star_token()],
    }) + (match w.service {
        Option::Some(sv) => seq![bool_token(sv.value)],
        Option::None => seq![star_token()],
    })
}

// ---------------------------------------------------------------------------
// Writing records
// ---------------------------------------------------------------------------

fn push_int_token(toks: &mut Vec<Vec<char>>, v: i64)
    ensures
        token_views(final(toks)@) == token_views(old(toks)@) + seq![int36_token(v as int)],
{
    let t = int_chars_radix(v, 36);
    let ghost pre = toks@;
    toks.push(t);
    proof {
        lemma_token_views_push(pre, toks@.last());
    }
}

fn push_star_token(toks: &mut Vec<Vec<char>>)
    ensures
        token_views(final(toks)@) == token_views(old(toks)@) + seq![star_token()],
{
    let mut t: Vec<char> = Vec::new();
    t.push('*');
    proof {
        assert(t@ =~= star_token());
    }
    let ghost pre = toks@;
    toks.push(t);
    proof {
        lemma_token_views_push(pre, toks@.last());
    }
}

fn push_bool_token(toks: &mut Vec<Vec<char>>, b: bool)
    ensures
        token_views(final(toks)@) == token_views(old(toks)@) + seq![bool_token(b)],
{
    let mut t: Vec<char> = Vec::new();
    t.push(if b { 't' } else { 'f' });
    proof {
        assert(t@ =~= bool_token(b));
    }
    let ghost pre = toks@;
    toks.push(t);
    proof {
        lemma_token_views_push(pre, toks@.last());
    }
}

fn push_protector_tokens(toks: &mut Vec<Vec<char>>, p: &Protector)
    ensures
        token_views(final(toks)@) == token_views(old(toks)@) + protector_tokens(*p),
{
    let ghost t0 = token_views(toks@);
    match &p.car_location {
        Option::Some(c) => {
            push_int_token(toks, c.position.latitude);
            push_int_token(toks, c.position.longitude);
            push_int_token(toks, c.accuracy);
            push_int_token(toks, c.battery);
            push_int_token(toks, c.timestamp);
        },
        Option::None => {
            push_star_token(toks);
        },
    }
    let ghost t1 = token_views(toks@);
    match &p.park_location {
        Option::Some(l) => {
            push_int_token(toks, l.position.latitude);
            push_int_token(toks, l.position.longitude);
            push_int_token(toks, l.accuracy);
        },
        Option::None => {
            push_star_token(toks);
        },
    }
    let ghost t2 = token_views(toks@);
    match &p.status {
        Option::Some(st) => {
            push_int_token(toks, st.as_int());
        },
        Option::None => {
            push_star_token(toks);
        },
    }
    let ghost t3 = token_views(toks@);
    match &p.service {
        Option::Some(sv) => {
            push_bool_token(toks, sv.value);
        },
        Option::None => {
            push_star_token(toks);
        },
    }
    proof {
        assert(token_views(toks@) =~= t0 + protector_tokens(*p));
    }
}

#[verifier::rlimit(100)]
fn push_watcher_tokens(toks: &mut Vec<Vec<char>>, w: &Watcher)
    ensures
        token_views(final(toks)@) == token_views(old(toks)@) + watcher_tokens(w@),
{
    let ghost t0 = token_views(toks@);
    let ghost call_part: Seq<Seq<char>> = match w@.call {
        Option::Some(c) => seq![bool_token(c.value)],
        Option::None => seq![star_token()],
    };
    let ghost refresh_part: Seq<Seq<char>> = match w@.refresh {
        Option::Some(c) => seq![bool_token(c.value)],
        Option::None => seq![star_token()],
    };
    let ghost park_part: Seq<Seq<char>> = match w@.park {
        Option::Some(c) => seq![bool_token(c.value)],
        Option::None => seq![star_token()],
    };
    let ghost receiver_part: Seq<Seq<char>> = match w@.receiver {
        Option::Some(r) => receiver_tokens(r),
        Option::None => seq![star_token()],
    };
    let ghost service_part: Seq<Seq<char>> = match w@.service {
        Option::Some(sv) => seq![bool_token(sv.value)],
        Option::None => seq![star_token()],
    };
    match &w.call {
        Option::Some(c) => push_bool_token(toks, c.value),
        Option::None => push_star_token(toks),
    }
    proof {
        assert(token_views(toks@) =~= t0 + call_part);
    }
    let ghost t1 = token_views(toks@);
    match &w.refresh {
        Option::Some(c) => push_bool_token(toks, c.value),
        Option::None => push_star_token(toks),
    }
    proof {
        assert(token_views(toks@) =~= t1 + refresh_part);
    }
    let ghost t2 = token_views(toks@);
    match &w.park {
        Option::Some(c) => push_bool_token(toks, c.value),
        Option::None => push_star_token(toks),
    }
    proof {
        assert(token_views(toks@) =~= t2 + park_part);
    }
    let ghost t3 = token_views(toks@);
    match &w.receiver {
        Option::Some(r) => {
            push_int_token(toks, r.source.as_int());
            let escaped = escape_to_chars(str_to_chars(r.phone_number.as_str()).as_slice());
            let ghost pre = toks@;
            toks.push(escaped);
            proof {
                lemma_token_views_push(pre, toks@.last());
                assert(token_views(toks@) =~= t3 + receiver_part);
            }
        },
        Option::None => {
            push_star_token(toks);
            proof {
                assert(token_views(toks@) =~= t3 + receiver_part);
            }
        },
    }
    let ghost t4 = token_views(toks@);
    match &w.service {
        Option::Some(sv) => push_bool_token(toks, sv.value),
        Option::None => push_star_token(toks),
    }
    proof {
        assert(token_views(toks@) =~= t4 + service_part);
        assert(t0 + watcher_tokens(w@) =~= ((((t0 + call_part) + refresh_part) + park_part)
            + receiver_part) + service_part);
    }
}

// ---------------------------------------------------------------------------
// Reading records
// ---------------------------------------------------------------------------
//
// Each reader consumes tokens from a cursor and returns the value with the
// cursor after it.  An optional field first checks for the `*` token.  The
// spec functions below say exactly what each reader accepts; the executable
// readers are proved to match them.

pub open spec fn sp_int(toks: Seq<Seq<char>>, i: int) -> Option<(int, int)> {
    if 0 <= i < toks.len() {
        match parse_int_spec(toks[i], 36) {
            Option::Some(v) => Some((v, i + 1)),
            Option::None => None,
        }
    } else {
        None
    }
}

pub open spec fn sp_bool(toks: Seq<Seq<char>>, i: int) -> Option<(bool, int)> {
    if 0 <= i < toks.len() {
        if toks[i] == bool_token(true) {
            Some((true, i + 1))
        } else if toks[i] == bool_token(false) {
            Some((false, i + 1))
        } else {
            None
        }
    } else {
        None
    }
}

pub open spec fn sp_string(toks: Seq<Seq<char>>, i: int) -> Option<(Seq<char>, int)> {
    if 0 <= i < toks.len() {
        Some((unescape_spec(toks[i]), i + 1))
    } else {
        None
    }
}

pub open spec fn sp_status(toks: Seq<Seq<char>>, i: int) -> Option<(Status, int)> {
    match sp_int(toks, i) {
        Option::Some((v, j)) => if v == 0 {
            Some((Status::ParkingDetected, j))
        } else if v == 1 {
            Some((Status::ParkingUpdated, j))
        } else if v == 2 {
            Some((Status::CarTheftDetected, j))
        } else {
            None
        },
        Option::None => None,
    }
}

pub open spec fn sp_source(toks: Seq<Seq<char>>, i: int) -> Option<(Source, int)> {
    match sp_int(toks, i) {
        Option::Some((v, j)) => if v == 0 {
            Some((Source::Gcm, j))
        } else if v == 1 {
            Some((Source::SmsHuman, j))
        } else if v == 2 {
            Some((Source::SmsMachine, j))
        } else if v == 3 {
            Some((Source::Service, j))
        } else {
            None
        },
        Option::None => None,
    }
}

pub open spec fn sp_position(toks: Seq<Seq<char>>, i: int) -> Option<(Position, int)> {
    match sp_int(toks, i) {
        Option::Some((lat, j)) => match sp_int(toks, j) {
            Option::Some((lon, k)) => Some(
                (Position { latitude: lat as i64, longitude: lon as i64 }, k),
            ),
            Option::None => None,
        },
        Option::None => None,
    }
}

pub open spec fn sp_car_location(toks: Seq<Seq<char>>, i: int) -> Option<(CarLocation, int)> {
    match sp_position(toks, i) {
        Option::Some((pos, j)) => match sp_int(toks, j) {
            Option::Some((acc, k)) => match sp_int(toks, k) {
                Option::Some((bat, l)) => match sp_int(toks, l) {
                    Option::Some((ts, m)) => Some(
                        (
                            CarLocation {
                                position: pos,
                                accuracy: acc as i64,
                                battery: bat as i64,
                                timestamp: ts as i64,
                            },
                            m,
                        ),
                    ),
                    Option::None => None,
                },
                Option::None => None,
            },
            Option::None => None,
        },
        Option::None => None,
    }
}

pub open spec fn sp_park_location(toks: Seq<Seq<char>>, i: int) -> Option<(ParkLocation, int)> {
    match sp_position(toks, i) {
        Option::Some((pos, j)) => match sp_int(toks, j) {
            Option::Some((acc, k)) => Some(
                (ParkLocation { position: pos, accuracy: acc as i64 }, k),
            ),
            Option::None => None,
        },
        Option::None => None,
    }
}

pub open spec fn sp_receiver(toks: Seq<Seq<char>>, i: int) -> Option<(ReceiverView, int)> {
    match sp_source(toks, i) {
        Option::Some((src, j)) => match sp_string(toks, j) {
            Option::Some((ph, k)) => Some((ReceiverView { source: src, phone_number: ph }, k)),
            Option::None => None,
        },
        Option::None => None,
    }
}

/// Whether the cursor stands on the absent-field token.
pub open spec fn sp_at_star(toks: Seq<Seq<char>>, i: int) -> bool {
    0 <= i < toks.len() && toks[i] == star_token()
}

pub open spec fn sp_opt_car_location(toks: Seq<Seq<char>>, i: int) -> Option<
    (Option<CarLocation>, int),
> {
    if i >= toks.len() || i < 0 {
        None
    } else if sp_at_star(toks, i) {
        Some((None::<CarLocation>, i + 1))
    } else {
        match sp_car_location(toks, i) {
            Option::Some((c, j)) => Some((Some(c), j)),
            Option::None => None,
        }
    }
}

pub open spec fn sp_opt_park_location(toks: Seq<Seq<char>>, i: int) -> Option<
    (Option<ParkLocation>, int),
> {
    if i >= toks.len() || i < 0 {
        None
    } else if sp_at_star(toks, i) {
        Some((None::<ParkLocation>, i + 1))
    } else {
        match sp_park_location(toks, i) {
            Option::Some((c, j)) => Some((Some(c), j)),
            Option::None => None,
        }
    }
}

pub open spec fn sp_opt_status(toks: Seq<Seq<char>>, i: int) -> Option<(Option<Status>, int)> {
    if i >= toks.len() || i < 0 {
        None
    } else if sp_at_star(toks, i) {
        Some((None::<Status>, i + 1))
    } else {
        match sp_status(toks, i) {
            Option::Some((c, j)) => Some((Some(c), j)),
            Option::None => None,
        }
    }
}

pub open spec fn sp_opt_bool(toks: Seq<Seq<char>>, i: int) -> Option<(Option<bool>, int)> {
    if i >= toks.len() || i < 0 {
        None
    } else if sp_at_star(toks, i) {
        Some((None::<bool>, i + 1))
    } else {
        match sp_bool(toks, i) {
            Option::Some((c, j)) => Some((Some(c), j)),
            Option::None => None,
        }
    }
}

pub open spec fn sp_opt_receiver(toks: Seq<Seq<char>>, i: int) -> Option<
    (Option<ReceiverView>, int),
> {
    if i >= toks.len() || i < 0 {
        None
    } else if sp_at_star(toks, i) {
        Some((None::<ReceiverView>, i + 1))
    } else {
        match sp_receiver(toks, i) {
            Option::Some((c, j)) => Some((Some(c), j)),
            Option::None => None,
        }
    }
}

/// What decoding a device-to-phone record from a token sequence yields.
/// Tokens after the record are ignored, as the wire format reader ignores
/// them.
pub open spec fn sp_protector(toks: Seq<Seq<char>>, i: int) -> Option<(Protector, int)> {
    match sp_opt_car_location(toks, i) {
        Option::Some((car, j)) => match sp_opt_park_location(toks, j) {
            Option::Some((park, k)) => match sp_opt_status(toks, k) {
                Option::Some((st, l)) => match sp_opt_bool(toks, l) {
                    Option::Some((sv, m)) => Some(
                        (
                            Protector {
                                car_location: car,
                                park_location: park,
                                status: st,
                                service: match sv {
                                    Option::Some(b) => Some(Service { value: b }),
                                    Option::None => None,
                                },
                            },
                            m,
                        ),
                    ),
                    Option::None => None,
                },
                Option::None => None,
            },
            Option::None => None,
        },
        Option::None => None,
    }
}

/// What decoding a phone-to-device record from a token sequence yields.
pub open spec fn sp_watcher(toks: Seq<Seq<char>>, i: int) -> Option<(WatcherView, int)> {
    match sp_opt_bool(toks, i) {
        Option::Some((call, j)) => match sp_opt_bool(toks, j) {
            Option::Some((refresh, k)) => match sp_opt_bool(toks, k) {
                Option::Some((park, l)) => match sp_opt_receiver(toks, l) {
                    Option::Some((recv, m)) => match sp_opt_bool(toks, m) {
                        Option::Some((sv, n)) => Some(
                            (
                                WatcherView {
                                    call: match call {
                                        Option::Some(b) => Some(Call { value: b }),
                                        Option::None => None,
                                    },
                                    refresh: match refresh {
                                        Option::Some(b) => Some(Refresh { value: b }),
                                        Option::None => None,
                                    },
                                    park: match park {
                                        Option::Some(b) => Some(Park { value: b }),
                                        Option::None => None,
                                    },
                                    receiver: recv,
                                    service: match sv {
                                        Option::Some(b) => Some(Service { value: b }),
                                        Option::None => None,
                                    },
                                },
                                n,
                            ),
                        ),
                        Option::None => None,
                    },
                    Option::None => None,
                },
                Option::None => None,
            },
            Option::None => None,
        },
        Option::None => None,
    }
}

fn tok_is_star(t: &Vec<char>) -> (r: bool)
    ensures
        r == (t@ == star_token()),
{
    let r = t.len() == 1 && t[0] == '*';
    proof {
        if r {
            assert(t@ =~= star_token());
        } else if t@ == star_token() {
            assert(t@.len() == 1 && t@[0] == '*');
        }
    }
    r
}

fn p_int(toks: &Vec<Vec<char>>, i: usize) -> (r: Result<(i64, usize), &'static str>)
    ensures
        match sp_int(token_views(toks@), i as int) {
            Option::Some((v, j)) => r is Ok && r->Ok_0.0 == v && r->Ok_0.1 == j,
            Option::None => r is Err,
        },
{
    if i >= toks.len() {
        return Err("no token for number field");
    }
    let tok = &toks[i];
    proof {
        assert(token_views(toks@)[i as int] == tok@);
    }
    match parse_int_radix(tok.as_slice(), 36) {
        Ok(v) => Ok((v, i + 1)),
        Err(e) => Err(e),
    }
}

fn p_bool(toks: &Vec<Vec<char>>, i: usize) -> (r: Result<(bool, usize), &'static str>)
    ensures
        match sp_bool(token_views(toks@), i as int) {
            Option::Some((v, j)) => r is Ok && r->Ok_0.0 == v && r->Ok_0.1 == j,
            Option::None => r is Err,
        },
{
    if i >= toks.len() {
        return Err("no token for boolean field");
    }
    let tok = &toks[i];
    proof {
        assert(token_views(toks@)[i as int] == tok@);
    }
    if tok.len() == 1 && tok[0] == 't' {
        proof {
            assert(tok@ =~= bool_token(true));
        }
        Ok((true, i + 1))
    } else if tok.len() == 1 && tok[0] == 'f' {
        proof {
            assert(tok@ =~= bool_token(false));
        }
        Ok((false, i + 1))
    } else {
        proof {
            if tok@ == bool_token(true) {
                assert(tok@.len() == 1 && tok@[0] == 't');
            }
            if tok@ == bool_token(false) {
                assert(tok@.len() == 1 && tok@[0] == 'f');
            }
        }
        Err("could not parse boolean field")
    }
}

fn p_string(toks: &Vec<Vec<char>>, i: usize) -> (r: Result<(String, usize), &'static str>)
    ensures
        match sp_string(token_views(toks@), i as int) {
            Option::Some((v, j)) => r is Ok && r->Ok_0.0@ == v && r->Ok_0.1 == j,
            Option::None => r is Err,
        },
{
    if i >= toks.len() {
        return Err("no token for text field");
    }
    let tok = &toks[i];
    proof {
        assert(token_views(toks@)[i as int] == tok@);
    }
    let un = unescape_to_chars(tok.as_slice());
    Ok((chars_to_string(un.as_slice()), i + 1))
}

fn p_status(toks: &Vec<Vec<char>>, i: usize) -> (r: Result<(Status, usize), &'static str>)
    ensures
        match sp_status(token_views(toks@), i as int) {
            Option::Some((v, j)) => r is Ok && r->Ok_0.0 == v && r->Ok_0.1 == j,
            Option::None => r is Err,
        },
{
    let (v, j) = match p_int(toks, i) {
        Ok(x) => x,
        Err(e) => {
            return Err(e);
        },
    };
    if v == 0 {
        Ok((Status::ParkingDetected, j))
    } else if v == 1 {
        Ok((Status::ParkingUpdated, j))
    } else if v == 2 {
        Ok((Status::CarTheftDetected, j))
    } else {
        Err("invalid status code")
    }
}

fn p_source(toks: &Vec<Vec<char>>, i: usize) -> (r: Result<(Source, usize), &'static str>)
    ensures
        match sp_source(token_views(toks@), i as int) {
            Option::Some((v, j)) => r is Ok && r->Ok_0.0 == v && r->Ok_0.1 == j,
            Option::None => r is Err,
        },
{
    let (v, j) = match p_int(toks, i) {
        Ok(x) => x,
        Err(e) => {
            return Err(e);
        },
    };
    if v == 0 {
        Ok((Source::Gcm, j))
    } else if v == 1 {
        Ok((Source::SmsHuman, j))
    } else if v == 2 {
        Ok((Source::SmsMachine, j))
    } else if v == 3 {
        Ok((Source::Service, j))
    } else {
        Err("invalid source code")
    }
}

fn p_position(toks: &Vec<Vec<char>>, i: usize) -> (r: Result<(Position, usize), &'static str>)
    ensures
        match sp_position(token_views(toks@), i as int) {
            Option::Some((v, j)) => r is Ok && r->Ok_0.0 == v && r->Ok_0.1 == j,
            Option::None => r is Err,
        },
{
    let (lat, j) = match p_int(toks, i) {
        Ok(x) => x,
        Err(e) => {
            return Err(e);
        },
    };
    let (lon, k) = match p_int(toks, j) {
        Ok(x) => x,
        Err(e) => {
            return Err(e);
        },
    };
    Ok((Position { latitude: lat, longitude: lon }, k))
}

fn p_car_location(toks: &Vec<Vec<char>>, i: usize) -> (r: Result<
    (CarLocation, usize),
    &'static str,
>)
    ensures
        match sp_car_location(token_views(toks@), i as int) {
            Option::Some((v, j)) => r is Ok && r->Ok_0.0 == v && r->Ok_0.1 == j,
            Option::None => r is Err,
        },
{
    let (pos, j) = match p_position(toks, i) {
        Ok(x) => x,
        Err(e) => {
            return Err(e);
        },
    };
    let (acc, k) = match p_int(toks, j) {
        Ok(x) => x,
        Err(e) => {
            return Err(e);
        },
    };
    let (bat, l) = match p_int(toks, k) {
        Ok(x) => x,
        Err(e) => {
            return Err(e);
        },
    };
    let (ts, m) = match p_int(toks, l) {
        Ok(x) => x,
        Err(e) => {
            return Err(e);
        },
    };
    Ok((CarLocation { position: pos, accuracy: acc, battery: bat, timestamp: ts }, m))
}

fn p_park_location(toks: &Vec<Vec<char>>, i: usize) -> (r: Result<
    (ParkLocation, usize),
    &'static str,
>)
    ensures
        match sp_park_location(token_views(toks@), i as int) {
            Option::Some((v, j)) => r is Ok && r->Ok_0.0 == v && r->Ok_0.1 == j,
            Option::None => r is Err,
        },
{
    let (pos, j) = match p_position(toks, i) {
        Ok(x) => x,
        Err(e) => {
            return Err(e);
        },
    };
    let (acc, k) = match p_int(toks, j) {
        Ok(x) => x,
        Err(e) => {
            return Err(e);
        },
    };
    Ok((ParkLocation { position: pos, accuracy: acc }, k))
}

fn p_receiver(toks: &Vec<Vec<char>>, i: usize) -> (r: Result<
    (ReceiverInfo, usize),
    &'static str,
>)
    ensures
        match sp_receiver(token_views(toks@), i as int) {
            Option::Some((v, j)) => r is Ok && r->Ok_0.0@ == v && r->Ok_0.1 == j,
            Option::None => r is Err,
        },
{
    let (src, j) = match p_source(toks, i) {
        Ok(x) => x,
        Err(e) => {
            return Err(e);
        },
    };
    let (ph, k) = match p_string(toks, j) {
        Ok(x) => x,
        Err(e) => {
            return Err(e);
        },
    };
    Ok((ReceiverInfo { source: src, phone_number: ph }, k))
}

/// Reads a whole device-to-phone record from the token cursor.
fn p_protector(toks: &Vec<Vec<char>>, i: usize) -> (r: Result<(Protector, usize), &'static str>)
    ensures
        match sp_protector(token_views(toks@), i as int) {
            Option::Some((v, j)) => r is Ok && r->Ok_0.0 == v && r->Ok_0.1 == j,
            Option::None => r is Err,
        },
{
    if i >= toks.len() {
        return Err("no token for optional field");
    }
    let (car, j) = if tok_is_star(&toks[i]) {
        proof {
            assert(token_views(toks@)[i as int] == toks@[i as int]@);
        }
        (None, i + 1)
    } else {
        proof {
            assert(token_views(toks@)[i as int] == toks@[i as int]@);
        }
        match p_car_location(toks, i) {
            Ok((c, j)) => (Some(c), j),
            Err(e) => {
                return Err(e);
            },
        }
    };
    if j >= toks.len() {
        return Err("no token for optional field");
    }
    let (park, k) = if tok_is_star(&toks[j]) {
        proof {
            assert(token_views(toks@)[j as int] == toks@[j as int]@);
        }
        (None, j + 1)
    } else {
        proof {
            assert(token_views(toks@)[j as int] == toks@[j as int]@);
        }
        match p_park_location(toks, j) {
            Ok((c, k)) => (Some(c), k),
            Err(e) => {
                return Err(e);
            },
        }
    };
    if k >= toks.len() {
        return Err("no token for optional field");
    }
    let (st, l) = if tok_is_star(&toks[k]) {
        proof {
            assert(token_views(toks@)[k as int] == toks@[k as int]@);
        }
        (None, k + 1)
    } else {
        proof {
            assert(token_views(toks@)[k as int] == toks@[k as int]@);
        }
        match p_status(toks, k) {
            Ok((c, l)) => (Some(c), l),
            Err(e) => {
                return Err(e);
            },
        }
    };
    if l >= toks.len() {
        return Err("no token for optional field");
    }
    let (sv, m) = if tok_is_star(&toks[l]) {
        proof {
            assert(token_views(toks@)[l as int] == toks@[l as int]@);
        }
        (None, l + 1)
    } else {
        proof {
            assert(token_views(toks@)[l as int] == toks@[l as int]@);
        }
        match p_bool(toks, l) {
            Ok((c, m)) => (Some(Service { value: c }), m),
            Err(e) => {
                return Err(e);
            },
        }
    };
    Ok((Protector { car_location: car, park_location: park, status: st, service: sv }, m))
}

/// Reads a whole phone-to-device record from the token cursor.
#[verifier::rlimit(50)]
fn p_watcher(toks: &Vec<Vec<char>>, i: usize) -> (r: Result<(Watcher, usize), &'static str>)
    ensures
        match sp_watcher(token_views(toks@), i as int) {
            Option::Some((v, j)) => r is Ok && r->Ok_0.0@ == v && r->Ok_0.1 == j,
            Option::None => r is Err,
        },
{
    if i >= toks.len() {
        return Err("no token for optional field");
    }
    let (call, j) = if tok_is_star(&toks[i]) {
        proof {
            assert(token_views(toks@)[i as int] == toks@[i as int]@);
        }
        (None, i + 1)
    } else {
        proof {
            assert(token_views(toks@)[i as int] == toks@[i as int]@);
        }
        match p_bool(toks, i) {
            Ok((c, j)) => (Some(Call { value: c }), j),
            Err(e) => {
                return Err(e);
            },
        }
    };
    if j >= toks.len() {
        return Err("no token for optional field");
    }
    let (refresh, k) = if tok_is_star(&toks[j]) {
        proof {
            assert(token_views(toks@)[j as int] == toks@[j as int]@);
        }
        (None, j + 1)
    } else {
        proof {
            assert(token_views(toks@)[j as int] == toks@[j as int]@);
        }
        match p_bool(toks, j) {
            Ok((c, k)) => (Some(Refresh { value: c }), k),
            Err(e) => {
                return Err(e);
            },
        }
    };
    if k >= toks.len() {
        return Err("no token for optional field");
    }
    let (park, l) = if tok_is_star(&toks[k]) {
        proof {
            assert(token_views(toks@)[k as int] == toks@[k as int]@);
        }
        (None, k + 1)
    } else {
        proof {
            assert(token_views(toks@)[k as int] == toks@[k as int]@);
        }
        match p_bool(toks, k) {
            Ok((c, l)) => (Some(Park { value: c }), l),
            Err(e) => {
                return Err(e);
            },
        }
    };
    if l >= toks.len() {
        return Err("no token for optional field");
    }
    let (recv, m) = if tok_is_star(&toks[l]) {
        proof {
            assert(token_views(toks@)[l as int] == toks@[l as int]@);
        }
        (None, l + 1)
    } else {
        proof {
            assert(token_views(toks@)[l as int] == toks@[l as int]@);
        }
        match p_receiver(toks, l) {
            Ok((c, m)) => (Some(c), m),
            Err(e) => {
                return Err(e);
            },
        }
    };
    if m >= toks.len() {
        return Err("no token for optional field");
    }
    let (sv, n) = if tok_is_star(&toks[m]) {
        proof {
            assert(token_views(toks@)[m as int] == toks@[m as int]@);
        }
        (None, m + 1)
    } else {
        proof {
            assert(token_views(toks@)[m as int] == toks@[m as int]@);
        }
        match p_bool(toks, m) {
            Ok((c, n)) => (Some(Service { value: c }), n),
            Err(e) => {
                return Err(e);
            },
        }
    };
    Ok((Watcher { call: call, refresh: refresh, park: park, receiver: recv, service: sv }, n))
}

// ---------------------------------------------------------------------------
// The machine codec
// ---------------------------------------------------------------------------

/// Writes and reads the compact wire form of a device-to-phone record.
pub struct ProtectorMachine {}

impl ProtectorMachine {
    /// Renders the record as space-delimited tokens.
    pub fn dump(&self, o: &Protector) -> (r: String)
        ensures
            r@ == join_on(protector_tokens(*o), ' '),
    {
        let mut toks: Vec<Vec<char>> = Vec::new();
        proof {
            assert(token_views(toks@) =~= Seq::<Seq<char>>::empty());
        }
        push_protector_tokens(&mut toks, o);
        proof {
            assert(Seq::<Seq<char>>::empty() + protector_tokens(*o) =~= protector_tokens(*o));
        }
        let joined = join_chars(&toks, ' ');
        chars_to_string(joined.as_slice())
    }

    /// Decodes a record from its wire form; tokens after the record are
    /// ignored.
    pub fn parse(&self, d: String) -> (r: Result<Protector, &'static str>)
        ensures
            match sp_protector(split_on(d@, ' '), 0) {
                Option::Some((p, j)) => r is Ok && r->Ok_0 == p,
                Option::None => r is Err,
            },
    {
        let chars = str_to_chars(d.as_str());
        let toks = split_chars(chars.as_slice(), ' ');
        match p_protector(&toks, 0) {
            Ok((p, _)) => Ok(p),
            Err(e) => Err(e),
        }
    }
}

/// Writes and reads the compact wire form of a phone-to-device record.
pub struct WatcherMachine {}

impl WatcherMachine {
    /// Renders the record as space-delimited tokens.
    pub fn dump(&self, o: &Watcher) -> (r: String)
        ensures
            r@ == join_on(watcher_tokens(o@), ' '),
    {
        let mut toks: Vec<Vec<char>> = Vec::new();
        proof {
            assert(token_views(toks@) =~= Seq::<Seq<char>>::empty());
        }
        push_watcher_tokens(&mut toks, o);
        proof {
            assert(Seq::<Seq<char>>::empty() + watcher_tokens(o@) =~= watcher_tokens(o@));
        }
        let joined = join_chars(&toks, ' ');
        chars_to_string(joined.as_slice())
    }

    /// Decodes a record from its wire form; tokens after the record are
    /// ignored.
    pub fn parse(&self, d: String) -> (r: Result<Watcher, &'static str>)
        ensures
            match sp_watcher(split_on(d@, ' '), 0) {
                Option::Some((w, j)) => r is Ok && r->Ok_0@ == w,
                Option::None => r is Err,
            },
    {
        let chars = str_to_chars(d.as_str());
        let toks = split_chars(chars.as_slice(), ' ');
        match p_watcher(&toks, 0) {
            Ok((w, _)) => Ok(w),
            Err(e) => Err(e),
        }
    }
}

// ---------------------------------------------------------------------------
// Round trips
// ---------------------------------------------------------------------------

proof fn lemma_int_token_clean(v: int)
    requires
        i64::MIN <= v <= i64::MAX,
    ensures
        !int36_token(v).contains(' '),
        int36_token(v) != star_token(),
        int36_token(v).len() >= 1,
{
    let radix: nat = 36;
    if v < 0 {
        lemma_radix_digits_value((-v) as nat, radix);
        let t = seq!['-'] + radix_digits((-v) as nat, radix);
        assert forall|i: int| 0 <= i < t.len() implies t[i] != ' ' by {
            if i >= 1 {
                assert(t[i] == radix_digits((-v) as nat, radix)[i - 1]);
                assert(0 <= char_digit36(t[i]) < 36);
            }
        }
        if t.contains(' ') {
            let i = choose|i: int| 0 <= i < t.len() && t[i] == ' ';
            assert(false);
        }
        assert(t.len() >= 2);
        assert(t[0] == '-');
    } else {
        lemma_radix_digits_value(v as nat, radix);
        let t = radix_digits(v as nat, radix);
        assert forall|i: int| 0 <= i < t.len() implies t[i] != ' ' by {
            assert(0 <= char_digit36(t[i]) < 36);
        }
        if t.contains(' ') {
            let i = choose|i: int| 0 <= i < t.len() && t[i] == ' ';
            assert(false);
        }
        assert(0 <= char_digit36(t[0]) < 36);
        if t == star_token() {
            assert(t[0] == '*');
        }
    }
}

proof fn lemma_simple_tokens_clean()
    ensures
        !star_token().contains(' '),
        !bool_token(true).contains(' '),
        !bool_token(false).contains(' '),
        star_token() != bool_token(true),
        star_token() != bool_token(false),
        bool_token(true) != bool_token(false),
{
    assert('t' as u32 == 116);
    assert('f' as u32 == 102);
    assert('*' as u32 == 42);
    assert(' ' as u32 == 32);
    if star_token().contains(' ') {
        let i = choose|i: int| 0 <= i < 1 && star_token()[i] == ' ';
        assert(false);
    }
    if bool_token(true).contains(' ') {
        let i = choose|i: int| 0 <= i < 1 && bool_token(true)[i] == ' ';
        assert(false);
    }
    if bool_token(false).contains(' ') {
        let i = choose|i: int| 0 <= i < 1 && bool_token(false)[i] == ' ';
        assert(false);
    }
    if bool_token(true) == bool_token(false) {
        assert(bool_token(true)[0] == 't');
        assert(bool_token(false)[0] == 'f');
        assert(false);
    }
    if star_token() == bool_token(true) {
        assert(star_token()[0] == '*');
        assert(false);
    }
    if star_token() == bool_token(false) {
        assert(star_token()[0] == '*');
        assert(false);
    }
}

proof fn lemma_escape_token_clean(ph: Seq<char>)
    ensures
        !escape_spec(ph).contains(' '),
        escape_spec(ph) != star_token(),
{
    lemma_escape_chars_shape(ph);
    assert('_' as u32 == 95);
    assert('*' as u32 == 42);
    assert(';' as u32 == 59);
    if ph.len() == 0 {
        if escape_spec(ph).contains(' ') {
            let i = choose|i: int| 0 <= i < 1 && escape_spec(ph)[i] == ' ';
            assert(false);
        }
        if escape_spec(ph) == star_token() {
            assert(escape_spec(ph)[0] == ';');
            assert(star_token()[0] == '*');
            assert(false);
        }
    } else {
        if escape_spec(ph).contains(' ') {
            let i = choose|i: int|
                0 <= i < escape_spec(ph).len() && escape_spec(ph)[i] == ' ';
            assert(false);
        }
        if escape_spec(ph) == star_token() {
            assert(escape_spec(ph).len() == 1);
            assert(escape_chars(ph)[0] == '*');
            if ph[0] == ' ' {
                assert(escape_chars(ph)[0] == '_');
                assert(false);
            } else {
                assert(ph[0] == '*');
                assert(escape_chars(ph) == seq!['*', '*'] + escape_chars(ph.skip(1)));
                assert(escape_chars(ph).len() >= 2);
                assert(false);
            }
        }
    }
}

/// Every token of a device-to-phone record is free of the delimiter.
proof fn lemma_protector_tokens_clean(p: Protector)
    ensures
        protector_tokens(p).len() >= 1,
        forall|t: int|
            0 <= t < protector_tokens(p).len() ==> !(#[trigger] protector_tokens(p)[t]).contains(
                ' ',
            ),
{
    lemma_simple_tokens_clean();
    match p.car_location {
        Option::Some(c) => {
            lemma_int_token_clean(c.position.latitude as int);
            lemma_int_token_clean(c.position.longitude as int);
            lemma_int_token_clean(c.accuracy as int);
            lemma_int_token_clean(c.battery as int);
            lemma_int_token_clean(c.timestamp as int);
        },
        Option::None => {},
    }
    match p.park_location {
        Option::Some(l) => {
            lemma_int_token_clean(l.position.latitude as int);
            lemma_int_token_clean(l.position.longitude as int);
            lemma_int_token_clean(l.accuracy as int);
        },
        Option::None => {},
    }
    match p.status {
        Option::Some(st) => {
            lemma_int_token_clean(st.code());
        },
        Option::None => {},
    }
}

/// Every token of a phone-to-device record is free of the delimiter.
proof fn lemma_watcher_tokens_clean(w: WatcherView)
    ensures
        watcher_tokens(w).len() >= 1,
        forall|t: int|
            0 <= t < watcher_tokens(w).len() ==> !(#[trigger] watcher_tokens(w)[t]).contains(' '),
{
    lemma_simple_tokens_clean();
    match w.receiver {
        Option::Some(r) => {
            lemma_int_token_clean(r.source.code());
            lemma_escape_token_clean(r.phone_number);
        },
        Option::None => {},
    }
}

proof fn lemma_sp_car_of_tokens(toks: Seq<Seq<char>>, i: int, c: CarLocation)
    requires
        0 <= i,
        i + 5 <= toks.len(),
        toks.subrange(i, i + 5) == car_location_tokens(c),
    ensures
        sp_car_location(toks, i) == Some((c, i + 5)),
{
    let seg = car_location_tokens(c);
    assert(toks[i] == seg[0]);
    assert(toks[i + 1] == seg[1]);
    assert(toks[i + 2] == seg[2]);
    assert(toks[i + 3] == seg[3]);
    assert(toks[i + 4] == seg[4]);
    lemma_int_roundtrip(c.position.latitude as int, 36);
    lemma_int_roundtrip(c.position.longitude as int, 36);
    lemma_int_roundtrip(c.accuracy as int, 36);
    lemma_int_roundtrip(c.battery as int, 36);
    lemma_int_roundtrip(c.timestamp as int, 36);
}

proof fn lemma_sp_park_of_tokens(toks: Seq<Seq<char>>, i: int, c: ParkLocation)
    requires
        0 <= i,
        i + 3 <= toks.len(),
        toks.subrange(i, i + 3) == park_location_tokens(c),
    ensures
        sp_park_location(toks, i) == Some((c, i + 3)),
{
    let seg = park_location_tokens(c);
    assert(toks[i] == seg[0]);
    assert(toks[i + 1] == seg[1]);
    assert(toks[i + 2] == seg[2]);
    lemma_int_roundtrip(c.position.latitude as int, 36);
    lemma_int_roundtrip(c.position.longitude as int, 36);
    lemma_int_roundtrip(c.accuracy as int, 36);
}

/// Decoding a dumped device-to-phone record gives the record back: the
/// record-level round trip, for every representable record.
#[verifier::rlimit(100)]
pub proof fn lemma_protector_roundtrip(p: Protector)
    ensures
        sp_protector(split_on(join_on(protector_tokens(p), ' '), ' '), 0) == Some(
            (p, protector_tokens(p).len() as int),
        ),
{
    let toks = protector_tokens(p);
    lemma_protector_tokens_clean(p);
    lemma_split_join(toks, ' ');
    lemma_simple_tokens_clean();
    let car_part: Seq<Seq<char>> = match p.car_location {
        Option::Some(c) => car_location_tokens(c),
        Option::None => seq![star_token()],
    };
    let park_part: Seq<Seq<char>> = match p.park_location {
        Option::Some(l) => park_location_tokens(l),
        Option::None => seq![star_token()],
    };
    let status_part: Seq<Seq<char>> = match p.status {
        Option::Some(st) => seq![int36_token(st.code())],
        Option::None => seq![star_token()],
    };
    let service_part: Seq<Seq<char>> = match p.service {
        Option::Some(sv) => seq![bool_token(sv.value)],
        Option::None => seq![star_token()],
    };
    let o1 = car_part.len() as int;
    let o2 = o1 + park_part.len() as int;
    let o3 = o2 + status_part.len() as int;
    let o4 = o3 + service_part.len() as int;
    assert(toks =~= ((car_part + park_part) + status_part) + service_part);
    assert(toks.len() == o4);
    match p.car_location {
        Option::Some(c) => {
            lemma_int_token_clean(c.position.latitude as int);
            assert(toks.subrange(0, 5) =~= car_part);
            assert(toks[0] == car_part[0]);
            lemma_sp_car_of_tokens(toks, 0, c);
            assert(sp_opt_car_location(toks, 0) == Some((Some(c), o1)));
        },
        Option::None => {
            assert(toks[0] == star_token());
            assert(sp_opt_car_location(toks, 0) == Some((None::<CarLocation>, o1)));
        },
    }
    match p.park_location {
        Option::Some(l) => {
            lemma_int_token_clean(l.position.latitude as int);
            assert(toks.subrange(o1, o1 + 3) =~= park_part);
            assert(toks[o1] == park_part[0]);
            lemma_sp_park_of_tokens(toks, o1, l);
            assert(sp_opt_park_location(toks, o1) == Some((Some(l), o2)));
        },
        Option::None => {
            assert(toks[o1] == star_token());
            assert(sp_opt_park_location(toks, o1) == Some((None::<ParkLocation>, o2)));
        },
    }
    match p.status {
        Option::Some(st) => {
            lemma_int_token_clean(st.code());
            assert(toks[o2] == int36_token(st.code()));
            lemma_int_roundtrip(st.code(), 36);
            assert(sp_opt_status(toks, o2) == Some((Some(st), o3)));
        },
        Option::None => {
            assert(toks[o2] == star_token());
            assert(sp_opt_status(toks, o2) == Some((None::<Status>, o3)));
        },
    }
    match p.service {
        Option::Some(sv) => {
            assert(toks[o3] == bool_token(sv.value));
            assert(sp_opt_bool(toks, o3) == Some((Some(sv.value), o4)));
        },
        Option::None => {
            assert(toks[o3] == star_token());
            assert(sp_opt_bool(toks, o3) == Some((None::<bool>, o4)));
        },
    }
}

/// Decoding a dumped phone-to-device record gives the record back, for every
/// record whose sender number holds no `_`: that character does not survive
/// the string escaping (see `lemma_escape_roundtrip`).
#[verifier::rlimit(100)]
pub proof fn lemma_watcher_roundtrip(w: WatcherView)
    requires
        w.receiver matches Some(r) ==> !r.phone_number.contains('_'),
    ensures
        sp_watcher(split_on(join_on(watcher_tokens(w), ' '), ' '), 0) == Some(
            (w, watcher_tokens(w).len() as int),
        ),
{
    let toks = watcher_tokens(w);
    lemma_watcher_tokens_clean(w);
    lemma_split_join(toks, ' ');
    lemma_simple_tokens_clean();
    let call_part: Seq<Seq<char>> = match w.call {
        Option::Some(c) => seq![bool_token(c.value)],
        Option::None => seq![star_token()],
    };
    let refresh_part: Seq<Seq<char>> = match w.refresh {
        Option::Some(c) => seq![bool_token(c.value)],
        Option::None => seq![star_token()],
    };
    let park_part: Seq<Seq<char>> = match w.park {
        Option::Some(c) => seq![bool_token(c.value)],
        Option::None => seq![star_token()],
    };
    let receiver_part: Seq<Seq<char>> = match w.receiver {
        Option::Some(r) => receiver_tokens(r),
        Option::None => seq![star_token()],
    };
    let service_part: Seq<Seq<char>> = match w.service {
        Option::Some(sv) => seq![bool_token(sv.value)],
        Option::None => seq![star_token()],
    };
    let o1 = call_part.len() as int;
    let o2 = o1 + refresh_part.len() as int;
    let o3 = o2 + park_part.len() as int;
    let o4 = o3 + receiver_part.len() as int;
    let o5 = o4 + service_part.len() as int;
    assert(toks =~= (((call_part + refresh_part) + park_part) + receiver_part) + service_part);
    assert(toks.len() == o5);
    match w.call {
        Option::Some(c) => {
            assert(toks[0] == bool_token(c.value));
            assert(sp_opt_bool(toks, 0) == Some((Some(c.value), o1)));
        },
        Option::None => {
            assert(toks[0] == star_token());
            assert(sp_opt_bool(toks, 0) == Some((None::<bool>, o1)));
        },
    }
    match w.refresh {
        Option::Some(c) => {
            assert(toks[o1] == bool_token(c.value));
            assert(sp_opt_bool(toks, o1) == Some((Some(c.value), o2)));
        },
        Option::None => {
            assert(toks[o1] == star_token());
            assert(sp_opt_bool(toks, o1) == Some((None::<bool>, o2)));
        },
    }
    match w.park {
        Option::Some(c) => {
            assert(toks[o2] == bool_token(c.value));
            assert(sp_opt_bool(toks, o2) == Some((Some(c.value), o3)));
        },
        Option::None => {
            assert(toks[o2] == star_token());
            assert(sp_opt_bool(toks, o2) == Some((None::<bool>, o3)));
        },
    }
    match w.receiver {
        Option::Some(r) => {
            lemma_int_token_clean(r.source.code());
            assert(toks[o3] == int36_token(r.source.code()));
            assert(toks[o3 + 1] == escape_spec(r.phone_number));
            lemma_int_roundtrip(r.source.code(), 36);
            lemma_escape_roundtrip(r.phone_number);
            assert(sp_receiver(toks, o3) == Some((r, o4)));
            assert(sp_opt_receiver(toks, o3) == Some((Some(r), o4)));
        },
        Option::None => {
            assert(toks[o3] == star_token());
            assert(sp_opt_receiver(toks, o3) == Some((None::<ReceiverView>, o4)));
        },
    }
    match w.service {
        Option::Some(sv) => {
            assert(toks[o4] == bool_token(sv.value));
            assert(sp_opt_bool(toks, o4) == Some((Some(sv.value), o5)));
        },
        Option::None => {
            assert(toks[o4] == star_token());
            assert(sp_opt_bool(toks, o4) == Some((None::<bool>, o5)));
        },
    }
}

// ---------------------------------------------------------------------------
// The human codec
// ---------------------------------------------------------------------------
//
// The human variant renders a prose summary instead of tokens: a map link,
// the accuracy and battery with two decimals, the time of the fix, and the
// parking situation.  It is write-only.

/// Decimal rendering of an integer.
pub open spec fn dec_chars(v: int) -> Seq<char> {
    dump_int_spec(v, 10)
}

/// A fixed-point 1e-6 value with exactly two decimals, rounded half away
/// from zero.
pub open spec fn fixed2_chars(v: int) -> Seq<char> {
    if v < 0 {
        seq!['-'] + fixed2_nonneg(-v)
    } else {
        fixed2_nonneg(v)
    }
}

pub open spec fn fixed2_nonneg(v: int) -> Seq<char>
    recommends
        v >= 0,
{
    let n2 = (v + 5000) / 10000;
    radix_digits((n2 / 100) as nat, 10) + seq![
        '.',
        digit36_char(n2 / 10 % 10),
        digit36_char(n2 % 10),
    ]
}

/// The `k` low decimal digits of `f`, zero-padded.
pub open spec fn pad_digits(f: nat, k: nat) -> Seq<char>
    decreases k,
{
    if k == 0 {
        Seq::empty()
    } else {
        pad_digits(f / 10, (k - 1) as nat).push(digit36_char((f % 10) as int))
    }
}

/// Drops trailing zero digits.
pub open spec fn strip_zeros(s: Seq<char>) -> Seq<char>
    decreases s.len(),
{
    if s.len() > 0 && s.last() == '0' {
        strip_zeros(s.drop_last())
    } else {
        s
    }
}

/// A coordinate in 1e-10 degrees, rendered as a plain decimal with the
/// fractional part trimmed of trailing zeros and omitted when it is zero.
pub open spec fn coord_chars(v: int) -> Seq<char> {
    if v < 0 {
        seq!['-'] + coord_nonneg(-v)
    } else {
        coord_nonneg(v)
    }
}

pub open spec fn coord_nonneg(v: int) -> Seq<char>
    recommends
        v >= 0,
{
    let ip = v / 10_000_000_000;
    let f = v % 10_000_000_000;
    if f == 0 {
        radix_digits(ip as nat, 10)
    } else {
        radix_digits(ip as nat, 10) + seq!['.'] + strip_zeros(pad_digits(f as nat, 10))
    }
}

/// The map link of a position.
pub open spec fn maps_link_chars(p: Position) -> Seq<char> {
    "https://maps.google.com/?q="@ + coord_chars(p.latitude as int) + seq![','] + coord_chars(
        p.longitude as int,
    )
}

/// The rendered time of a fix: the calendar text where the library can
/// render one, else the raw millisecond count.
pub open spec fn timestamp_text(ts: int) -> Seq<char> {
    let secs = div_trunc(ts, 1000);
    let nanos = (ts - secs * 1000) * 1_000_000;
    match iso_datetime_of(secs, nanos) {
        Option::Some(s) => s,
        Option::None => dec_chars(ts) + "millis"@,
    }
}

/// The whole prose summary of a device-to-phone record.  `park_distance` is
/// the distance in 1e-6 meters between the current and the park location,
/// used only when both are present.
pub open spec fn human_message(p: Protector, park_distance: Option<int>) -> Seq<char> {
    (match p.car_location {
        Option::Some(c) => maps_link_chars(c.position) + "\n\n"@ + fixed2_chars(c.accuracy as int)
            + " meters, "@ + fixed2_chars(c.battery as int * 100) + " %, "@ + timestamp_text(
            c.timestamp as int,
        ) + "\n\n"@,
        Option::None => Seq::empty(),
    }) + (if p.service is Some {
        "Service on\n\n"@
    } else {
        Seq::empty()
    }) + (match p.park_location {
        Option::Some(l) => match p.car_location {
            Option::Some(_) => "Park distance "@ + fixed2_chars(park_distance->Some_0)
                + " meters\n\n"@,
            Option::None => "Last park location\n\n"@ + maps_link_chars(l.position) + "\n\n"@
                + fixed2_chars(l.accuracy as int) + " meters\n\n"@,
        },
        Option::None => Seq::empty(),
    })
}

fn push_str_chars(out: &mut Vec<char>, s: &str)
    ensures
        final(out)@ == old(out)@ + s@,
{
    let cs = str_to_chars(s);
    let mut i: usize = 0;
    while i < cs.len()
        invariant
            i <= cs@.len(),
            cs@ == s@,
            out@ == old(out)@ + cs@.take(i as int),
        decreases cs@.len() - i,
    {
        out.push(cs[i]);
        i = i + 1;
        proof {
            assert(out@ =~= old(out)@ + cs@.take(i as int));
        }
    }
    proof {
        assert(out@ =~= old(out)@ + s@);
    }
}

/// Appends the decimal digits of a nonnegative value.
fn push_dec_u128(out: &mut Vec<char>, n: u128)
    ensures
        final(out)@ == old(out)@ + radix_digits(n as nat, 10),
{
    let ghost n0: nat = n as nat;
    let mut q = n;
    let mut buf: Vec<char> = Vec::new();
    if q == 0 {
        let c: char = 48u8 as char;
        proof {
            assert(c == digit36_char(0));
            assert(radix_digits(n0, 10) =~= seq![c]);
        }
        buf.push(c);
        proof {
            assert(buf@.reverse() =~= seq![c]);
        }
    } else {
        proof {
            assert(radix_digits(n0, 10) + Seq::<char>::empty().reverse() =~= radix_digits(n0, 10));
        }
        while q > 0
            invariant
                radix_digits(n0, 10) == if q > 0 {
                    radix_digits(q as nat, 10) + buf@.reverse()
                } else {
                    buf@.reverse()
                },
            decreases q,
        {
            let d: u128 = q % 10;
            let c: char = ((48 + d) as u8) as char;
            proof {
                assert(c == digit36_char(d as int));
            }
            let ghost old_buf = buf@;
            let ghost old_q = q as nat;
            buf.push(c);
            q = q / 10;
            proof {
                assert(buf@.reverse() =~= seq![c] + old_buf.reverse());
                if old_q >= 10 {
                    assert(radix_digits(old_q, 10) == radix_digits(old_q / 10, 10).push(
                        digit36_char((old_q % 10) as int),
                    ));
                    assert(radix_digits(old_q / 10, 10).push(c) + old_buf.reverse()
                        =~= radix_digits(old_q / 10, 10) + (seq![c] + old_buf.reverse()));
                } else {
                    assert(radix_digits(old_q, 10) =~= seq![c]);
                    assert(seq![c] + old_buf.reverse() =~= buf@.reverse());
                }
            }
        }
    }
    let ghost pre = out@;
    let mut i: usize = buf.len();
    while i > 0
        invariant
            i <= buf@.len(),
            out@ == pre + buf@.skip(i as int).reverse(),
        decreases i,
    {
        i = i - 1;
        out.push(buf[i]);
        proof {
            assert(out@ =~= pre + buf@.skip(i as int).reverse());
        }
    }
    proof {
        assert(buf@.skip(0) =~= buf@);
    }
}

/// Appends a fixed-point 1e-6 value with two decimals.
fn push_fixed2(out: &mut Vec<char>, v: i128)
    requires
        -170_000_000_000_000_000_000_000_000_000_000_000 < v
            < 170_000_000_000_000_000_000_000_000_000_000_000,
    ensures
        final(out)@ == old(out)@ + fixed2_chars(v as int),
{
    let m: i128 = if v < 0 {
        out.push('-');
        -v
    } else {
        v
    };
    let ghost pre = out@;
    let n2: i128 = (m + 5000) / 10000;
    proof {
        assert(n2 as int == ((m as int) + 5000) / 10000);
        assert(n2 >= 0);
    }
    push_dec_u128(out, (n2 / 100) as u128);
    let d1: i128 = n2 / 10 % 10;
    let d0: i128 = n2 % 10;
    let c1: char = ((48 + d1) as u8) as char;
    let c0: char = ((48 + d0) as u8) as char;
    proof {
        assert(c1 == digit36_char(d1 as int));
        assert(c0 == digit36_char(d0 as int));
    }
    out.push('.');
    out.push(c1);
    out.push(c0);
    proof {
        assert(out@ =~= pre + fixed2_nonneg(m as int));
        if v < 0 {
            assert(out@ =~= old(out)@ + (seq!['-'] + fixed2_nonneg(m as int)));
        }
    }
}

/// Appends a coordinate in 1e-10 degrees.
fn push_coord(out: &mut Vec<char>, v: i64)
    ensures
        final(out)@ == old(out)@ + coord_chars(v as int),
{
    let m: u64 = if v < 0 {
        out.push('-');
        (-(v as i128)) as u64
    } else {
        v as u64
    };
    let ghost pre = out@;
    let ip: u64 = m / 10_000_000_000;
    let f: u64 = m % 10_000_000_000;
    push_dec_u128(out, ip as u128);
    if f > 0 {
        out.push('.');
        let ghost pre2 = out@;
        let mut buf: Vec<char> = Vec::new();
        let mut fq: u64 = f;
        let mut k: usize = 0;
        proof {
            assert(pad_digits(f as nat, 10) + Seq::<char>::empty().reverse() =~= pad_digits(
                f as nat,
                10,
            ));
        }
        while k < 10
            invariant
                k <= 10,
                buf@.len() == k,
                pad_digits(f as nat, 10) == pad_digits(fq as nat, (10 - k) as nat)
                    + buf@.reverse(),
            decreases 10 - k,
        {
            let d: u64 = fq % 10;
            let c: char = ((48 + d) as u8) as char;
            proof {
                assert(c == digit36_char(d as int));
            }
            let ghost old_buf = buf@;
            let ghost old_fq = fq as nat;
            buf.push(c);
            fq = fq / 10;
            k = k + 1;
            proof {
                assert(buf@.reverse() =~= seq![c] + old_buf.reverse());
                assert(pad_digits(old_fq, (11 - k) as nat) == pad_digits(
                    fq as nat,
                    (10 - k) as nat,
                ).push(c));
                assert(pad_digits(fq as nat, (10 - k) as nat).push(c) + old_buf.reverse()
                    =~= pad_digits(fq as nat, (10 - k) as nat) + (seq![c] + old_buf.reverse()));
            }
        }
        proof {
            assert(pad_digits(fq as nat, 0) =~= Seq::<char>::empty());
            assert(Seq::<char>::empty() + buf@.reverse() =~= buf@.reverse());
        }
        // the padded digits, most significant first
        let mut pd: Vec<char> = Vec::new();
        let mut i: usize = buf.len();
        while i > 0
            invariant
                i <= buf@.len(),
                pd@ == buf@.skip(i as int).reverse(),
            decreases i,
        {
            i = i - 1;
            pd.push(buf[i]);
            proof {
                assert(pd@ =~= buf@.skip(i as int).reverse());
            }
        }
        proof {
            assert(buf@.skip(0) =~= buf@);
            assert(pd@ == pad_digits(f as nat, 10));
        }
        let mut end: usize = pd.len();
        while end > 0 && pd[end - 1] == '0'
            invariant
                end <= pd@.len(),
                forall|j: int| end <= j < pd@.len() ==> pd@[j] == '0',
            decreases end,
        {
            end = end - 1;
        }
        proof {
            lemma_strip_take(pd@, end as int);
        }
        let mut j: usize = 0;
        let ghost pre3 = out@;
        while j < end
            invariant
                j <= end,
                end <= pd@.len(),
                out@ == pre3 + pd@.take(end as int).take(j as int),
            decreases end - j,
        {
            out.push(pd[j]);
            j = j + 1;
            proof {
                assert(pd@.take(end as int).take(j as int) =~= pd@.take(end as int).take(
                    j as int - 1,
                ).push(pd@[j as int - 1]));
                assert(out@ =~= pre3 + pd@.take(end as int).take(j as int));
            }
        }
        proof {
            assert(pd@.take(end as int).take(end as int) =~= pd@.take(end as int));
            assert(out@ =~= pre + ((radix_digits(ip as nat, 10) + seq!['.']) + strip_zeros(
                pad_digits(f as nat, 10),
            )));
            assert(out@ =~= pre + coord_nonneg(m as int));
        }
    } else {
        proof {
            assert(out@ =~= pre + coord_nonneg(m as int));
        }
    }
    proof {
        if v < 0 {
            assert(out@ =~= old(out)@ + (seq!['-'] + coord_nonneg(m as int)));
        }
    }
}

proof fn lemma_strip_take(s: Seq<char>, e: int)
    requires
        0 <= e <= s.len(),
        forall|j: int| e <= j < s.len() ==> s[j] == '0',
        e > 0 ==> s[e - 1] != '0',
    ensures
        strip_zeros(s) == s.take(e),
    decreases s.len(),
{
    if s.len() == e {
        assert(s.take(e) =~= s);
        if e > 0 {
            assert(s.last() != '0');
        }
    } else {
        assert(s.last() == '0');
        assert forall|j: int| e <= j < s.drop_last().len() implies s.drop_last()[j] == '0' by {
            assert(s.drop_last()[j] == s[j]);
        }
        if e > 0 {
            assert(s.drop_last()[e - 1] == s[e - 1]);
        }
        lemma_strip_take(s.drop_last(), e);
        assert(s.drop_last().take(e) =~= s.take(e));
    }
}

/// The framed compact wire form of a status message: the fixed prefix, then
/// the record's tokens.
pub open spec fn machine_message_chars(p: Protector) -> Seq<char> {
    "$tATA/"@ + join_on(protector_tokens(p), ' ')
}

/// Renders a fixed-point 1e-6 value with two decimals as a string.
pub fn fixed2_string(v: i64) -> (r: String)
    ensures
        r@ == fixed2_chars(v as int),
{
    let mut out: Vec<char> = Vec::new();
    push_fixed2(&mut out, v as i128);
    chars_to_string(out.as_slice())
}

/// Spec image of an optional distance argument.
pub open spec fn opt_int(v: Option<i64>) -> Option<int> {
    match v {
        Option::Some(d) => Some(d as int),
        Option::None => None,
    }
}

/// Writes the prose form of a device-to-phone record.  This variant is
/// write-only: there is no parse.
pub struct ProtectorHuman {}

impl ProtectorHuman {
    /// Renders the prose summary.  `park_distance` is the distance in 1e-6
    /// meters between the current and the park location; it is read only
    /// when both locations are present, and must be supplied then.
    #[verifier::rlimit(100)]
    pub fn dump(&self, o: &Protector, park_distance: Option<i64>) -> (r: String)
        requires
            o.car_location is Some && o.park_location is Some ==> park_distance is Some,
        ensures
            r@ == human_message(*o, opt_int(park_distance)),
    {
        let mut out: Vec<char> = Vec::new();
        match &o.car_location {
            Option::Some(c) => {
                push_str_chars(&mut out, "https://maps.google.com/?q=");
                push_coord(&mut out, c.position.latitude);
                out.push(',');
                push_coord(&mut out, c.position.longitude);
                push_str_chars(&mut out, "\n\n");
                push_fixed2(&mut out, c.accuracy as i128);
                push_str_chars(&mut out, " meters, ");
                push_fixed2(&mut out, (c.battery as i128) * 100);
                push_str_chars(&mut out, " %, ");
                let ts = c.timestamp;
                let ts128 = ts as i128;
                let secs128: i128 = if ts128 >= 0 {
                    ts128 / 1000
                } else {
                    -((-ts128) / 1000)
                };
                proof {
                    assert(secs128 as int == div_trunc(ts as int, 1000));
                }
                let secs: i64 = secs128 as i64;
                let nanos: i32 = ((ts128 - secs128 * 1000) * 1_000_000) as i32;
                match format_unix_datetime(secs, nanos) {
                    Option::Some(t) => {
                        push_str_chars(&mut out, t.as_str());
                    },
                    Option::None => {
                        let mc = int_chars_radix(ts, 10);
                        let mut q: usize = 0;
                        let ghost pre = out@;
                        while q < mc.len()
                            invariant
                                q <= mc@.len(),
                                out@ == pre + mc@.take(q as int),
                            decreases mc@.len() - q,
                        {
                            out.push(mc[q]);
                            q = q + 1;
                            proof {
                                assert(out@ =~= pre + mc@.take(q as int));
                            }
                        }
                        proof {
                            assert(mc@.take(mc@.len() as int) =~= mc@);
                        }
                        push_str_chars(&mut out, "millis");
                    },
                }
                push_str_chars(&mut out, "\n\n");
                proof {
                    assert(out@ =~= maps_link_chars(c.position) + "\n\n"@ + fixed2_chars(
                        c.accuracy as int,
                    ) + " meters, "@ + fixed2_chars(c.battery as int * 100) + " %, "@
                        + timestamp_text(c.timestamp as int) + "\n\n"@);
                }
            },
            Option::None => {},
        }
        let ghost car_part = out@;
        if o.service.is_some() {
            push_str_chars(&mut out, "Service on\n\n");
        }
        let ghost service_done = out@;
        match &o.park_location {
            Option::Some(l) => {
                match &o.car_location {
                    Option::Some(_) => {
                        push_str_chars(&mut out, "Park distance ");
                        let d = match park_distance {
                            Option::Some(d) => d,
                            Option::None => 0,
                        };
                        push_fixed2(&mut out, d as i128);
                        push_str_chars(&mut out, " meters\n\n");
                        proof {
                            assert(out@ =~= service_done + ("Park distance "@ + fixed2_chars(
                                opt_int(park_distance)->Some_0,
                            ) + " meters\n\n"@));
                        }
                    },
                    Option::None => {
                        push_str_chars(&mut out, "Last park location\n\n");
                        push_str_chars(&mut out, "https://maps.google.com/?q=");
                        push_coord(&mut out, l.position.latitude);
                        out.push(',');
                        push_coord(&mut out, l.position.longitude);
                        push_str_chars(&mut out, "\n\n");
                        push_fixed2(&mut out, l.accuracy as i128);
                        push_str_chars(&mut out, " meters\n\n");
                        proof {
                            assert(out@ =~= service_done + ("Last park location\n\n"@
                                + maps_link_chars(l.position) + "\n\n"@ + fixed2_chars(
                                l.accuracy as int,
                            ) + " meters\n\n"@));
                        }
                    },
                }
            },
            Option::None => {},
        }
        proof {
            assert(out@ =~= human_message(*o, opt_int(park_distance)));
        }
        chars_to_string(out.as_slice())
    }
}

/// What the prose command parser accepts: six fixed phrases, each standing
/// for one flag of a phone-to-device record.
pub open spec fn watcher_human_spec(s: Seq<char>) -> Option<WatcherView> {
    let none = WatcherView {
        call: None,
        refresh: None,
        park: None,
        receiver: None,
        service: None,
    };
    if s == "location"@ {
        Some(WatcherView { refresh: Some(Refresh { value: true }), ..none })
    } else if s == "call"@ {
        Some(WatcherView { call: Some(Call { value: true }), ..none })
    } else if s == "park on"@ {
        Some(WatcherView { park: Some(Park { value: true }), ..none })
    } else if s == "park off"@ {
        Some(WatcherView { park: Some(Park { value: false }), ..none })
    } else if s == "service on"@ {
        Some(WatcherView { service: Some(Service { value: true }), ..none })
    } else if s == "service off"@ {
        Some(WatcherView { service: Some(Service { value: false }), ..none })
    } else {
        None
    }
}

/// Reads the prose command form of a phone-to-device record.  This variant
/// is read-only: there is no dump.
pub struct WatcherHuman {}

impl WatcherHuman {
    /// Decodes one of the six fixed command phrases.
    pub fn parse(&self, d: String) -> (r: Result<Watcher, &'static str>)
        ensures
            match watcher_human_spec(d@) {
                Option::Some(w) => r is Ok && r->Ok_0@ == w,
                Option::None => r is Err,
            },
    {
        let none = Watcher { call: None, refresh: None, park: None, receiver: None, service: None };
        if str_eq(d.as_str(), "location") {
            Ok(Watcher { refresh: Some(Refresh { value: true }), ..none })
        } else if str_eq(d.as_str(), "call") {
            Ok(Watcher { call: Some(Call { value: true }), ..none })
        } else if str_eq(d.as_str(), "park on") {
            Ok(Watcher { park: Some(Park { value: true }), ..none })
        } else if str_eq(d.as_str(), "park off") {
            Ok(Watcher { park: Some(Park { value: false }), ..none })
        } else if str_eq(d.as_str(), "service on") {
            Ok(Watcher { service: Some(Service { value: true }), ..none })
        } else if str_eq(d.as_str(), "service off") {
            Ok(Watcher { service: Some(Service { value: false }), ..none })
        } else {
            Err("invalid watcher command")
        }
    }
}

} // verus!
