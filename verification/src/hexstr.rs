//! Hex text codecs for the SMS transport.
//!
//! Message text and destination numbers travel as UCS2 hex: four upper-case
//! hex digits per UTF-16 code unit.  Plain byte payloads travel as two hex
//! digits per byte.

use vstd::prelude::*;

verus! {

use crate::poro::{parse_int_radix, parse_int_spec};
use crate::text::{char_from_u32, chars_to_string, str_to_chars, string_from_utf8};
use vstd::utf8::{decode_utf8, valid_utf8};

/// The upper-case hex digit character of a value below 16.
pub open spec fn hex_upper_char(d: int) -> char
    recommends
        0 <= d < 16,
{
    if d < 10 {
        ((d + 48) as u8) as char
    } else {
        ((d + 55) as u8) as char
    }
}

/// Two upper-case hex digits of a byte.
pub open spec fn byte_hex(b: int) -> Seq<char>
    recommends
        0 <= b < 256,
{
    seq![hex_upper_char(b / 16), hex_upper_char(b % 16)]
}

/// The hex text of a byte string.
pub open spec fn bytes_hex(s: Seq<u8>) -> Seq<char>
    decreases s.len(),
{
    if s.len() == 0 {
        Seq::empty()
    } else {
        byte_hex(s[0] as int) + bytes_hex(s.skip(1))
    }
}

/// Four upper-case hex digits of a 16-bit unit.
pub open spec fn unit_hex(u: int) -> Seq<char>
    recommends
        0 <= u < 65536,
{
    seq![
        hex_upper_char(u / 4096 % 16),
        hex_upper_char(u / 256 % 16),
        hex_upper_char(u / 16 % 16),
        hex_upper_char(u % 16),
    ]
}

/// The hex text of a unit string.
pub open spec fn units_hex(s: Seq<u16>) -> Seq<char>
    decreases s.len(),
{
    if s.len() == 0 {
        Seq::empty()
    } else {
        unit_hex(s[0] as int) + units_hex(s.skip(1))
    }
}

/// What one hex chunk of the wire parses to: an optional `+`, then hex
/// digits of either case, value within `bound`; a `-`, a stray character or
/// an overflow is rejected, as the integer reader of the chunks rejects
/// them.
pub open spec fn hex_chunk_value(c: Seq<char>, bound: int) -> Option<int> {
    if c.len() > 0 && c[0] == '-' {
        None
    } else {
        match parse_int_spec(c, 16) {
            Option::Some(v) => if 0 <= v <= bound {
                Some(v)
            } else {
                None
            },
            Option::None => None,
        }
    }
}

/// What a hex text parses to when cut into chunks of `k` characters: all
/// values, or nothing if the length is no multiple of `k` or a chunk is
/// rejected.
pub open spec fn hex_chunks(s: Seq<char>, k: int, bound: int) -> Option<Seq<int>>
    recommends
        k >= 1,
    decreases s.len(),
    when k >= 1
{
    if s.len() == 0 {
        Some(Seq::empty())
    } else if s.len() < k {
        None
    } else {
        match hex_chunk_value(s.take(k), bound) {
            Option::Some(v) => match hex_chunks(s.skip(k), k, bound) {
                Option::Some(rest) => Some(seq![v] + rest),
                Option::None => None,
            },
            Option::None => None,
        }
    }
}

/// Every value a chunked hex parse yields lies within the bound.
proof fn lemma_hex_chunks_bounds(s: Seq<char>, k: int, bound: int)
    requires
        k >= 1,
    ensures
        hex_chunks(s, k, bound) matches Some(vs) ==> forall|j: int|
            0 <= j < vs.len() ==> 0 <= #[trigger] vs[j] <= bound,
    decreases s.len(),
{
    if s.len() == 0 {
    } else if s.len() < k {
    } else {
        lemma_hex_chunks_bounds(s.skip(k), k, bound);
        match hex_chunk_value(s.take(k), bound) {
            Option::Some(v) => {
                match hex_chunks(s.skip(k), k, bound) {
                    Option::Some(rest) => {
                        let vs = seq![v] + rest;
                        assert forall|j: int| 0 <= j < vs.len() implies 0 <= #[trigger] vs[j]
                            <= bound by {
                            if j >= 1 {
                                assert(vs[j] == rest[j - 1]);
                            }
                        }
                    },
                    Option::None => {},
                }
            },
            Option::None => {},
        }
    }
}

/// Reads one bounded hex chunk.
fn parse_hex_chunk(c: &[char], bound: i64) -> (r: Result<i64, &'static str>)
    requires
        bound >= 0,
    ensures
        match hex_chunk_value(c@, bound as int) {
            Option::Some(v) => r is Ok && r->Ok_0 == v,
            Option::None => r is Err,
        },
{
    if c.len() > 0 && c[0] == '-' {
        return Err("negative hex value");
    }
    match parse_int_radix(c, 16) {
        Ok(v) => {
            if 0 <= v && v <= bound {
                Ok(v)
            } else {
                Err("hex value out of range")
            }
        },
        Err(e) => Err(e),
    }
}

/// Reads a hex text as values of `k`-character chunks.
fn parse_hex_values(s: &[char], k: usize, bound: i64) -> (r: Result<Vec<i64>, &'static str>)
    requires
        1 <= k,
        bound >= 0,
    ensures
        match hex_chunks(s@, k as int, bound as int) {
            Option::Some(vs) => r is Ok && r->Ok_0@.len() == vs.len() && (forall|j: int|
                0 <= j < vs.len() ==> r->Ok_0@[j] as int == vs[j]),
            Option::None => r is Err,
        },
{
    let n = s.len();
    let mut out: Vec<i64> = Vec::new();
    let mut i: usize = 0;
    proof {
        assert(s@.skip(0) =~= s@);
        match hex_chunks(s@, k as int, bound as int) {
            Option::Some(vs) => {
                assert(out@.map_values(|x: i64| x as int) =~= Seq::<int>::empty());
                assert(Seq::<int>::empty() + vs =~= vs);
                assert(i == out@.len() * k);
            },
            Option::None => {},
        }
    }
    while i < n
        invariant
            1 <= k,
            bound >= 0,
            i <= n,
            n == s@.len(),
            match hex_chunks(s@, k as int, bound as int) {
                Option::Some(vs) => out@.len() <= vs.len() && i == out@.len() * k && (forall|
                    j: int,
                |
                    0 <= j < out@.len() ==> out@[j] as int == vs[j]) && (hex_chunks(
                    s@.skip(i as int),
                    k as int,
                    bound as int,
                ) matches Some(rest) && vs =~= out@.map_values(|x: i64| x as int) + rest),
                Option::None => hex_chunks(s@.skip(i as int), k as int, bound as int) is None,
            },
        decreases n - i,
    {
        let ghost tail = s@.skip(i as int);
        if n - i < k {
            proof {
                assert(tail.len() == n - i);
                assert(tail.len() > 0 && tail.len() < k);
                assert(hex_chunks(tail, k as int, bound as int) is None);
            }
            return Err("hex text length is no multiple of the chunk size");
        }
        let mut chunk: Vec<char> = Vec::new();
        let mut j: usize = 0;
        while j < k
            invariant
                j <= k,
                i + k <= n,
                n == s@.len(),
                chunk@ == s@.subrange(i as int, i as int + j as int),
            decreases k - j,
        {
            chunk.push(s[i + j]);
            j = j + 1;
            proof {
                assert(chunk@ =~= s@.subrange(i as int, i as int + j as int));
            }
        }
        proof {
            assert(chunk@ =~= tail.take(k as int));
        }
        match parse_hex_chunk(chunk.as_slice(), bound) {
            Ok(v) => {
                let ghost old_out = out@;
                out.push(v);
                i = i + k;
                proof {
                    assert(s@.skip(i as int) =~= tail.skip(k as int));
                    assert((old_out.len() + 1) * (k as int) == old_out.len() * (k as int) + (
                    k as int)) by (nonlinear_arith);
                    match hex_chunks(s@, k as int, bound as int) {
                        Option::Some(vs) => {
                            assert(out@.map_values(|x: i64| x as int) =~= old_out.map_values(
                                |x: i64| x as int,
                            ) + seq![v as int]);
                            assert(old_out.map_values(|x: i64| x as int) + (seq![v as int]
                                + hex_chunks(
                                s@.skip(i as int),
                                k as int,
                                bound as int,
                            )->Some_0) =~= (old_out.map_values(|x: i64| x as int) + seq![
                                v as int,
                            ]) + hex_chunks(s@.skip(i as int), k as int, bound as int)->Some_0);
                        },
                        Option::None => {},
                    }
                }
            },
            Err(e) => {
                proof {
                    assert(hex_chunks(tail, k as int, bound as int) is None);
                }
                return Err(e);
            },
        }
    }
    proof {
        assert(s@.skip(n as int) =~= Seq::<char>::empty());
        assert(hex_chunks(Seq::<char>::empty(), k as int, bound as int) == Some(
            Seq::<int>::empty(),
        ));
        match hex_chunks(s@, k as int, bound as int) {
            Option::Some(vs) => {
                assert(vs =~= out@.map_values(|x: i64| x as int));
            },
            Option::None => {},
        }
    }
    Ok(out)
}

/// Decodes a hex text into its bytes, two digits per byte.
pub fn decode_hex_u8(s: &str) -> (r: Result<Vec<u8>, &'static str>)
    ensures
        match hex_chunks(s@, 2, 255) {
            Option::Some(vs) => r is Ok && r->Ok_0@.len() == vs.len() && (forall|j: int|
                0 <= j < vs.len() ==> r->Ok_0@[j] as int == vs[j]),
            Option::None => r is Err,
        },
{
    let chars = str_to_chars(s);
    proof {
        lemma_hex_chunks_bounds(s@, 2, 255);
    }
    let vals = match parse_hex_values(chars.as_slice(), 2, 255) {
        Ok(v) => v,
        Err(e) => {
            return Err(e);
        },
    };
    proof {
        match hex_chunks(s@, 2, 255) {
            Option::Some(vs) => {
                assert forall|j: int| 0 <= j < vals@.len() implies 0 <= #[trigger] vals@[j]
                    <= 255 by {
                    assert(vals@[j] as int == vs[j]);
                }
            },
            Option::None => {
                assert(false);
            },
        }
    }
    let mut out: Vec<u8> = Vec::new();
    let mut i: usize = 0;
    while i < vals.len()
        invariant
            i <= vals@.len(),
            forall|j: int| 0 <= j < vals@.len() ==> 0 <= #[trigger] vals@[j] <= 255,
            out@.len() == i,
            forall|j: int| 0 <= j < i ==> out@[j] as int == vals@[j] as int,
        decreases vals@.len() - i,
    {
        out.push(vals[i] as u8);
        i = i + 1;
    }
    Ok(out)
}

/// Decodes a hex text into its 16-bit units, four digits per unit.
pub fn decode_hex_u16(s: &str) -> (r: Result<Vec<u16>, &'static str>)
    ensures
        match hex_chunks(s@, 4, 65535) {
            Option::Some(vs) => r is Ok && r->Ok_0@.len() == vs.len() && (forall|j: int|
                0 <= j < vs.len() ==> r->Ok_0@[j] as int == vs[j]),
            Option::None => r is Err,
        },
{
    let chars = str_to_chars(s);
    proof {
        lemma_hex_chunks_bounds(s@, 4, 65535);
    }
    let vals = match parse_hex_values(chars.as_slice(), 4, 65535) {
        Ok(v) => v,
        Err(e) => {
            return Err(e);
        },
    };
    proof {
        match hex_chunks(s@, 4, 65535) {
            Option::Some(vs) => {
                assert forall|j: int| 0 <= j < vals@.len() implies 0 <= #[trigger] vals@[j]
                    <= 65535 by {
                    assert(vals@[j] as int == vs[j]);
                }
            },
            Option::None => {
                assert(false);
            },
        }
    }
    let mut out: Vec<u16> = Vec::new();
    let mut i: usize = 0;
    while i < vals.len()
        invariant
            i <= vals@.len(),
            forall|j: int| 0 <= j < vals@.len() ==> 0 <= #[trigger] vals@[j] <= 65535,
            out@.len() == i,
            forall|j: int| 0 <= j < i ==> out@[j] as int == vals@[j] as int,
        decreases vals@.len() - i,
    {
        out.push(vals[i] as u16);
        i = i + 1;
    }
    Ok(out)
}

// ---------------------------------------------------------------------------
// UTF-16
// ---------------------------------------------------------------------------

/// The UTF-16 code units of one character: itself for the basic plane, a
/// surrogate pair above it.
pub open spec fn utf16_units(c: char) -> Seq<u16> {
    let u = c as u32;
    if u < 0x10000 {
        seq![u as u16]
    } else {
        let v = u - 0x10000;
        seq![(0xD800 + v / 0x400) as u16, (0xDC00 + v % 0x400) as u16]
    }
}

/// The UTF-16 encoding of a string.
pub open spec fn encode_utf16_seq(s: Seq<char>) -> Seq<u16>
    decreases s.len(),
{
    if s.len() == 0 {
        Seq::empty()
    } else {
        utf16_units(s[0]) + encode_utf16_seq(s.skip(1))
    }
}

/// Whether a unit string is a well-formed UTF-16 encoding: no unpaired or
/// reversed surrogates.
pub open spec fn utf16_decodable(units: Seq<u16>) -> bool
    decreases units.len(),
{
    if units.len() == 0 {
        true
    } else {
        let u = units[0];
        if u < 0xD800 || u >= 0xE000 {
            utf16_decodable(units.skip(1))
        } else if u < 0xDC00 {
            units.len() >= 2 && 0xDC00 <= units[1] < 0xE000 && utf16_decodable(units.skip(2))
        } else {
            false
        }
    }
}

proof fn lemma_encode_utf16_push(s: Seq<char>, c: char)
    ensures
        encode_utf16_seq(s.push(c)) == encode_utf16_seq(s) + utf16_units(c),
    decreases s.len(),
{
    if s.len() == 0 {
        assert(s.push(c)[0] == c);
        assert(s.push(c).skip(1) =~= Seq::<char>::empty());
        assert(encode_utf16_seq(Seq::<char>::empty()) =~= Seq::<u16>::empty());
        assert(encode_utf16_seq(s.push(c)) == utf16_units(c) + encode_utf16_seq(
            s.push(c).skip(1),
        ));
        assert(utf16_units(c) + Seq::<u16>::empty() =~= utf16_units(c));
        assert(encode_utf16_seq(s) + utf16_units(c) =~= utf16_units(c));
    } else {
        assert(s.push(c).skip(1) =~= s.skip(1).push(c));
        lemma_encode_utf16_push(s.skip(1), c);
        assert(s.push(c)[0] == s[0]);
        assert(utf16_units(s[0]) + (encode_utf16_seq(s.skip(1)) + utf16_units(c)) =~= (
        utf16_units(s[0]) + encode_utf16_seq(s.skip(1))) + utf16_units(c));
    }
}

/// Encodes a string's characters into UTF-16 code units.
pub fn encode_utf16_units(chars: &[char]) -> (r: Vec<u16>)
    ensures
        r@ == encode_utf16_seq(chars@),
{
    let mut out: Vec<u16> = Vec::new();
    let mut i: usize = 0;
    proof {
        assert(chars@.take(0) =~= Seq::<char>::empty());
    }
    while i < chars.len()
        invariant
            i <= chars@.len(),
            out@ == encode_utf16_seq(chars@.take(i as int)),
        decreases chars@.len() - i,
    {
        let c = chars[i];
        let u = c as u32;
        let ghost pre = out@;
        if u < 0x10000 {
            out.push(u as u16);
            proof {
                assert(out@ =~= pre + utf16_units(c));
            }
        } else {
            let v = u - 0x10000;
            out.push((0xD800 + v / 0x400) as u16);
            out.push((0xDC00 + v % 0x400) as u16);
            proof {
                assert(out@ =~= pre + utf16_units(c));
            }
        }
        i = i + 1;
        proof {
            assert(chars@.take(i as int) =~= chars@.take(i as int - 1).push(chars@[i as int - 1]));
            lemma_encode_utf16_push(chars@.take(i as int - 1), chars@[i as int - 1]);
        }
    }
    proof {
        assert(chars@.take(chars@.len() as int) =~= chars@);
    }
    out
}

/// Decodes UTF-16 code units back into characters: accepts exactly the
/// well-formed encodings, and what it accepts encodes back to the input.
pub fn decode_utf16_units(units: &[u16]) -> (r: Result<Vec<char>, &'static str>)
    ensures
        r is Ok <==> utf16_decodable(units@),
        r matches Ok(cs) ==> encode_utf16_seq(cs@) == units@,
{
    let n = units.len();
    let mut out: Vec<char> = Vec::new();
    let mut i: usize = 0;
    proof {
        assert(units@.skip(0) =~= units@);
        assert(encode_utf16_seq(Seq::<char>::empty()) + units@ =~= units@);
    }
    while i < n
        invariant
            i <= n,
            n == units@.len(),
            utf16_decodable(units@) == utf16_decodable(units@.skip(i as int)),
            encode_utf16_seq(out@) + units@.skip(i as int) =~= units@,
        decreases n - i,
    {
        let ghost tail = units@.skip(i as int);
        let u = units[i];
        proof {
            assert(tail[0] == units@[i as int]);
        }
        if u < 0xD800 || u >= 0xE000 {
            let c = match crate::text::char_from_u32(u as u32) {
                Option::Some(c) => c,
                Option::None => {
                    proof {
                        assert(false);
                    }
                    return Err("unreachable");
                },
            };
            let ghost old_out = out@;
            out.push(c);
            i = i + 1;
            proof {
                lemma_encode_utf16_push(old_out, c);
                assert(utf16_units(c) =~= seq![u]);
                assert(tail.skip(1) =~= units@.skip(i as int));
                assert((encode_utf16_seq(old_out) + seq![u]) + units@.skip(i as int)
                    =~= encode_utf16_seq(old_out) + (seq![u] + units@.skip(i as int)));
                assert(seq![u] + units@.skip(i as int) =~= tail);
            }
        } else if u < 0xDC00 {
            if i + 1 >= n {
                proof {
                    assert(!utf16_decodable(tail));
                }
                return Err("unpaired lead surrogate");
            }
            let u2 = units[i + 1];
            proof {
                assert(tail[1] == units@[i as int + 1]);
            }
            if !(0xDC00 <= u2 && u2 < 0xE000) {
                proof {
                    assert(!utf16_decodable(tail));
                }
                return Err("missing trail surrogate");
            }
            let scalar: u32 = 0x10000 + ((u as u32) - 0xD800) * 0x400 + ((u2 as u32) - 0xDC00);
            let c = match crate::text::char_from_u32(scalar) {
                Option::Some(c) => c,
                Option::None => {
                    proof {
                        assert(false);
                    }
                    return Err("unreachable");
                },
            };
            let ghost old_out = out@;
            out.push(c);
            i = i + 2;
            proof {
                lemma_encode_utf16_push(old_out, c);
                let v = (scalar - 0x10000) as int;
                assert(v == ((u as int) - 0xD800) * 0x400 + ((u2 as int) - 0xDC00));
                assert(v / 0x400 == (u as int) - 0xD800 && v % 0x400 == (u2 as int) - 0xDC00)
                    by (nonlinear_arith)
                    requires
                        v == ((u as int) - 0xD800) * 0x400 + ((u2 as int) - 0xDC00),
                        0 <= (u2 as int) - 0xDC00 < 0x400,
                        0 <= (u as int) - 0xD800,
                ;
                assert(utf16_units(c) =~= seq![u, u2]);
                assert(tail.skip(2) =~= units@.skip(i as int));
                assert((encode_utf16_seq(old_out) + seq![u, u2]) + units@.skip(i as int)
                    =~= encode_utf16_seq(old_out) + (seq![u, u2] + units@.skip(i as int)));
                assert(seq![u, u2] + units@.skip(i as int) =~= tail);
            }
        } else {
            proof {
                assert(!utf16_decodable(tail));
            }
            return Err("stray trail surrogate");
        }
    }
    proof {
        assert(units@.skip(n as int) =~= Seq::<u16>::empty());
        assert(encode_utf16_seq(out@) + Seq::<u16>::empty() =~= encode_utf16_seq(out@));
    }
    Ok(out)
}

// ---------------------------------------------------------------------------
// The four hex text forms
// ---------------------------------------------------------------------------

fn push_byte_hex(out: &mut Vec<char>, b: u8)
    ensures
        final(out)@ == old(out)@ + byte_hex(b as int),
{
    let hi: u8 = b / 16;
    let lo: u8 = b % 16;
    let c1: char = if hi < 10 {
        (48 + hi) as char
    } else {
        (55 + hi) as char
    };
    let c0: char = if lo < 10 {
        (48 + lo) as char
    } else {
        (55 + lo) as char
    };
    proof {
        assert(c1 == hex_upper_char(hi as int));
        assert(c0 == hex_upper_char(lo as int));
    }
    out.push(c1);
    out.push(c0);
    proof {
        assert(out@ =~= old(out)@ + byte_hex(b as int));
    }
}

fn push_unit_hex(out: &mut Vec<char>, u: u16)
    ensures
        final(out)@ == old(out)@ + unit_hex(u as int),
{
    let d3: u16 = u / 4096 % 16;
    let d2: u16 = u / 256 % 16;
    let d1: u16 = u / 16 % 16;
    let d0: u16 = u % 16;
    let c3: char = if d3 < 10 {
        (48 + d3 as u8) as char
    } else {
        (55 + d3 as u8) as char
    };
    let c2: char = if d2 < 10 {
        (48 + d2 as u8) as char
    } else {
        (55 + d2 as u8) as char
    };
    let c1: char = if d1 < 10 {
        (48 + d1 as u8) as char
    } else {
        (55 + d1 as u8) as char
    };
    let c0: char = if d0 < 10 {
        (48 + d0 as u8) as char
    } else {
        (55 + d0 as u8) as char
    };
    proof {
        assert(c3 == hex_upper_char(u as int / 4096 % 16));
        assert(c2 == hex_upper_char(u as int / 256 % 16));
        assert(c1 == hex_upper_char(u as int / 16 % 16));
        assert(c0 == hex_upper_char(u as int % 16));
    }
    out.push(c3);
    out.push(c2);
    out.push(c1);
    out.push(c0);
    proof {
        assert(out@ =~= old(out)@ + unit_hex(u as int));
    }
}

/// Renders a byte payload as two upper-case hex digits per byte.
pub fn encode_utf8_hex_string(v: &[u8]) -> (r: String)
    ensures
        r@ == bytes_hex(v@),
{
    let mut out: Vec<char> = Vec::new();
    let mut i: usize = 0;
    proof {
        assert(v@.skip(0) =~= v@);
        assert(Seq::<char>::empty() + bytes_hex(v@) =~= bytes_hex(v@));
    }
    while i < v.len()
        invariant
            i <= v@.len(),
            bytes_hex(v@) == out@ + bytes_hex(v@.skip(i as int)),
        decreases v@.len() - i,
    {
        let ghost tail = v@.skip(i as int);
        let ghost pre = out@;
        proof {
            assert(tail[0] == v@[i as int]);
        }
        push_byte_hex(&mut out, v[i]);
        i = i + 1;
        proof {
            assert(tail.skip(1) =~= v@.skip(i as int));
            assert(pre + (byte_hex(tail[0] as int) + bytes_hex(v@.skip(i as int))) =~= (pre
                + byte_hex(tail[0] as int)) + bytes_hex(v@.skip(i as int)));
        }
    }
    proof {
        assert(v@.skip(v@.len() as int) =~= Seq::<u8>::empty());
        assert(out@ + Seq::<char>::empty() =~= out@);
    }
    chars_to_string(out.as_slice())
}

/// What decoding a byte-hex payload yields: the bytes of the hex pairs read
/// as UTF-8 text, if every step holds up.
pub open spec fn utf8_hex_decoded(v: Seq<u8>) -> Option<Seq<char>> {
    if !valid_utf8(v) {
        None
    } else {
        match hex_chunks(decode_utf8(v), 2, 255) {
            Option::Some(vals) => {
                let bytes = vals.map_values(|x: int| x as u8);
                if valid_utf8(bytes) {
                    Some(decode_utf8(bytes))
                } else {
                    None
                }
            },
            Option::None => None,
        }
    }
}

/// Decodes a byte-hex payload back into the UTF-8 text it carries.
pub fn decode_utf8_hex_string(v: &[u8]) -> (r: Result<String, &'static str>)
    ensures
        match utf8_hex_decoded(v@) {
            Option::Some(t) => r is Ok && r->Ok_0@ == t,
            Option::None => r is Err,
        },
{
    let owned = vstd::slice::slice_to_vec(v);
    let hex_text = match string_from_utf8(owned) {
        Option::Some(s) => s,
        Option::None => {
            return Err("payload is not text");
        },
    };
    let bytes = match decode_hex_u8(hex_text.as_str()) {
        Ok(b) => b,
        Err(e) => {
            return Err(e);
        },
    };
    proof {
        match hex_chunks(decode_utf8(v@), 2, 255) {
            Option::Some(vals) => {
                assert(bytes@ =~= vals.map_values(|x: int| x as u8));
            },
            Option::None => {
                assert(false);
            },
        }
    }
    match string_from_utf8(bytes) {
        Option::Some(s) => Ok(s),
        Option::None => Err("hex bytes are not text"),
    }
}

/// What a UCS2-hex rendering of a byte payload is: the UTF-16 units of the
/// payload read as UTF-8 text, four hex digits each; nothing for a payload
/// that is no text.
pub open spec fn utf16_hex_of(v: Seq<u8>) -> Option<Seq<char>> {
    if valid_utf8(v) {
        Some(units_hex(encode_utf16_seq(decode_utf8(v))))
    } else {
        None
    }
}

/// Renders a text payload as UCS2 hex: four upper-case hex digits per
/// UTF-16 code unit.
pub fn encode_utf16_hex_string(v: &[u8]) -> (r: Result<String, &'static str>)
    ensures
        match utf16_hex_of(v@) {
            Option::Some(t) => r is Ok && r->Ok_0@ == t,
            Option::None => r is Err,
        },
{
    let owned = vstd::slice::slice_to_vec(v);
    let text = match string_from_utf8(owned) {
        Option::Some(s) => s,
        Option::None => {
            return Err("payload is not text");
        },
    };
    let chars = str_to_chars(text.as_str());
    let units = encode_utf16_units(chars.as_slice());
    Ok(units_hex_string(units.as_slice()))
}

/// Renders UTF-16 code units as four upper-case hex digits each.
pub fn units_hex_string(units: &[u16]) -> (r: String)
    ensures
        r@ == units_hex(units@),
{
    let mut out: Vec<char> = Vec::new();
    let mut i: usize = 0;
    proof {
        assert(units@.skip(0) =~= units@);
        assert(Seq::<char>::empty() + units_hex(units@) =~= units_hex(units@));
    }
    while i < units.len()
        invariant
            i <= units@.len(),
            units_hex(units@) == out@ + units_hex(units@.skip(i as int)),
        decreases units@.len() - i,
    {
        let ghost tail = units@.skip(i as int);
        let ghost pre = out@;
        proof {
            assert(tail[0] == units@[i as int]);
        }
        push_unit_hex(&mut out, units[i]);
        i = i + 1;
        proof {
            assert(tail.skip(1) =~= units@.skip(i as int));
            assert(pre + (unit_hex(tail[0] as int) + units_hex(units@.skip(i as int))) =~= (pre
                + unit_hex(tail[0] as int)) + units_hex(units@.skip(i as int)));
        }
    }
    proof {
        assert(units@.skip(units@.len() as int) =~= Seq::<u16>::empty());
        assert(out@ + Seq::<char>::empty() =~= out@);
    }
    chars_to_string(out.as_slice())
}

/// The UTF-16 units a UCS2-hex payload carries, if it is text made of
/// 4-digit hex chunks.
pub open spec fn utf16_hex_units(v: Seq<u8>) -> Option<Seq<u16>> {
    if !valid_utf8(v) {
        None
    } else {
        match hex_chunks(decode_utf8(v), 4, 65535) {
            Option::Some(vals) => Some(vals.map_values(|x: int| x as u16)),
            Option::None => None,
        }
    }
}

/// Decodes a UCS2-hex payload back into the text it carries: accepted
/// exactly when the payload is text, cuts into 4-digit hex chunks, and
/// those form a well-formed UTF-16 encoding; the result encodes back to
/// those units.
pub fn decode_utf16_hex_string(v: &[u8]) -> (r: Result<String, &'static str>)
    ensures
        match utf16_hex_units(v@) {
            Option::Some(units) => if utf16_decodable(units) {
                r is Ok && encode_utf16_seq(r->Ok_0@) == units
            } else {
                r is Err
            },
            Option::None => r is Err,
        },
{
    let owned = vstd::slice::slice_to_vec(v);
    let hex_text = match string_from_utf8(owned) {
        Option::Some(s) => s,
        Option::None => {
            return Err("payload is not text");
        },
    };
    let units = match decode_hex_u16(hex_text.as_str()) {
        Ok(u) => u,
        Err(e) => {
            return Err(e);
        },
    };
    proof {
        match hex_chunks(decode_utf8(v@), 4, 65535) {
            Option::Some(vals) => {
                assert(units@ =~= vals.map_values(|x: int| x as u16));
            },
            Option::None => {
                assert(false);
            },
        }
    }
    let chars = match decode_utf16_units(units.as_slice()) {
        Ok(c) => c,
        Err(e) => {
            return Err(e);
        },
    };
    Ok(chars_to_string(chars.as_slice()))
}

/// Text that travels as UCS2 hex on the wire; `quoted` records whether the
/// wire form stood between quotes.
#[derive(Debug, Clone, PartialEq, Eq)]
pub struct UCS2HexString {
    pub text: String,
    pub quoted: bool,
}

/// Mathematical image of a UCS2 text value.
pub ghost struct UCS2HexStringView {
    pub text: Seq<char>,
    pub quoted: bool,
}

impl View for UCS2HexString {
    type V = UCS2HexStringView;

    open spec fn view(&self) -> UCS2HexStringView {
        UCS2HexStringView { text: self.text@, quoted: self.quoted }
    }
}

} // verus!
