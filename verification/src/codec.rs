//! Line codec for durable records.
//!
//! Records are rendered as printable ASCII bytes (no newlines), one
//! record per line of the append-only logs.  Integers appear as sixteen
//! lowercase hex digits, strings as a length prefix followed by their
//! bytes.  Decoding is the exact inverse of encoding: the round-trip
//! lemmas at the end of the module state it.

use vstd::prelude::*;
use crate::types::{Bar, Trade, OptionType};
use crate::events::{Event, EventPayload, EventType};

verus! {

/// Sixteen to the `k`th power.
pub open spec fn pow16(k: int) -> int
    decreases k,
{
    if k <= 0 { 1 } else { 16 * pow16(k - 1) }
}

/// Hex digit byte for a value in `0..16`: `'0'..'9'` then `'a'..'f'`.
pub open spec fn hexd(n: int) -> u8 {
    if n < 10 { (48 + n) as u8 } else { (87 + n) as u8 }
}

/// Inverse of `hexd`; `None` for bytes that are no lowercase hex digit.
pub open spec fn unhexd(b: u8) -> Option<int> {
    if 48 <= b <= 57 {
        Some(b as int - 48)
    } else if 97 <= b <= 102 {
        Some(b as int - 87)
    } else {
        None
    }
}

/// A `u64` as sixteen hex digit bytes, most significant first.
pub open spec fn enc_u64(v: u64) -> Seq<u8> {
    Seq::new(16, |i: int| hexd(((v as int) / pow16(15 - i)) % 16))
}

/// An `i64` is encoded through its two's-complement `u64` image.
pub open spec fn enc_i64(v: i64) -> Seq<u8> {
    enc_u64(v as u64)
}

/// A boolean as one digit byte.
pub open spec fn enc_bool(b: bool) -> Seq<u8> {
    seq![if b { 49u8 } else { 48u8 }]
}

/// Characters this codec stores: printable ASCII, newline excluded.
pub open spec fn printable_char(c: char) -> bool {
    32 <= c as int <= 126
}

/// A printable character survives the trip through its byte.
proof fn lemma_char_byte_roundtrip(c: char)
    requires
        printable_char(c),
    ensures
        (c as u8) as char == c,
{
}

pub open spec fn printable(s: Seq<char>) -> bool {
    forall|i: int| 0 <= i < s.len() ==> printable_char(#[trigger] s[i])
}

/// The bytes of a printable string.
pub open spec fn bytes_of(s: Seq<char>) -> Seq<u8> {
    Seq::new(s.len(), |i: int| s[i] as u8)
}

/// A byte string with its length prefix.
pub open spec fn enc_bytes(b: Seq<u8>) -> Seq<u8> {
    enc_u64(b.len() as u64) + b
}

/// A printable string: length prefix, then its bytes.
pub open spec fn enc_str(s: Seq<char>) -> Seq<u8> {
    enc_bytes(bytes_of(s))
}

pub open spec fn enc_strs(l: Seq<Seq<char>>) -> Seq<u8>
    decreases l.len(),
{
    if l.len() == 0 {
        Seq::empty()
    } else {
        enc_str(l[0]) + enc_strs(l.drop_first())
    }
}

pub open spec fn printable_all(l: Seq<Seq<char>>) -> bool {
    forall|i: int| 0 <= i < l.len() ==> printable(#[trigger] l[i])
}

proof fn lemma_pow16_pos(k: int)
    ensures
        pow16(k) >= 1,
    decreases k,
{
    if k > 0 {
        lemma_pow16_pos(k - 1);
    }
}

proof fn lemma_pow16_values()
    ensures
        pow16(15) == 0x1000_0000_0000_0000,
        pow16(16) == 0x1_0000_0000_0000_0000,
{
    reveal_with_fuel(pow16, 18);
    assert(pow16(16) == 0x1_0000_0000_0000_0000);
    assert(pow16(15) == 0x1000_0000_0000_0000);
}

/// Append `v` as sixteen hex digits.
pub fn w_u64(out: &mut Vec<u8>, v: u64)
    ensures
        final(out)@ == old(out)@ + enc_u64(v),
{
    let ghost base = out@;
    let mut p: u64 = 0x1000_0000_0000_0000;
    let mut i: usize = 0;
    proof {
        lemma_pow16_values();
    }
    while i < 16
        invariant
            0 <= i <= 16,
            i < 16 ==> p as int == pow16(15 - i),
            out@ == base + enc_u64(v).take(i as int),
        decreases 16 - i,
    {
        proof {
            lemma_pow16_pos(15 - i as int);
        }
        let d = (v / p) % 16;
        let byte = if d < 10 { 48 + d as u8 } else { 87 + d as u8 };
        out.push(byte);
        proof {
            assert(byte == enc_u64(v)[i as int]);
            assert(out@ =~= base + enc_u64(v).take(i as int + 1));
            if i < 15 {
                assert(pow16(15 - (i + 1)) == pow16(15 - i) / 16) by {
                    lemma_pow16_pos(14 - i as int);
                    assert(pow16(15 - i as int) == 16 * pow16(14 - i as int));
                    vstd::arithmetic::div_mod::lemma_div_multiples_vanish(
                        pow16(14 - i as int), 16);
                }
            }
        }
        p = p / 16;
        i = i + 1;
    }
    proof {
        assert(enc_u64(v).take(16) =~= enc_u64(v));
    }
}

/// Append an `i64` through its `u64` image.
pub fn w_i64(out: &mut Vec<u8>, v: i64)
    ensures
        final(out)@ == old(out)@ + enc_i64(v),
{
    w_u64(out, v as u64);
}

/// Append a boolean digit.
pub fn w_bool(out: &mut Vec<u8>, b: bool)
    ensures
        final(out)@ == old(out)@ + enc_bool(b),
{
    out.push(if b { 49 } else { 48 });
    proof {
        assert(out@ =~= old(out)@ + enc_bool(b));
    }
}

fn unhex_b(b: u8) -> (r: Option<u8>)
    ensures
        r == (match unhexd(b) {
            Some(n) => Some(n as u8),
            None => None::<u8>,
        }),
{
    if 48 <= b && b <= 57 {
        Some(b - 48)
    } else if 97 <= b && b <= 102 {
        Some(b - 87)
    } else {
        None
    }
}

proof fn lemma_unhex_hexd(n: int)
    requires
        0 <= n < 16,
    ensures
        unhexd(hexd(n)) == Some(n),
{
}

/// Read sixteen hex digits as a `u64`.  If the sixteen bytes at `pos`
/// are the canonical encoding of some value, that value is returned.
pub fn r_u64(buf: &Vec<u8>, pos: usize) -> (r: Option<(u64, usize)>)
    ensures
        forall|v: u64| pos + 16 <= buf@.len()
            && buf@.subrange(pos as int, pos as int + 16) == enc_u64(v)
            ==> r == Some((v, (pos + 16) as usize)),
        r matches Some(x) ==> x.1 == pos + 16 && pos + 16 <= buf@.len(),
{
    if pos >= buf.len() || buf.len() - pos < 16 {
        return None;
    }
    let mut acc: u64 = 0;
    let mut i: usize = 0;
    proof {
        lemma_pow16_values();
        assert forall|v: u64| buf@.subrange(pos as int, pos as int + 16) == enc_u64(v)
            implies 0int == (v as int) / pow16(16) by {
            vstd::arithmetic::div_mod::lemma_basic_div(v as int, pow16(16));
        }
    }
    while i < 16
        invariant
            0 <= i <= 16,
            pos + 16 <= buf@.len(),
            buf@.len() <= usize::MAX,
            (acc as int) < pow16(i as int),
            forall|v: u64| buf@.subrange(pos as int, pos as int + 16) == enc_u64(v)
                ==> acc as int == (v as int) / pow16(16 - i),
        decreases 16 - i,
    {
        proof {
            lemma_pow16_values();
        }
        let b = buf[pos + i];
        let d = match unhex_b(b) {
            Some(d) => d,
            None => {
                proof {
                    assert forall|v: u64| buf@.subrange(pos as int, pos as int + 16)
                        == enc_u64(v) implies false by {
                        let nib = ((v as int) / pow16(15 - i)) % 16;
                        vstd::arithmetic::div_mod::lemma_mod_division_less_than_divisor(
                            (v as int) / pow16(15 - i), 16);
                        lemma_pow16_pos(15 - i as int);
                        vstd::arithmetic::div_mod::lemma_div_pos_is_pos(v as int,
                            pow16(15 - i as int));
                        assert(b == enc_u64(v)[i as int]);
                        lemma_unhex_hexd(nib);
                    }
                }
                return None;
            },
        };
        proof {
            lemma_pow16_pos(i as int);
            assert(acc as int * 16 + 15 < pow16(i as int + 1)) by (nonlinear_arith)
                requires (acc as int) < pow16(i as int), pow16(i as int + 1) == 16 * pow16(i as int);
            assert(pow16(i as int + 1) <= pow16(16)) by {
                lemma_pow16_mono(i as int + 1, 16);
            }
            assert forall|v: u64| buf@.subrange(pos as int, pos as int + 16) == enc_u64(v)
                implies acc as int * 16 + d == (v as int) / pow16(16 - (i + 1)) by {
                let p1 = pow16(15 - i as int);
                let nib = ((v as int) / p1) % 16;
                assert(b == enc_u64(v)[i as int]);
                assert(0 <= nib < 16) by {
                    vstd::arithmetic::div_mod::lemma_mod_division_less_than_divisor(
                        (v as int) / p1, 16);
                    lemma_pow16_pos(15 - i as int);
                    vstd::arithmetic::div_mod::lemma_div_pos_is_pos(v as int, p1);
                }
                lemma_unhex_hexd(nib);
                assert(d as int == nib);
                let q = (v as int) / p1;
                assert(pow16(16 - i as int) == p1 * 16) by {
                    assert(pow16(16 - i as int) == 16 * pow16(15 - i as int));
                }
                assert((v as int) / pow16(16 - i as int) == q / 16) by {
                    lemma_pow16_pos(15 - i as int);
                    vstd::arithmetic::div_mod::lemma_div_denominator(v as int, p1, 16);
                }
                vstd::arithmetic::div_mod::lemma_fundamental_div_mod(q, 16);
                assert(q == 16 * (q / 16) + q % 16);
                assert(acc as int == q / 16);
                assert(acc as int * 16 + nib == q) by (nonlinear_arith)
                    requires acc as int == q / 16, nib == q % 16, q == 16 * (q / 16) + q % 16;
            }
        }
        acc = acc * 16 + (d as u64);
        i = i + 1;
    }
    proof {
        assert forall|v: u64| buf@.subrange(pos as int, pos as int + 16) == enc_u64(v)
            implies acc == v by {
            assert(acc as int == (v as int) / pow16(0));
        }
    }
    Some((acc, pos + 16))
}

proof fn lemma_pow16_mono(a: int, b: int)
    requires
        0 <= a <= b,
    ensures
        pow16(a) <= pow16(b),
    decreases b,
{
    if a < b {
        lemma_pow16_mono(a, b - 1);
        lemma_pow16_pos(b - 1);
    }
}

/// Read an `i64` (the inverse of `w_i64`).
pub fn r_i64(buf: &Vec<u8>, pos: usize) -> (r: Option<(i64, usize)>)
    ensures
        forall|v: i64| pos + 16 <= buf@.len()
            && buf@.subrange(pos as int, pos as int + 16) == enc_i64(v)
            ==> r == Some((v, (pos + 16) as usize)),
        r matches Some(x) ==> x.1 == pos + 16 && pos + 16 <= buf@.len(),
{
    match r_u64(buf, pos) {
        Some((u, p)) => {
            let v = u as i64;
            proof {
                assert forall|w: i64| pos + 16 <= buf@.len()
                    && buf@.subrange(pos as int, pos as int + 16) == enc_i64(w)
                    implies v == w by {
                    assert(u == w as u64);
                    assert((w as u64) as i64 == w) by (bit_vector);
                }
            }
            Some((v, p))
        },
        None => None,
    }
}

/// Read a boolean digit.
pub fn r_bool(buf: &Vec<u8>, pos: usize) -> (r: Option<(bool, usize)>)
    ensures
        forall|b: bool| pos + 1 <= buf@.len()
            && buf@.subrange(pos as int, pos as int + 1) == enc_bool(b)
            ==> r == Some((b, (pos + 1) as usize)),
        r matches Some(x) ==> x.1 == pos + 1 && pos + 1 <= buf@.len(),
{
    if pos >= buf.len() {
        return None;
    }
    let c = buf[pos];
    proof {
        assert forall|b: bool| buf@.subrange(pos as int, pos as int + 1) == enc_bool(b)
            implies c == (if b { 49u8 } else { 48u8 }) by {
            assert(buf@.subrange(pos as int, pos as int + 1)[0] == c);
        }
    }
    if c == 49 {
        Some((true, pos + 1))
    } else if c == 48 {
        Some((false, pos + 1))
    } else {
        None
    }
}

/// Relies on `str::as_bytes` / `String::as_bytes`: a printable-ASCII
/// string's UTF-8 bytes are exactly its characters' code points, one byte
/// per character, and each byte maps back to its character.
#[verifier::external_body]
pub fn string_to_bytes(s: &String) -> (r: Vec<u8>)
    requires
        printable(s@),
    ensures
        r@.len() == s@.len(),
        forall|i: int| 0 <= i < s@.len() ==> r@[i] == (#[trigger] s@[i]) as u8,
        forall|i: int| 0 <= i < s@.len() ==> 32 <= #[trigger] r@[i] <= 126,
        forall|i: int| 0 <= i < s@.len() ==> (#[trigger] r@[i]) as char == s@[i],
{
    s.as_bytes().to_vec()
}

/// Relies on `String::from_utf8`: printable-ASCII bytes are valid UTF-8
/// and decode to one character per byte, each carrying the byte's code
/// point (so the call cannot fail or panic on such input).
#[verifier::external_body]
pub fn bytes_to_string(v: &Vec<u8>) -> (r: String)
    requires
        forall|i: int| 0 <= i < v@.len() ==> 32 <= #[trigger] v@[i] <= 126,
    ensures
        r@.len() == v@.len(),
        forall|i: int| 0 <= i < v@.len() ==> r@[i] == (#[trigger] v@[i]) as char,
        forall|i: int| 0 <= i < v@.len() ==> (#[trigger] r@[i]) as u8 == v@[i],
        printable(r@),
{
    match String::from_utf8(v.clone()) {
        Ok(s) => s,
        Err(_) => String::new(),
    }
}

/// Append a printable string with its length prefix.
pub fn w_str(out: &mut Vec<u8>, s: &String)
    requires
        printable(s@),
    ensures
        final(out)@ == old(out)@ + enc_str(s@),
{
    let bytes = string_to_bytes(s);
    w_u64(out, bytes.len() as u64);
    let ghost mid = out@;
    let mut i: usize = 0;
    while i < bytes.len()
        invariant
            0 <= i <= bytes@.len(),
            out@ == mid + bytes@.take(i as int),
        decreases bytes@.len() - i,
    {
        out.push(bytes[i]);
        proof {
            assert(out@ =~= mid + bytes@.take(i as int + 1));
        }
        i = i + 1;
    }
    proof {
        assert(bytes@.take(bytes@.len() as int) =~= bytes@);
        assert(bytes@ =~= bytes_of(s@));
        assert(out@ =~= old(out)@ + enc_str(s@));
    }
}

/// Facts every byte string holding `enc_str(s)` at `pos` satisfies.
proof fn lemma_str_prefix(buf: Seq<u8>, pos: int, s: Seq<char>)
    requires
        0 <= pos,
        pos + 16 + s.len() <= buf.len(),
        buf.len() <= usize::MAX,
        buf.subrange(pos, pos + 16 + s.len()) == enc_str(s),
    ensures
        s.len() <= usize::MAX,
        buf.subrange(pos, pos + 16) == enc_u64(s.len() as u64),
        forall|j: int| 0 <= j < s.len() ==> buf[pos + 16 + j] == (#[trigger] s[j]) as u8,
{
    let whole = buf.subrange(pos, pos + 16 + s.len());
    assert(buf.subrange(pos, pos + 16) =~= enc_u64(s.len() as u64)) by {
        assert forall|j: int| 0 <= j < 16
            implies #[trigger] buf.subrange(pos, pos + 16)[j] == enc_u64(s.len() as u64)[j] by {
            assert(buf.subrange(pos, pos + 16)[j] == whole[j]);
            assert(whole[j] == enc_str(s)[j]);
        }
    }
    assert forall|j: int| 0 <= j < s.len()
        implies buf[pos + 16 + j] == (#[trigger] s[j]) as u8 by {
        assert(buf[pos + 16 + j] == whole[16 + j]);
        assert(whole[16 + j] == enc_str(s)[16 + j]);
        assert(enc_str(s)[16 + j] == bytes_of(s)[j]);
    }
}

/// The encoding of `s` sits at `pos` in `buf`.
pub open spec fn str_at(buf: Seq<u8>, pos: int, s: Seq<char>) -> bool {
    &&& printable(s)
    &&& pos + 16 + s.len() <= buf.len()
    &&& buf.subrange(pos, pos + 16 + s.len()) == enc_str(s)
}

/// Read a printable string (the inverse of `w_str`).
pub fn r_str(buf: &Vec<u8>, pos: usize) -> (r: Option<(String, usize)>)
    ensures
        forall|s: Seq<char>| #[trigger] str_at(buf@, pos as int, s)
            ==> (match r {
                Some((t, p)) => t@ == s && p as int == pos + 16 + s.len(),
                None => false,
            }),
        r matches Some(x) ==> pos + 16 <= x.1 <= buf@.len(),
{
    let blen = buf.len();
    let (n64, p1) = match r_u64(buf, pos) {
        Some(x) => x,
        None => {
            proof {
                assert forall|s: Seq<char>| #[trigger] str_at(buf@, pos as int, s)
                    implies false by {
                    lemma_str_prefix(buf@, pos as int, s);
                }
            }
            return None;
        },
    };
    if n64 > (usize::MAX as u64) {
        proof {
            assert forall|s: Seq<char>| #[trigger] str_at(buf@, pos as int, s)
                implies false by {
                lemma_str_prefix(buf@, pos as int, s);
            }
        }
        return None;
    }
    let n = n64 as usize;
    proof {
        assert forall|s: Seq<char>| #[trigger] str_at(buf@, pos as int, s)
            implies s.len() == n as int by {
            lemma_str_prefix(buf@, pos as int, s);
        }
    }
    if blen < p1 || blen - p1 < n {
        proof {
            assert forall|s: Seq<char>| #[trigger] str_at(buf@, pos as int, s)
                implies false by {
                lemma_str_prefix(buf@, pos as int, s);
            }
        }
        return None;
    }
    let mut bytes: Vec<u8> = Vec::new();
    let mut i: usize = 0;
    while i < n
        invariant
            0 <= i <= n,
            pos + 16 == p1,
            p1 + n <= buf@.len(),
            buf@.len() <= usize::MAX,
            bytes@ == buf@.subrange(p1 as int, p1 as int + i as int),
            forall|j: int| 0 <= j < i ==> 32 <= #[trigger] bytes@[j] <= 126,
            forall|s: Seq<char>| #[trigger] str_at(buf@, pos as int, s) ==> s.len() == n as int,
        decreases n - i,
    {
        let b = buf[p1 + i];
        if b < 32 || b > 126 {
            proof {
                assert forall|s: Seq<char>| #[trigger] str_at(buf@, pos as int, s)
                    implies false by {
                    lemma_str_prefix(buf@, pos as int, s);
                    assert(s.len() == n as int);
                    assert(buf@[p1 + i] == s[i as int] as u8);
                    assert(printable_char(s[i as int]));
                    assert(32 <= s[i as int] as int <= 126);
                }
            }
            return None;
        }
        bytes.push(b);
        proof {
            assert(bytes@ =~= buf@.subrange(p1 as int, p1 as int + i as int + 1));
        }
        i = i + 1;
    }
    let t = bytes_to_string(&bytes);
    proof {
        assert forall|s: Seq<char>| #[trigger] str_at(buf@, pos as int, s)
            implies t@ == s && p1 + n == pos + 16 + s.len() by {
            lemma_str_prefix(buf@, pos as int, s);
            assert(s.len() == n as int);
            assert forall|j: int| 0 <= j < s.len() implies t@[j] == s[j] by {
                assert(bytes@[j] == buf@[p1 + j]);
                assert(buf@[p1 + j] == s[j] as u8);
                assert(t@[j] == bytes@[j] as char);
                assert(printable_char(s[j]));
                lemma_char_byte_roundtrip(s[j]);
            }
            assert(t@ =~= s);
        }
    }
    Some((t, p1 + n))
}


/// A bar as a line: six integers and the completeness flag.
pub open spec fn enc_bar(b: Bar) -> Seq<u8> {
    enc_i64(b.timestamp_ms) + enc_i64(b.open) + enc_i64(b.high) + enc_i64(b.low)
        + enc_i64(b.close) + enc_i64(b.volume) + enc_bool(b.bar_complete)
}

proof fn lemma_bar_pieces(buf: Seq<u8>, b: Bar)
    requires
        buf == enc_bar(b),
    ensures
        buf.len() == 97,
        buf.subrange(0, 16) == enc_i64(b.timestamp_ms),
        buf.subrange(16, 32) == enc_i64(b.open),
        buf.subrange(32, 48) == enc_i64(b.high),
        buf.subrange(48, 64) == enc_i64(b.low),
        buf.subrange(64, 80) == enc_i64(b.close),
        buf.subrange(80, 96) == enc_i64(b.volume),
        buf.subrange(96, 97) == enc_bool(b.bar_complete),
{
    assert(buf.subrange(0, 16) =~= enc_i64(b.timestamp_ms));
    assert(buf.subrange(16, 32) =~= enc_i64(b.open));
    assert(buf.subrange(32, 48) =~= enc_i64(b.high));
    assert(buf.subrange(48, 64) =~= enc_i64(b.low));
    assert(buf.subrange(64, 80) =~= enc_i64(b.close));
    assert(buf.subrange(80, 96) =~= enc_i64(b.volume));
    assert(buf.subrange(96, 97) =~= enc_bool(b.bar_complete));
}

/// Render a bar as one log line (no newline included).
pub fn encode_bar(b: &Bar) -> (r: Vec<u8>)
    ensures
        r@ == enc_bar(*b),
{
    let mut out: Vec<u8> = Vec::new();
    w_i64(&mut out, b.timestamp_ms);
    w_i64(&mut out, b.open);
    w_i64(&mut out, b.high);
    w_i64(&mut out, b.low);
    w_i64(&mut out, b.close);
    w_i64(&mut out, b.volume);
    w_bool(&mut out, b.bar_complete);
    proof {
        assert(out@ =~= enc_bar(*b));
    }
    out
}

/// Parse a bar line.  The exact encoding of any bar decodes back to that
/// bar; anything else yields `None`.
pub fn decode_bar(buf: &Vec<u8>) -> (r: Option<Bar>)
    ensures
        forall|b: Bar| buf@ == enc_bar(b) ==> r == Some(b),
{
    let blen = buf.len();
    if blen != 97 {
        proof {
            assert forall|b: Bar| buf@ == enc_bar(b) implies false by {
                lemma_bar_pieces(buf@, b);
            }
        }
        return None;
    }
    let (ts, p1) = match r_i64(buf, 0) {
        Some(x) => x,
        None => {
            proof {
                assert forall|b: Bar| buf@ == enc_bar(b) implies false by {
                    lemma_bar_pieces(buf@, b);
                }
            }
            return None;
        },
    };
    let (open, p2) = match r_i64(buf, p1) {
        Some(x) => x,
        None => {
            proof {
                assert forall|b: Bar| buf@ == enc_bar(b) implies false by {
                    lemma_bar_pieces(buf@, b);
                }
            }
            return None;
        },
    };
    let (high, p3) = match r_i64(buf, p2) {
        Some(x) => x,
        None => {
            proof {
                assert forall|b: Bar| buf@ == enc_bar(b) implies false by {
                    lemma_bar_pieces(buf@, b);
                }
            }
            return None;
        },
    };
    let (low, p4) = match r_i64(buf, p3) {
        Some(x) => x,
        None => {
            proof {
                assert forall|b: Bar| buf@ == enc_bar(b) implies false by {
                    lemma_bar_pieces(buf@, b);
                }
            }
            return None;
        },
    };
    let (close, p5) = match r_i64(buf, p4) {
        Some(x) => x,
        None => {
            proof {
                assert forall|b: Bar| buf@ == enc_bar(b) implies false by {
                    lemma_bar_pieces(buf@, b);
                }
            }
            return None;
        },
    };
    let (volume, p6) = match r_i64(buf, p5) {
        Some(x) => x,
        None => {
            proof {
                assert forall|b: Bar| buf@ == enc_bar(b) implies false by {
                    lemma_bar_pieces(buf@, b);
                }
            }
            return None;
        },
    };
    let (complete, _p7) = match r_bool(buf, p6) {
        Some(x) => x,
        None => {
            proof {
                assert forall|b: Bar| buf@ == enc_bar(b) implies false by {
                    lemma_bar_pieces(buf@, b);
                }
            }
            return None;
        },
    };
    let bar = Bar {
        timestamp_ms: ts,
        open,
        high,
        low,
        close,
        volume,
        bar_complete: complete,
    };
    proof {
        assert forall|b: Bar| buf@ == enc_bar(b) implies bar == b by {
            lemma_bar_pieces(buf@, b);
        }
    }
    Some(bar)
}

/// Serializing a bar and deserializing the line yields the bar with
/// every field unchanged: `decode_bar`'s contract forces the encoding of
/// `b` to decode to `b` itself.
pub proof fn lemma_bar_round_trip(b: Bar, line: Seq<u8>, decoded: Option<Bar>)
    requires
        line == enc_bar(b),
        forall|x: Bar| line == enc_bar(x) ==> decoded == Some(x),
    ensures
        decoded == Some(b),
{
}


/// A list of printable strings laid out at `pos`: each with its length
/// prefix, in order.
pub open spec fn strs_at(buf: Seq<u8>, pos: int, l: Seq<Seq<char>>) -> bool {
    &&& printable_all(l)
    &&& pos + enc_strs(l).len() <= buf.len()
    &&& buf.subrange(pos, pos + enc_strs(l).len()) == enc_strs(l)
}

proof fn lemma_strs_at_step(buf: Seq<u8>, pos: int, l: Seq<Seq<char>>)
    requires
        0 <= pos,
        buf.len() <= usize::MAX,
        strs_at(buf, pos, l),
        l.len() > 0,
    ensures
        str_at(buf, pos, l[0]),
        strs_at(buf, pos + 16 + l[0].len(), l.drop_first()),
{
    let whole = buf.subrange(pos, pos + enc_strs(l).len());
    let head = enc_str(l[0]);
    let tail = enc_strs(l.drop_first());
    assert(enc_strs(l) == head + tail);
    assert(buf.subrange(pos, pos + 16 + l[0].len()) =~= head) by {
        assert forall|j: int| 0 <= j < head.len()
            implies #[trigger] buf.subrange(pos, pos + 16 + l[0].len())[j] == head[j] by {
            assert(buf.subrange(pos, pos + 16 + l[0].len())[j] == whole[j]);
            assert(whole[j] == (head + tail)[j]);
        }
    }
    assert(buf.subrange(pos + 16 + l[0].len(), pos + 16 + l[0].len() + tail.len())
        =~= tail) by {
        assert forall|j: int| 0 <= j < tail.len()
            implies #[trigger] buf.subrange(pos + 16 + l[0].len(),
                pos + 16 + l[0].len() + tail.len())[j] == tail[j] by {
            assert(buf.subrange(pos + 16 + l[0].len(),
                pos + 16 + l[0].len() + tail.len())[j] == whole[head.len() + j]);
            assert(whole[head.len() + j] == (head + tail)[head.len() + j]);
        }
    }
    assert(printable(l[0]));
    assert forall|k: int| 0 <= k < l.drop_first().len()
        implies printable(#[trigger] l.drop_first()[k]) by {
        assert(l.drop_first()[k] == l[k + 1]);
    }
}

/// Appending one string extends the list encoding at its end.
proof fn lemma_enc_strs_snoc(l: Seq<Seq<char>>, x: Seq<char>)
    ensures
        enc_strs(l.push(x)) == enc_strs(l) + enc_str(x),
    decreases l.len(),
{
    if l.len() == 0 {
        assert(l.push(x).drop_first() =~= Seq::<Seq<char>>::empty());
        assert(l.push(x)[0] == x);
        assert(enc_strs(l.push(x))
            == enc_str(x) + enc_strs(Seq::<Seq<char>>::empty()));
        assert(enc_strs(Seq::<Seq<char>>::empty()) == Seq::<u8>::empty());
        assert(enc_str(x) + Seq::<u8>::empty() =~= enc_str(x));
        assert(enc_strs(l) + enc_str(x) =~= enc_str(x));
    } else {
        assert(l.push(x)[0] == l[0]);
        assert(l.push(x).drop_first() =~= l.drop_first().push(x));
        lemma_enc_strs_snoc(l.drop_first(), x);
        assert(enc_strs(l.push(x)) =~= enc_strs(l) + enc_str(x));
    }
}

/// Append a list of printable strings (each length-prefixed, in order).
pub fn w_strs(out: &mut Vec<u8>, l: &Vec<String>)
    requires
        forall|i: int| 0 <= i < l@.len() ==> printable((#[trigger] l@[i])@),
    ensures
        final(out)@ == old(out)@ + enc_strs(l@.map_values(|s: String| s@)),
{
    let ghost base = out@;
    let ghost lv = l@.map_values(|s: String| s@);
    let mut i: usize = 0;
    while i < l.len()
        invariant
            0 <= i <= l@.len(),
            lv == l@.map_values(|s: String| s@),
            forall|k: int| 0 <= k < l@.len() ==> printable((#[trigger] l@[k])@),
            out@ == base + enc_strs(lv.take(i as int)),
        decreases l@.len() - i,
    {
        w_str(out, &l[i]);
        proof {
            assert(lv.take(i as int + 1) =~= lv.take(i as int).push(lv[i as int]));
            lemma_enc_strs_snoc(lv.take(i as int), lv[i as int]);
            assert(out@ =~= base + enc_strs(lv.take(i as int + 1)));
        }
        i = i + 1;
    }
    proof {
        assert(lv.take(lv.len() as int) =~= lv);
    }
}

/// Read `count` length-prefixed strings.  When some list of that length
/// is laid out at `pos`, exactly that list is returned.
pub fn r_strs(buf: &Vec<u8>, pos: usize, count: usize) -> (r: Option<(Vec<String>, usize)>)
    ensures
        forall|l: Seq<Seq<char>>| l.len() == count && #[trigger] strs_at(buf@, pos as int, l)
            ==> (match r {
                Some((vs, p)) => vs@.map_values(|s: String| s@) == l
                    && p as int == pos + enc_strs(l).len(),
                None => false,
            }),
        r matches Some(x) ==> x.1 <= buf@.len(),
    decreases count,
{
    let blen = buf.len();
    if count == 0 {
        let vs: Vec<String> = Vec::new();
        proof {
            assert forall|l: Seq<Seq<char>>| l.len() == 0
                && #[trigger] strs_at(buf@, pos as int, l)
                implies vs@.map_values(|s: String| s@) =~= l
                    && pos as int == pos + enc_strs(l).len() by {
            }
        }
        if pos <= blen {
            return Some((vs, pos));
        } else {
            return Some((vs, blen));
        }
    }
    let (head, p1) = match r_str(buf, pos) {
        Some(x) => x,
        None => {
            proof {
                assert forall|l: Seq<Seq<char>>| l.len() == count
                    && #[trigger] strs_at(buf@, pos as int, l) implies false by {
                    lemma_strs_at_step(buf@, pos as int, l);
                }
            }
            return None;
        },
    };
    let rest = match r_strs(buf, p1, count - 1) {
        Some(x) => x,
        None => {
            proof {
                assert forall|l: Seq<Seq<char>>| l.len() == count
                    && #[trigger] strs_at(buf@, pos as int, l) implies false by {
                    lemma_strs_at_step(buf@, pos as int, l);
                    assert(str_at(buf@, pos as int, l[0]));
                    assert(head@ == l[0] && p1 as int == pos + 16 + l[0].len());
                    assert(strs_at(buf@, p1 as int, l.drop_first()));
                }
            }
            return None;
        },
    };
    let (tail_vec, p2) = rest;
    let mut vs = tail_vec;
    vs.insert(0, head);
    proof {
        assert forall|l: Seq<Seq<char>>| l.len() == count
            && #[trigger] strs_at(buf@, pos as int, l)
            implies vs@.map_values(|s: String| s@) == l
                && p2 as int == pos + enc_strs(l).len() by {
            lemma_strs_at_step(buf@, pos as int, l);
            assert(str_at(buf@, pos as int, l[0]));
            assert(strs_at(buf@, p1 as int, l.drop_first()));
            assert(vs@.map_values(|s: String| s@) =~= l) by {
                assert(vs@[0]@ == l[0]);
                assert forall|k: int| 1 <= k < vs@.len()
                    implies (#[trigger] vs@[k])@ == l[k] by {
                    assert(vs@[k] == tail_vec@[k - 1]);
                    assert(tail_vec@.map_values(|s: String| s@)[k - 1] == l.drop_first()[k - 1]);
                }
            }
            assert(enc_strs(l).len() == 16 + l[0].len() + enc_strs(l.drop_first()).len());
        }
    }
    Some((vs, p2))
}


/// The fixed-width head of a trade line: fifteen integers and the option
/// type flag (241 bytes).
pub open spec fn enc_trade_head(t: Trade) -> Seq<u8> {
    enc_i64(t.strike) + enc_i64(t.quantity) + enc_i64(t.entry_time_ms)
        + enc_i64(t.entry_price) + enc_i64(t.exit_time_ms) + enc_i64(t.exit_price)
        + enc_i64(t.pnl_gross) + enc_i64(t.pnl_gross_pct) + enc_i64(t.pnl_net)
        + enc_i64(t.brokerage) + enc_i64(t.duration_sec) + enc_i64(t.high_price)
        + enc_i64(t.low_price) + enc_i64(t.vix_at_entry) + enc_i64(t.vix_at_exit)
        + enc_bool(t.option_type is PE)
}

/// A whole trade line: the fixed head, six strings, then the secondary
/// reasons with their count.
pub open spec fn enc_trade(t: Trade) -> Seq<u8> {
    enc_trade_head(t) + enc_str(t.trade_id@) + enc_str(t.position_id@) + enc_str(t.symbol@)
        + enc_str(t.underlying@) + enc_str(t.entry_reason@) + enc_str(t.exit_reason@)
        + enc_u64(t.secondary_reasons@.len() as u64)
        + enc_strs(t.secondary_reasons@.map_values(|s: String| s@))
}

/// The string fields a trade line can carry.
pub open spec fn trade_strings_ok(t: Trade) -> bool {
    &&& printable(t.trade_id@)
    &&& printable(t.position_id@)
    &&& printable(t.symbol@)
    &&& printable(t.underlying@)
    &&& printable(t.entry_reason@)
    &&& printable(t.exit_reason@)
    &&& printable_all(t.secondary_reasons@.map_values(|s: String| s@))
    &&& t.secondary_reasons@.len() <= usize::MAX
}

/// Fields equal on two trades (the round-trip relation; `Trade` holds a
/// vector, so equality is stated over views).
pub open spec fn trade_eq(a: Trade, b: Trade) -> bool {
    &&& a.trade_id@ == b.trade_id@
    &&& a.position_id@ == b.position_id@
    &&& a.symbol@ == b.symbol@
    &&& a.underlying@ == b.underlying@
    &&& a.strike == b.strike
    &&& a.option_type == b.option_type
    &&& a.quantity == b.quantity
    &&& a.entry_time_ms == b.entry_time_ms
    &&& a.entry_price == b.entry_price
    &&& a.entry_reason@ == b.entry_reason@
    &&& a.exit_time_ms == b.exit_time_ms
    &&& a.exit_price == b.exit_price
    &&& a.exit_reason@ == b.exit_reason@
    &&& a.secondary_reasons@.map_values(|s: String| s@)
        == b.secondary_reasons@.map_values(|s: String| s@)
    &&& a.pnl_gross == b.pnl_gross
    &&& a.pnl_gross_pct == b.pnl_gross_pct
    &&& a.pnl_net == b.pnl_net
    &&& a.brokerage == b.brokerage
    &&& a.duration_sec == b.duration_sec
    &&& a.high_price == b.high_price
    &&& a.low_price == b.low_price
    &&& a.vix_at_entry == b.vix_at_entry
    &&& a.vix_at_exit == b.vix_at_exit
}

/// Render a trade as one log line.
#[verifier::rlimit(100)]
pub fn encode_trade(t: &Trade) -> (r: Vec<u8>)
    requires
        trade_strings_ok(*t),
    ensures
        r@ == enc_trade(*t),
{
    let mut out: Vec<u8> = Vec::new();
    w_i64(&mut out, t.strike);
    w_i64(&mut out, t.quantity);
    w_i64(&mut out, t.entry_time_ms);
    w_i64(&mut out, t.entry_price);
    w_i64(&mut out, t.exit_time_ms);
    w_i64(&mut out, t.exit_price);
    w_i64(&mut out, t.pnl_gross);
    w_i64(&mut out, t.pnl_gross_pct);
    w_i64(&mut out, t.pnl_net);
    w_i64(&mut out, t.brokerage);
    w_i64(&mut out, t.duration_sec);
    w_i64(&mut out, t.high_price);
    w_i64(&mut out, t.low_price);
    w_i64(&mut out, t.vix_at_entry);
    w_i64(&mut out, t.vix_at_exit);
    w_bool(&mut out, matches!(t.option_type, OptionType::PE));
    proof {
        assert(out@ =~= enc_trade_head(*t));
    }
    w_str(&mut out, &t.trade_id);
    w_str(&mut out, &t.position_id);
    w_str(&mut out, &t.symbol);
    w_str(&mut out, &t.underlying);
    w_str(&mut out, &t.entry_reason);
    w_str(&mut out, &t.exit_reason);
    w_u64(&mut out, t.secondary_reasons.len() as u64);
    proof {
        let m = t.secondary_reasons@.map_values(|s: String| s@);
        assert forall|i: int| 0 <= i < t.secondary_reasons@.len()
            implies printable((#[trigger] t.secondary_reasons@[i])@) by {
            assert(m[i] == t.secondary_reasons@[i]@);
            assert(printable(m[i]));
        }
    }
    w_strs(&mut out, &t.secondary_reasons);
    proof {
        assert(out@ =~= enc_trade(*t));
    }
    out
}

/// Every fact a buffer holding `enc_trade(t)` yields: the fixed pieces
/// at their constant offsets, then each string at its running offset.
#[verifier::rlimit(100)]
#[verifier::spinoff_prover]
proof fn lemma_trade_pieces(buf: Seq<u8>, t: Trade)
    requires
        buf == enc_trade(t),
        trade_strings_ok(t),
        buf.len() <= usize::MAX,
    ensures
        buf.len() == 241 + 16 + t.trade_id@.len() + 16 + t.position_id@.len() + 16
            + t.symbol@.len() + 16 + t.underlying@.len() + 16 + t.entry_reason@.len() + 16
            + t.exit_reason@.len() + 16
            + enc_strs(t.secondary_reasons@.map_values(|s: String| s@)).len(),
        buf.subrange(0, 16) == enc_i64(t.strike),
        buf.subrange(16, 32) == enc_i64(t.quantity),
        buf.subrange(32, 48) == enc_i64(t.entry_time_ms),
        buf.subrange(48, 64) == enc_i64(t.entry_price),
        buf.subrange(64, 80) == enc_i64(t.exit_time_ms),
        buf.subrange(80, 96) == enc_i64(t.exit_price),
        buf.subrange(96, 112) == enc_i64(t.pnl_gross),
        buf.subrange(112, 128) == enc_i64(t.pnl_gross_pct),
        buf.subrange(128, 144) == enc_i64(t.pnl_net),
        buf.subrange(144, 160) == enc_i64(t.brokerage),
        buf.subrange(160, 176) == enc_i64(t.duration_sec),
        buf.subrange(176, 192) == enc_i64(t.high_price),
        buf.subrange(192, 208) == enc_i64(t.low_price),
        buf.subrange(208, 224) == enc_i64(t.vix_at_entry),
        buf.subrange(224, 240) == enc_i64(t.vix_at_exit),
        buf.subrange(240, 241) == enc_bool(t.option_type is PE),
        str_at(buf, 241, t.trade_id@),
        str_at(buf, 241 + 16 + t.trade_id@.len() as int, t.position_id@),
        str_at(buf, 241 + 32 + t.trade_id@.len() as int + t.position_id@.len() as int, t.symbol@),
        str_at(buf, 241 + 48 + t.trade_id@.len() as int + t.position_id@.len() as int
            + t.symbol@.len() as int, t.underlying@),
        str_at(buf, 241 + 64 + t.trade_id@.len() as int + t.position_id@.len() as int
            + t.symbol@.len() as int + t.underlying@.len() as int, t.entry_reason@),
        str_at(buf, 241 + 80 + t.trade_id@.len() as int + t.position_id@.len() as int
            + t.symbol@.len() as int + t.underlying@.len() as int
            + t.entry_reason@.len() as int, t.exit_reason@),
        ({
            let p = 241 + 96 + t.trade_id@.len() as int + t.position_id@.len() as int
                + t.symbol@.len() as int + t.underlying@.len() as int
                + t.entry_reason@.len() as int + t.exit_reason@.len() as int;
            &&& buf.subrange(p, p + 16) == enc_u64(t.secondary_reasons@.len() as u64)
            &&& strs_at(buf, p + 16, t.secondary_reasons@.map_values(|s: String| s@))
        }),
{
    let head = enc_trade_head(t);
    assert(head.len() == 241);
    assert(buf.subrange(0, 16) =~= enc_i64(t.strike));
    assert(buf.subrange(16, 32) =~= enc_i64(t.quantity));
    assert(buf.subrange(32, 48) =~= enc_i64(t.entry_time_ms));
    assert(buf.subrange(48, 64) =~= enc_i64(t.entry_price));
    assert(buf.subrange(64, 80) =~= enc_i64(t.exit_time_ms));
    assert(buf.subrange(80, 96) =~= enc_i64(t.exit_price));
    assert(buf.subrange(96, 112) =~= enc_i64(t.pnl_gross));
    assert(buf.subrange(112, 128) =~= enc_i64(t.pnl_gross_pct));
    assert(buf.subrange(128, 144) =~= enc_i64(t.pnl_net));
    assert(buf.subrange(144, 160) =~= enc_i64(t.brokerage));
    assert(buf.subrange(160, 176) =~= enc_i64(t.duration_sec));
    assert(buf.subrange(176, 192) =~= enc_i64(t.high_price));
    assert(buf.subrange(192, 208) =~= enc_i64(t.low_price));
    assert(buf.subrange(208, 224) =~= enc_i64(t.vix_at_entry));
    assert(buf.subrange(224, 240) =~= enc_i64(t.vix_at_exit));
    assert(buf.subrange(240, 241) =~= enc_bool(t.option_type is PE));
    let o1 = 241;
    let l1 = 16 + t.trade_id@.len();
    assert(buf.subrange(o1, o1 + l1) =~= enc_str(t.trade_id@));
    let o2 = o1 + l1;
    let l2 = 16 + t.position_id@.len();
    assert(buf.subrange(o2 as int, o2 + l2) =~= enc_str(t.position_id@));
    let o3 = o2 + l2;
    let l3 = 16 + t.symbol@.len();
    assert(buf.subrange(o3 as int, o3 + l3) =~= enc_str(t.symbol@));
    let o4 = o3 + l3;
    let l4 = 16 + t.underlying@.len();
    assert(buf.subrange(o4 as int, o4 + l4) =~= enc_str(t.underlying@));
    let o5 = o4 + l4;
    let l5 = 16 + t.entry_reason@.len();
    assert(buf.subrange(o5 as int, o5 + l5) =~= enc_str(t.entry_reason@));
    let o6 = o5 + l5;
    let l6 = 16 + t.exit_reason@.len();
    assert(buf.subrange(o6 as int, o6 + l6) =~= enc_str(t.exit_reason@));
    let o7 = o6 + l6;
    assert(buf.subrange(o7 as int, o7 + 16) =~= enc_u64(t.secondary_reasons@.len() as u64));
    let o8 = o7 + 16;
    let reasons = t.secondary_reasons@.map_values(|s: String| s@);
    assert(buf.subrange(o8 as int, o8 + enc_strs(reasons).len()) =~= enc_strs(reasons));
}

/// Parse a trade line: the exact encoding of any trade decodes back to a
/// trade equal to it field for field.
#[verifier::rlimit(100)]
#[verifier::spinoff_prover]
pub fn decode_trade(buf: &Vec<u8>) -> (r: Option<Trade>)
    ensures
        forall|t: Trade| buf@ == enc_trade(t) && #[trigger] trade_strings_ok(t)
            ==> (match r {
                Some(d) => trade_eq(d, t),
                None => false,
            }),
{
    let blen = buf.len();
    let (strike, p) = match r_i64(buf, 0) {
        Some(x) => x,
        None => {
            proof {
                assert forall|t: Trade| buf@ == enc_trade(t)
                    && #[trigger] trade_strings_ok(t) implies false by {
                    lemma_trade_pieces(buf@, t);
                }
            }
            return None;
        },
    };
    let (quantity, p) = match r_i64(buf, p) { Some(x) => x, None => {
            proof {
                assert forall|t: Trade| buf@ == enc_trade(t)
                    && #[trigger] trade_strings_ok(t) implies false by {
                    lemma_trade_pieces(buf@, t);
                }
            }
            return None;
        } };
    let (entry_time_ms, p) = match r_i64(buf, p) { Some(x) => x, None => {
            proof {
                assert forall|t: Trade| buf@ == enc_trade(t)
                    && #[trigger] trade_strings_ok(t) implies false by {
                    lemma_trade_pieces(buf@, t);
                }
            }
            return None;
        } };
    let (entry_price, p) = match r_i64(buf, p) { Some(x) => x, None => {
            proof {
                assert forall|t: Trade| buf@ == enc_trade(t)
                    && #[trigger] trade_strings_ok(t) implies false by {
                    lemma_trade_pieces(buf@, t);
                }
            }
            return None;
        } };
    let (exit_time_ms, p) = match r_i64(buf, p) { Some(x) => x, None => {
            proof {
                assert forall|t: Trade| buf@ == enc_trade(t)
                    && #[trigger] trade_strings_ok(t) implies false by {
                    lemma_trade_pieces(buf@, t);
                }
            }
            return None;
        } };
    let (exit_price, p) = match r_i64(buf, p) { Some(x) => x, None => {
            proof {
                assert forall|t: Trade| buf@ == enc_trade(t)
                    && #[trigger] trade_strings_ok(t) implies false by {
                    lemma_trade_pieces(buf@, t);
                }
            }
            return None;
        } };
    let (pnl_gross, p) = match r_i64(buf, p) { Some(x) => x, None => {
            proof {
                assert forall|t: Trade| buf@ == enc_trade(t)
                    && #[trigger] trade_strings_ok(t) implies false by {
                    lemma_trade_pieces(buf@, t);
                }
            }
            return None;
        } };
    let (pnl_gross_pct, p) = match r_i64(buf, p) { Some(x) => x, None => {
            proof {
                assert forall|t: Trade| buf@ == enc_trade(t)
                    && #[trigger] trade_strings_ok(t) implies false by {
                    lemma_trade_pieces(buf@, t);
                }
            }
            return None;
        } };
    let (pnl_net, p) = match r_i64(buf, p) { Some(x) => x, None => {
            proof {
                assert forall|t: Trade| buf@ == enc_trade(t)
                    && #[trigger] trade_strings_ok(t) implies false by {
                    lemma_trade_pieces(buf@, t);
                }
            }
            return None;
        } };
    let (brokerage, p) = match r_i64(buf, p) { Some(x) => x, None => {
            proof {
                assert forall|t: Trade| buf@ == enc_trade(t)
                    && #[trigger] trade_strings_ok(t) implies false by {
                    lemma_trade_pieces(buf@, t);
                }
            }
            return None;
        } };
    let (duration_sec, p) = match r_i64(buf, p) { Some(x) => x, None => {
            proof {
                assert forall|t: Trade| buf@ == enc_trade(t)
                    && #[trigger] trade_strings_ok(t) implies false by {
                    lemma_trade_pieces(buf@, t);
                }
            }
            return None;
        } };
    let (high_price, p) = match r_i64(buf, p) { Some(x) => x, None => {
            proof {
                assert forall|t: Trade| buf@ == enc_trade(t)
                    && #[trigger] trade_strings_ok(t) implies false by {
                    lemma_trade_pieces(buf@, t);
                }
            }
            return None;
        } };
    let (low_price, p) = match r_i64(buf, p) { Some(x) => x, None => {
            proof {
                assert forall|t: Trade| buf@ == enc_trade(t)
                    && #[trigger] trade_strings_ok(t) implies false by {
                    lemma_trade_pieces(buf@, t);
                }
            }
            return None;
        } };
    let (vix_at_entry, p) = match r_i64(buf, p) { Some(x) => x, None => {
            proof {
                assert forall|t: Trade| buf@ == enc_trade(t)
                    && #[trigger] trade_strings_ok(t) implies false by {
                    lemma_trade_pieces(buf@, t);
                }
            }
            return None;
        } };
    let (vix_at_exit, p) = match r_i64(buf, p) { Some(x) => x, None => {
            proof {
                assert forall|t: Trade| buf@ == enc_trade(t)
                    && #[trigger] trade_strings_ok(t) implies false by {
                    lemma_trade_pieces(buf@, t);
                }
            }
            return None;
        } };
    let (is_pe, p) = match r_bool(buf, p) { Some(x) => x, None => {
            proof {
                assert forall|t: Trade| buf@ == enc_trade(t)
                    && #[trigger] trade_strings_ok(t) implies false by {
                    lemma_trade_pieces(buf@, t);
                }
            }
            return None;
        } };
    proof {
        assert forall|t: Trade| buf@ == enc_trade(t) && #[trigger] trade_strings_ok(t)
            implies str_at(buf@, p as int, t.trade_id@) by {
            lemma_trade_pieces(buf@, t);
        }
    }
    let (trade_id, p) = match r_str(buf, p) { Some(x) => x, None => {
            proof {
                assert forall|t: Trade| buf@ == enc_trade(t)
                    && #[trigger] trade_strings_ok(t) implies false by {
                    lemma_trade_pieces(buf@, t);
                }
            }
            return None;
        } };
    let (position_id, p) = match r_str(buf, p) { Some(x) => x, None => {
            proof {
                assert forall|t: Trade| buf@ == enc_trade(t)
                    && #[trigger] trade_strings_ok(t) implies false by {
                    lemma_trade_pieces(buf@, t);
                }
            }
            return None;
        } };
    let (symbol, p) = match r_str(buf, p) { Some(x) => x, None => {
            proof {
                assert forall|t: Trade| buf@ == enc_trade(t)
                    && #[trigger] trade_strings_ok(t) implies false by {
                    lemma_trade_pieces(buf@, t);
                }
            }
            return None;
        } };
    let (underlying, p) = match r_str(buf, p) { Some(x) => x, None => {
            proof {
                assert forall|t: Trade| buf@ == enc_trade(t)
                    && #[trigger] trade_strings_ok(t) implies false by {
                    lemma_trade_pieces(buf@, t);
                }
            }
            return None;
        } };
    let (entry_reason, p) = match r_str(buf, p) { Some(x) => x, None => {
            proof {
                assert forall|t: Trade| buf@ == enc_trade(t)
                    && #[trigger] trade_strings_ok(t) implies false by {
                    lemma_trade_pieces(buf@, t);
                }
            }
            return None;
        } };
    let (exit_reason, p) = match r_str(buf, p) { Some(x) => x, None => {
            proof {
                assert forall|t: Trade| buf@ == enc_trade(t)
                    && #[trigger] trade_strings_ok(t) implies false by {
                    lemma_trade_pieces(buf@, t);
                }
            }
            return None;
        } };
    let (count64, p) = match r_u64(buf, p) { Some(x) => x, None => {
            proof {
                assert forall|t: Trade| buf@ == enc_trade(t)
                    && #[trigger] trade_strings_ok(t) implies false by {
                    lemma_trade_pieces(buf@, t);
                }
            }
            return None;
        } };
    if count64 > (usize::MAX as u64) {
        proof {
            assert forall|t: Trade| buf@ == enc_trade(t)
                && #[trigger] trade_strings_ok(t) implies false by {
                lemma_trade_pieces(buf@, t);
            }
        }
        return None;
    }
    let (reasons, p) = match r_strs(buf, p, count64 as usize) {
        Some(x) => x,
        None => {
            proof {
                assert forall|t: Trade| buf@ == enc_trade(t)
                    && #[trigger] trade_strings_ok(t) implies false by {
                    lemma_trade_pieces(buf@, t);
                }
            }
            return None;
        },
    };
    if p != blen {
        proof {
            assert forall|t: Trade| buf@ == enc_trade(t)
                && #[trigger] trade_strings_ok(t) implies false by {
                lemma_trade_pieces(buf@, t);
            }
        }
        return None;
    }
    let trade = Trade {
        trade_id,
        position_id,
        symbol,
        underlying,
        strike,
        option_type: if is_pe { OptionType::PE } else { OptionType::CE },
        quantity,
        entry_time_ms,
        entry_price,
        entry_reason,
        exit_time_ms,
        exit_price,
        exit_reason,
        secondary_reasons: reasons,
        pnl_gross,
        pnl_gross_pct,
        pnl_net,
        brokerage,
        duration_sec,
        high_price,
        low_price,
        vix_at_entry,
        vix_at_exit,
    };
    proof {
        assert forall|t: Trade| buf@ == enc_trade(t) && #[trigger] trade_strings_ok(t)
            implies trade_eq(trade, t) by {
            lemma_trade_pieces(buf@, t);
        }
    }
    Some(trade)
}


/// Position-lifecycle events carried by the durable event log: the two
/// kinds replay rebuilds the live set from.
pub open spec fn pos_event_ok(e: Event) -> bool {
    &&& printable(e.idempotency_key@)
    &&& (match e.payload {
        EventPayload::PositionOpened { position_id, symbol, entry_reason, .. } => {
            &&& e.event_type is PositionOpened
            &&& printable(position_id@)
            &&& printable(symbol@)
            &&& printable(entry_reason@)
        },
        EventPayload::PositionClosed { position_id, exit_reason, .. } => {
            &&& e.event_type is PositionClosed
            &&& printable(position_id@)
            &&& printable(exit_reason@)
        },
        _ => false,
    })
}

/// A position event as a line: a kind byte, the timestamp, five numeric
/// slots (unused ones zero), then key, position id and the two variant
/// strings (the second empty for a close).
pub open spec fn enc_pos_event(e: Event) -> Seq<u8> {
    match e.payload {
        EventPayload::PositionOpened { position_id, symbol, quantity, entry_price,
            entry_reason } => seq![79u8] + enc_i64(e.timestamp_ms) + enc_i64(quantity)
            + enc_i64(entry_price) + enc_i64(0) + enc_i64(0) + enc_i64(0)
            + enc_str(e.idempotency_key@) + enc_str(position_id@) + enc_str(symbol@)
            + enc_str(entry_reason@),
        EventPayload::PositionClosed { position_id, exit_price, exit_reason, pnl_gross,
            pnl_gross_pct } => seq![67u8] + enc_i64(e.timestamp_ms) + enc_i64(0) + enc_i64(0)
            + enc_i64(exit_price) + enc_i64(pnl_gross) + enc_i64(pnl_gross_pct)
            + enc_str(e.idempotency_key@) + enc_str(position_id@) + enc_str(exit_reason@)
            + enc_str(Seq::empty()),
        _ => Seq::empty(),
    }
}

/// The two events carry the same fields (strings compared by contents).
pub open spec fn pos_event_eq(a: Event, b: Event) -> bool {
    &&& a.event_type == b.event_type
    &&& a.timestamp_ms == b.timestamp_ms
    &&& a.idempotency_key@ == b.idempotency_key@
    &&& (match (a.payload, b.payload) {
        (EventPayload::PositionOpened { position_id: pa, symbol: sa, quantity: qa,
            entry_price: ea, entry_reason: ra },
            EventPayload::PositionOpened { position_id: pb, symbol: sb, quantity: qb,
            entry_price: eb, entry_reason: rb }) => pa@ == pb@ && sa@ == sb@ && qa == qb
            && ea == eb && ra@ == rb@,
        (EventPayload::PositionClosed { position_id: pa, exit_price: ea, exit_reason: ra,
            pnl_gross: ga, pnl_gross_pct: ca },
            EventPayload::PositionClosed { position_id: pb, exit_price: eb, exit_reason: rb,
            pnl_gross: gb, pnl_gross_pct: cb }) => pa@ == pb@ && ea == eb && ra@ == rb@
            && ga == gb && ca == cb,
        _ => false,
    })
}

/// Render a position event as one log line.
#[verifier::rlimit(100)]
pub fn encode_position_event(e: &Event) -> (r: Vec<u8>)
    requires
        pos_event_ok(*e),
    ensures
        r@ == enc_pos_event(*e),
{
    let mut out: Vec<u8> = Vec::new();
    match &e.payload {
        EventPayload::PositionOpened { position_id, symbol, quantity, entry_price,
            entry_reason } => {
            out.push(79);
            proof {
                assert(out@ =~= seq![79u8]);
            }
            w_i64(&mut out, e.timestamp_ms);
            w_i64(&mut out, *quantity);
            w_i64(&mut out, *entry_price);
            w_i64(&mut out, 0);
            w_i64(&mut out, 0);
            w_i64(&mut out, 0);
            w_str(&mut out, &e.idempotency_key);
            w_str(&mut out, position_id);
            w_str(&mut out, symbol);
            w_str(&mut out, entry_reason);
            proof {
                assert(out@ =~= enc_pos_event(*e));
            }
        },
        EventPayload::PositionClosed { position_id, exit_price, exit_reason, pnl_gross,
            pnl_gross_pct } => {
            out.push(67);
            proof {
                assert(out@ =~= seq![67u8]);
            }
            w_i64(&mut out, e.timestamp_ms);
            w_i64(&mut out, 0);
            w_i64(&mut out, 0);
            w_i64(&mut out, *exit_price);
            w_i64(&mut out, *pnl_gross);
            w_i64(&mut out, *pnl_gross_pct);
            w_str(&mut out, &e.idempotency_key);
            w_str(&mut out, position_id);
            w_str(&mut out, exit_reason);
            let empty_tail = String::new();
            w_str(&mut out, &empty_tail);
            proof {
                assert(out@ =~= enc_pos_event(*e));
            }
        },
        _ => {},
    }
    out
}

/// Facts a buffer holding a position-event line yields.
#[verifier::rlimit(100)]
#[verifier::spinoff_prover]
proof fn lemma_pos_event_pieces(buf: Seq<u8>, e: Event)
    requires
        pos_event_ok(e),
        buf == enc_pos_event(e),
        buf.len() <= usize::MAX,
    ensures
        buf.len() >= 97,
        buf[0] == (if e.event_type is PositionOpened { 79u8 } else { 67u8 }),
        buf.subrange(1, 17) == enc_i64(e.timestamp_ms),
        (e.payload matches EventPayload::PositionOpened { quantity, entry_price, .. }
            ==> buf.subrange(17, 33) == enc_i64(quantity)
                && buf.subrange(33, 49) == enc_i64(entry_price)
                && buf.subrange(49, 65) == enc_i64(0)
                && buf.subrange(65, 81) == enc_i64(0)
                && buf.subrange(81, 97) == enc_i64(0)),
        (e.payload matches EventPayload::PositionClosed { exit_price, pnl_gross,
            pnl_gross_pct, .. }
            ==> buf.subrange(17, 33) == enc_i64(0)
                && buf.subrange(33, 49) == enc_i64(0)
                && buf.subrange(49, 65) == enc_i64(exit_price)
                && buf.subrange(65, 81) == enc_i64(pnl_gross)
                && buf.subrange(81, 97) == enc_i64(pnl_gross_pct)),
        str_at(buf, 97, e.idempotency_key@),
        (e.payload matches EventPayload::PositionOpened { position_id, symbol, entry_reason,
            .. } ==> {
            let o2 = 97 + 16 + e.idempotency_key@.len() as int;
            &&& str_at(buf, o2, position_id@)
            &&& str_at(buf, o2 + 16 + position_id@.len() as int, symbol@)
            &&& str_at(buf, o2 + 32 + position_id@.len() as int + symbol@.len() as int,
                entry_reason@)
            &&& buf.len() == o2 + 48 + position_id@.len() + symbol@.len()
                + entry_reason@.len()
        }),
        (e.payload matches EventPayload::PositionClosed { position_id, exit_reason, .. } ==> {
            let o2 = 97 + 16 + e.idempotency_key@.len() as int;
            &&& str_at(buf, o2, position_id@)
            &&& str_at(buf, o2 + 16 + position_id@.len() as int, exit_reason@)
            &&& str_at(buf, o2 + 32 + position_id@.len() as int + exit_reason@.len() as int,
                Seq::empty())
            &&& buf.len() == o2 + 48 + position_id@.len() + exit_reason@.len()
        }),
{
    match e.payload {
        EventPayload::PositionOpened { position_id, symbol, quantity, entry_price,
            entry_reason } => {
            assert(buf.subrange(1, 17) =~= enc_i64(e.timestamp_ms));
            assert(buf.subrange(17, 33) =~= enc_i64(quantity));
            assert(buf.subrange(33, 49) =~= enc_i64(entry_price));
            assert(buf.subrange(49, 65) =~= enc_i64(0));
            assert(buf.subrange(65, 81) =~= enc_i64(0));
            assert(buf.subrange(81, 97) =~= enc_i64(0));
            let o1: int = 97;
            let l1 = 16 + e.idempotency_key@.len() as int;
            assert(buf.subrange(o1 as int, o1 + l1) =~= enc_str(e.idempotency_key@));
            let o2 = o1 + l1;
            let l2 = 16 + position_id@.len() as int;
            assert(buf.subrange(o2 as int, o2 + l2) =~= enc_str(position_id@));
            let o3 = o2 + l2;
            let l3 = 16 + symbol@.len() as int;
            assert(buf.subrange(o3 as int, o3 + l3) =~= enc_str(symbol@));
            let o4 = o3 + l3;
            let l4 = 16 + entry_reason@.len() as int;
            assert(buf.subrange(o4 as int, o4 + l4) =~= enc_str(entry_reason@));
        },
        EventPayload::PositionClosed { position_id, exit_price, exit_reason, pnl_gross,
            pnl_gross_pct } => {
            assert(buf.subrange(1, 17) =~= enc_i64(e.timestamp_ms));
            assert(buf.subrange(17, 33) =~= enc_i64(0));
            assert(buf.subrange(33, 49) =~= enc_i64(0));
            assert(buf.subrange(49, 65) =~= enc_i64(exit_price));
            assert(buf.subrange(65, 81) =~= enc_i64(pnl_gross));
            assert(buf.subrange(81, 97) =~= enc_i64(pnl_gross_pct));
            let o1: int = 97;
            let l1 = 16 + e.idempotency_key@.len() as int;
            assert(buf.subrange(o1 as int, o1 + l1) =~= enc_str(e.idempotency_key@));
            let o2 = o1 + l1;
            let l2 = 16 + position_id@.len() as int;
            assert(buf.subrange(o2 as int, o2 + l2) =~= enc_str(position_id@));
            let o3 = o2 + l2;
            let l3 = 16 + exit_reason@.len() as int;
            assert(buf.subrange(o3 as int, o3 + l3) =~= enc_str(exit_reason@));
            let o4 = o3 + l3;
            assert(buf.subrange(o4 as int, o4 + 16) =~= enc_str(Seq::<char>::empty()));
        },
        _ => {},
    }
}

/// Parse a position-event line: the exact encoding of any open or close
/// event decodes back to an event equal to it field for field.  Other
/// event kinds are not carried by this codec.
#[verifier::rlimit(100)]
#[verifier::spinoff_prover]
pub fn decode_position_event(buf: &Vec<u8>) -> (r: Option<Event>)
    ensures
        forall|e: Event| buf@ == enc_pos_event(e) && #[trigger] pos_event_ok(e)
            ==> (match r {
                Some(d) => pos_event_eq(d, e),
                None => false,
            }),
{
    let blen = buf.len();
    if blen < 97 {
        proof {
            assert forall|e: Event| buf@ == enc_pos_event(e) && #[trigger] pos_event_ok(e)
                implies false by {
                lemma_pos_event_pieces(buf@, e);
            }
        }
        return None;
    }
    let tag = buf[0];
    if tag != 79 && tag != 67 {
        proof {
            assert forall|e: Event| buf@ == enc_pos_event(e) && #[trigger] pos_event_ok(e)
                implies false by {
                lemma_pos_event_pieces(buf@, e);
            }
        }
        return None;
    }
    let (ts, _p) = match r_i64(buf, 1) {
        Some(x) => x,
        None => {
            proof {
                assert forall|e: Event| buf@ == enc_pos_event(e) && #[trigger] pos_event_ok(e)
                    implies false by {
                    lemma_pos_event_pieces(buf@, e);
                }
            }
            return None;
        },
    };
    let (quantity, _p) = match r_i64(buf, 17) {
        Some(x) => x,
        None => {
            proof {
                assert forall|e: Event| buf@ == enc_pos_event(e) && #[trigger] pos_event_ok(e)
                    implies false by {
                    lemma_pos_event_pieces(buf@, e);
                }
            }
            return None;
        },
    };
    let (entry_price, _p) = match r_i64(buf, 33) {
        Some(x) => x,
        None => {
            proof {
                assert forall|e: Event| buf@ == enc_pos_event(e) && #[trigger] pos_event_ok(e)
                    implies false by {
                    lemma_pos_event_pieces(buf@, e);
                }
            }
            return None;
        },
    };
    let (exit_price, _p) = match r_i64(buf, 49) {
        Some(x) => x,
        None => {
            proof {
                assert forall|e: Event| buf@ == enc_pos_event(e) && #[trigger] pos_event_ok(e)
                    implies false by {
                    lemma_pos_event_pieces(buf@, e);
                }
            }
            return None;
        },
    };
    let (pnl_gross, _p) = match r_i64(buf, 65) {
        Some(x) => x,
        None => {
            proof {
                assert forall|e: Event| buf@ == enc_pos_event(e) && #[trigger] pos_event_ok(e)
                    implies false by {
                    lemma_pos_event_pieces(buf@, e);
                }
            }
            return None;
        },
    };
    let (pnl_gross_pct, _p) = match r_i64(buf, 81) {
        Some(x) => x,
        None => {
            proof {
                assert forall|e: Event| buf@ == enc_pos_event(e) && #[trigger] pos_event_ok(e)
                    implies false by {
                    lemma_pos_event_pieces(buf@, e);
                }
            }
            return None;
        },
    };
    let (key, p) = match r_str(buf, 97) {
        Some(x) => x,
        None => {
            proof {
                assert forall|e: Event| buf@ == enc_pos_event(e) && #[trigger] pos_event_ok(e)
                    implies false by {
                    lemma_pos_event_pieces(buf@, e);
                }
            }
            return None;
        },
    };
    let (position_id, p) = match r_str(buf, p) {
        Some(x) => x,
        None => {
            proof {
                assert forall|e: Event| buf@ == enc_pos_event(e) && #[trigger] pos_event_ok(e)
                    implies false by {
                    lemma_pos_event_pieces(buf@, e);
                }
            }
            return None;
        },
    };
    let (s1, p) = match r_str(buf, p) {
        Some(x) => x,
        None => {
            proof {
                assert forall|e: Event| buf@ == enc_pos_event(e) && #[trigger] pos_event_ok(e)
                    implies false by {
                    lemma_pos_event_pieces(buf@, e);
                }
            }
            return None;
        },
    };
    let (s2, p) = match r_str(buf, p) {
        Some(x) => x,
        None => {
            proof {
                assert forall|e: Event| buf@ == enc_pos_event(e) && #[trigger] pos_event_ok(e)
                    implies false by {
                    lemma_pos_event_pieces(buf@, e);
                }
            }
            return None;
        },
    };
    if p != blen {
        proof {
            assert forall|e: Event| buf@ == enc_pos_event(e) && #[trigger] pos_event_ok(e)
                implies false by {
                lemma_pos_event_pieces(buf@, e);
            }
        }
        return None;
    }
    let event = if tag == 79 {
        Event {
            event_type: EventType::PositionOpened,
            timestamp_ms: ts,
            idempotency_key: key,
            payload: EventPayload::PositionOpened {
                position_id,
                symbol: s1,
                quantity,
                entry_price,
                entry_reason: s2,
            },
        }
    } else {
        Event {
            event_type: EventType::PositionClosed,
            timestamp_ms: ts,
            idempotency_key: key,
            payload: EventPayload::PositionClosed {
                position_id,
                exit_price,
                exit_reason: s1,
                pnl_gross,
                pnl_gross_pct,
            },
        }
    };
    proof {
        assert forall|e: Event| buf@ == enc_pos_event(e) && #[trigger] pos_event_ok(e)
            implies pos_event_eq(event, e) by {
            lemma_pos_event_pieces(buf@, e);
        }
    }
    Some(event)
}

} // verus!




