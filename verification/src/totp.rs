//! Time-based one-time passwords: base32 secrets, HOTP truncation, code
//! checks with clock-skew windows and replay protection.

use vstd::prelude::*;
use vstd::arithmetic::power2::{pow2, lemma_pow2_adds, lemma_pow2_pos, lemma_pow2_unfold};
use vstd::arithmetic::div_mod::{
    lemma_fundamental_div_mod, lemma_fundamental_div_mod_converse,
    lemma_mod_mod,
};

use vstd::utf8::encode_utf8;
use crate::digest::{
    base32_decode, base32_decoded, hmac_sha1, hmac_sha1_of, hmac_sha256, hmac_sha256_of,
    hmac_sha512_of,
};
use crate::text::{all_digits, decimal, decimal_padded, has_char, seq_contains, seq_starts_with, views};
use crate::ids::{parse_uuid, parsed_uuid, uuid_hyphenated, uuid_text};

verus! {

/// The value of a base32 symbol: letters of either case, then the digits
/// 2 to 7.
pub open spec fn b32_value(c: char) -> Option<nat> {
    if 'A' <= c && c <= 'Z' {
        Some((c as nat - 65) as nat)
    } else if 'a' <= c && c <= 'z' {
        Some((c as nat - 97) as nat)
    } else if '2' <= c && c <= '7' {
        Some((c as nat - 24) as nat)
    } else {
        None
    }
}

/// The symbol values of base32 text, skipping '=' padding; `None` when
/// some other character is not a base32 symbol.
pub open spec fn b32_symbols(s: Seq<char>) -> Option<Seq<nat>>
    decreases s.len(),
{
    if s.len() == 0 {
        Some(Seq::empty())
    } else {
        match b32_symbols(s.drop_last()) {
            None => None,
            Some(p) => if s.last() == '=' {
                Some(p)
            } else {
                match b32_value(s.last()) {
                    Some(v) => Some(p.push(v)),
                    None => None,
                }
            },
        }
    }
}

/// The number whose base-32 digits are the symbols, most significant first.
pub open spec fn symbols_value(y: Seq<nat>) -> nat
    decreases y.len(),
{
    if y.len() == 0 {
        0
    } else {
        symbols_value(y.drop_last()) * 32 + y.last()
    }
}

/// The whole bytes at the top of an `l`-bit number `v`, most significant
/// first; bits left over at the bottom are dropped.
pub open spec fn top_bytes(v: nat, l: nat) -> Seq<u8> {
    Seq::new(l / 8, |k: int| ((v / pow2((l - 8 * (k + 1)) as nat)) % 256) as u8)
}

/// The bytes of base32 text read leniently: either case, '=' ignored
/// anywhere, trailing bits that do not fill a byte dropped.
pub open spec fn lenient_base32(s: Seq<char>) -> Option<Seq<u8>> {
    match b32_symbols(s) {
        Some(y) => Some(top_bytes(symbols_value(y), 5 * y.len())),
        None => None,
    }
}

fn small_pow2(e: u64) -> (r: u64)
    requires
        e < 32,
    ensures
        r == pow2(e as nat),
        r > 0,
{
    let mut r: u64 = 1;
    let mut i: u64 = 0;
    proof {
        vstd::arithmetic::power2::lemma2_to64();
    }
    while i < e
        invariant
            i <= e < 32,
            r == pow2(i as nat),
            r <= 0x8000_0000,
        decreases e - i,
    {
        proof {
            lemma_pow2_unfold((i + 1) as nat);
            vstd::arithmetic::power2::lemma_pow2_strictly_increases((i + 1) as nat, 32);
            vstd::arithmetic::power2::lemma2_to64();
        }
        r = r * 2;
        i = i + 1;
    }
    proof {
        lemma_pow2_pos(e as nat);
    }
    r
}

proof fn lemma_shift_in(v: nat, s: nat, b: nat, m: nat)
    requires
        s < b,
        0 < m,
        0 < b,
    ensures
        ((b * v + s) % (b * m)) as int == b * (v % m) + s,
        ((b * v + s) / (b * m)) as int == v / m,
{
    let q = v / m;
    let r = v % m;
    lemma_fundamental_div_mod(v as int, m as int);
    assert(b * v + s == q * (b * m) + (b * r + s)) by (nonlinear_arith)
        requires
            v == m * q + r,
    ;
    assert(b * r + s < b * m) by (nonlinear_arith)
        requires
            r < m,
            s < b,
    ;
    assert(0 <= b * r) by (nonlinear_arith)
        requires
            0 <= r,
            0 <= b,
    ;
    lemma_fundamental_div_mod_converse((b * v + s) as int, (b * m) as int, q as int, (b * r
        + s) as int);
}

proof fn lemma_window(x: nat, a: nat)
    requires
        0 < a,
    ensures
        (x / a) % 256 == (x % (256 * a)) / a,
{
    lemma_window_base(x, a, 256);
}

proof fn lemma_window_base(x: nat, a: nat, w: nat)
    requires
        0 < a,
        0 < w,
    ensures
        (x / a) % w == (x % (w * a)) / a,
{
    let q = x / (w * a);
    let r = x % (w * a);
    assert(w * a > 0) by (nonlinear_arith)
        requires
            0 < a,
            0 < w,
    ;
    lemma_fundamental_div_mod(x as int, (w * a) as int);
    let q2 = r / a;
    let r2 = r % a;
    lemma_fundamental_div_mod(r as int, a as int);
    assert(q2 < w) by (nonlinear_arith)
        requires
            r < w * a,
            r == a * q2 + r2,
            0 <= r2,
            0 < a,
    ;
    assert(x == (w * q + q2) * a + r2) by (nonlinear_arith)
        requires
            x == (w * a) * q + r,
            r == a * q2 + r2,
    ;
    lemma_fundamental_div_mod_converse(x as int, a as int, (w * q + q2) as int, r2 as int);
    assert((w * q + q2) == q * w + q2);
    lemma_fundamental_div_mod_converse((w * q + q2) as int, w as int, q as int, q2 as int);
}

proof fn lemma_top_bytes_extend(v: nat, l: nat, s: nat, k: int)
    requires
        s < 32,
        0 <= k < l / 8,
    ensures
        top_bytes(32 * v + s, l + 5)[k] == top_bytes(v, l)[k],
{
    let e = (l - 8 * (k + 1)) as nat;
    assert((l + 5 - 8 * (k + 1)) as nat == e + 5);
    lemma_pow2_adds(e, 5);
    vstd::arithmetic::power2::lemma2_to64();
    lemma_pow2_pos(e);
    lemma_shift_in(v, s, 32, pow2(e));
    assert(pow2(e + 5) == 32 * pow2(e));
}

/// Decodes base32 text leniently (either case, '=' ignored).
pub fn decode_base32_lenient(s: &str) -> (r: Option<Vec<u8>>)
    ensures
        match r {
            Some(b) => lenient_base32(s@) == Some(b@),
            None => lenient_base32(s@) is None,
        },
{
    let cs = crate::text::chars_of(s);
    let n = cs.len();
    let mut out: Vec<u8> = Vec::new();
    let mut acc: u64 = 0;
    let mut bits: u64 = 0;
    let ghost mut y: Seq<nat> = Seq::empty();
    assert(cs@.take(0) =~= Seq::<char>::empty());
    proof {
        vstd::arithmetic::power2::lemma2_to64();
        assert(top_bytes(0, 0) =~= Seq::<u8>::empty());
    }
    for i in 0..n
        invariant
            n == cs@.len(),
            cs@ == s@,
            b32_symbols(cs@.take(i as int)) == Some(y),
            bits < 8,
            out@.len() * 8 + bits == 5 * y.len(),
            acc == symbols_value(y) % pow2(bits as nat),
            out@ == top_bytes(symbols_value(y), 5 * y.len()),
    {
        let c = cs[i];
        assert(cs@.take(i + 1).drop_last() =~= cs@.take(i as int));
        assert(cs@.take(i + 1).last() == c);
        if c != '=' {
        let val: u64 = if 'A' <= c && c <= 'Z' {
            (c as u32 - 65) as u64
        } else if 'a' <= c && c <= 'z' {
            (c as u32 - 97) as u64
        } else if '2' <= c && c <= '7' {
            (c as u32 - 24) as u64
        } else {
            proof {
                assert(b32_symbols(cs@.take(i + 1)) is None);
                lemma_symbols_none_extends(cs@, i + 1);
                assert(cs@.take(n as int) =~= cs@);
            }
            return None;
        };
        let ghost v0 = symbols_value(y);
        let ghost l0 = 5 * y.len();
        let ghost k0 = out@.len();
        proof {
            assert(b32_value(c) == Some(val as nat));
            lemma_pow2_pos(bits as nat);
            lemma_shift_in(v0, val as nat, 32, pow2(bits as nat));
            lemma_pow2_adds(bits as nat, 5);
            vstd::arithmetic::power2::lemma2_to64();
            assert(pow2(bits as nat + 5) == 32 * pow2(bits as nat));
            assert(acc < pow2(bits as nat));
            vstd::arithmetic::power2::lemma_pow2_strictly_increases(bits as nat, 8);
        }
        let acc1: u64 = acc * 32 + val;
        let bits1: u64 = bits + 5;
        proof {
            let y0 = y;
            y = y0.push(val as nat);
            assert(y.drop_last() =~= y0);
            assert(symbols_value(y) == 32 * v0 + val);
            assert(acc1 == symbols_value(y) % pow2(bits1 as nat));
            assert forall|k: int| 0 <= k < k0 implies top_bytes(symbols_value(y), l0 + 5)[k]
                == out@[k] by {
                lemma_top_bytes_extend(v0, l0, val as nat, k);
            }
        }
        if bits1 >= 8 {
            let b2 = bits1 - 8;
            let p = small_pow2(b2);
            proof {
                lemma_pow2_adds(b2 as nat, 8);
                vstd::arithmetic::power2::lemma2_to64();
                assert(pow2(bits1 as nat) == 256 * p);
                lemma_window(symbols_value(y), p as nat);
                lemma_mod_mod(symbols_value(y) as int, p as int, 256);
                assert(acc1 < 256 * p);
                assert(acc1 / p < 256) by (nonlinear_arith)
                    requires
                        acc1 < 256 * p,
                        p > 0,
                ;
            }
            let byte: u8 = (acc1 / p) as u8;
            out.push(byte);
            acc = acc1 % p;
            bits = b2;
            proof {
                assert((l0 + 5 - 8 * (k0 + 1)) as nat == b2 as nat);
                assert(out@ =~= top_bytes(symbols_value(y), 5 * y.len()));
            }
        } else {
            acc = acc1;
            bits = bits1;
            proof {
                assert(out@ =~= top_bytes(symbols_value(y), 5 * y.len()));
            }
        }
        }
    }
    assert(cs@.take(n as int) =~= cs@);
    Some(out)
}

proof fn lemma_symbols_none_extends(s: Seq<char>, i: int)
    requires
        0 <= i <= s.len(),
        b32_symbols(s.take(i)) is None,
    ensures
        b32_symbols(s) is None,
    decreases s.len() - i,
{
    if i < s.len() {
        assert(s.take(i + 1).drop_last() =~= s.take(i));
        lemma_symbols_none_extends(s, i + 1);
    } else {
        assert(s.take(i) =~= s);
    }
}


/// The number whose base-256 digits are the bytes, most significant first.
pub open spec fn bytes_value(b: Seq<u8>) -> nat
    decreases b.len(),
{
    if b.len() == 0 {
        0
    } else {
        bytes_value(b.drop_last()) * 256 + b.last() as nat
    }
}

/// The base32 symbol of a value below 32 (RFC 4648 alphabet).
pub open spec fn b32_char(v: nat) -> char {
    if v < 26 {
        (65 + v) as char
    } else {
        (24 + v) as char
    }
}

/// Unpadded RFC 4648 base32 text of bytes: the bits, most significant
/// first and filled with zero bits up to a multiple of five, five at a time.
pub open spec fn base32_text(b: Seq<u8>) -> Seq<char> {
    let l = 8 * b.len();
    let m = (l + 4) / 5;
    let p = 5 * m;
    let v = bytes_value(b) * pow2((p - l) as nat);
    Seq::new(m, |k: int| b32_char((v / pow2((p - 5 * (k + 1)) as nat)) % 32))
}

fn b32_symbol(v: u64) -> (c: char)
    requires
        v < 32,
    ensures
        c == b32_char(v as nat),
{
    if v < 26 {
        let b: u8 = (65 + v) as u8;
        b as char
    } else {
        let b: u8 = (24 + v) as u8;
        b as char
    }
}

proof fn lemma_scale_div(x: nat, a: nat, c: nat)
    requires
        0 < a,
        0 < c,
    ensures
        (x * c) / (a * c) == x / a,
        (x * c) % (a * c) == (x % a) * c,
{
    lemma_fundamental_div_mod(x as int, a as int);
    let q = x / a;
    let r = x % a;
    assert(x * c == q * (a * c) + r * c) by (nonlinear_arith)
        requires
            x == a * q + r,
    ;
    assert(r * c < a * c) by (nonlinear_arith)
        requires
            r < a,
            0 < c,
    ;
    assert(0 <= r * c) by (nonlinear_arith)
        requires
            0 <= r,
            0 < c,
    ;
    assert(a * c != 0) by (nonlinear_arith)
        requires
            0 < a,
            0 < c,
    ;
    lemma_fundamental_div_mod_converse((x * c) as int, (a * c) as int, q as int, (r * c) as int);
}

/// Unpadded RFC 4648 base32 encoding.
pub fn encode_base32(data: &[u8]) -> (s: String)
    ensures
        s@ == base32_text(data@),
{
    let n = data.len();
    let mut out: Vec<char> = Vec::new();
    let mut acc: u64 = 0;
    let mut bits: u64 = 0;
    proof {
        vstd::arithmetic::power2::lemma2_to64();
        assert(data@.take(0) =~= Seq::<u8>::empty());
    }
    for i in 0..n
        invariant
            n == data@.len(),
            bits < 5,
            out@.len() * 5 + bits == 8 * i,
            acc == bytes_value(data@.take(i as int)) % pow2(bits as nat),
            forall|k: int|
                0 <= k < out@.len() ==> #[trigger] out@[k] == b32_char(
                    (bytes_value(data@.take(i as int)) / pow2((8 * i - 5 * (k + 1)) as nat)) % 32,
                ),
    {
        let ghost v0 = bytes_value(data@.take(i as int));
        let ghost out0 = out@;
        let x = data[i];
        proof {
            assert(data@.take(i + 1).drop_last() =~= data@.take(i as int));
            assert(bytes_value(data@.take(i + 1)) == 256 * v0 + x);
            lemma_pow2_pos(bits as nat);
            lemma_shift_in(v0, x as nat, 256, pow2(bits as nat));
            lemma_pow2_adds(bits as nat, 8);
            vstd::arithmetic::power2::lemma2_to64();
            vstd::arithmetic::power2::lemma_pow2_strictly_increases(bits as nat, 5);
            assert forall|k: int| 0 <= k < out0.len() implies #[trigger] out0[k] == b32_char(
                (bytes_value(data@.take(i + 1)) / pow2((8 * (i + 1) - 5 * (k + 1)) as nat)) % 32,
            ) by {
                let e = (8 * i - 5 * (k + 1)) as nat;
                assert((8 * (i + 1) - 5 * (k + 1)) as nat == e + 8);
                lemma_pow2_adds(e, 8);
                lemma_pow2_pos(e);
                lemma_shift_in(v0, x as nat, 256, pow2(e));
            }
        }
        acc = acc * 256 + x as u64;
        bits = bits + 8;
        let ghost v1 = bytes_value(data@.take(i + 1));
        while bits >= 5
            invariant
                5 <= bits + 5 <= 17,
                bits <= 12,
                v1 == bytes_value(data@.take(i + 1)),
                out@.len() * 5 + bits == 8 * (i + 1),
                acc == v1 % pow2(bits as nat),
                forall|k: int|
                    0 <= k < out@.len() ==> #[trigger] out@[k] == b32_char(
                        (v1 / pow2((8 * (i + 1) - 5 * (k + 1)) as nat)) % 32,
                    ),
            decreases bits,
        {
            let b2 = bits - 5;
            let p = small_pow2(b2);
            proof {
                lemma_pow2_adds(b2 as nat, 5);
                vstd::arithmetic::power2::lemma2_to64();
                assert(pow2(bits as nat) == 32 * p);
                lemma_window_base(v1, p as nat, 32);
                lemma_mod_mod(v1 as int, p as int, 32);
                assert(acc < 32 * p);
                assert(acc / p < 32) by (nonlinear_arith)
                    requires
                        acc < 32 * p,
                        p > 0,
                ;
            }
            let sym = acc / p;
            let ghost k0 = out@.len();
            out.push(b32_symbol(sym));
            acc = acc % p;
            bits = b2;
            proof {
                assert((8 * (i + 1) - 5 * (k0 + 1)) as nat == b2 as nat);
            }
        }
    }
    assert(data@.take(n as int) =~= data@);
    let ghost v = bytes_value(data@);
    let ghost l = 8 * n;
    if bits > 0 {
        let sh = small_pow2(5 - bits);
        proof {
            lemma_pow2_adds(bits as nat, (5 - bits) as nat);
            vstd::arithmetic::power2::lemma2_to64();
            lemma_pow2_pos(bits as nat);
            lemma_scale_div(v, pow2(bits as nat), sh as nat);
            assert(acc * sh < 32) by (nonlinear_arith)
                requires
                    acc < pow2(bits as nat),
                    pow2(bits as nat) * sh == 32,
            ;
        }
        let ghost k0 = out@.len();
        let ghost out0_final = out@;
        out.push(b32_symbol(acc * sh));
        proof {
            let m = (l + 4) / 5;
            assert(m == k0 + 1);
            let p = 5 * m;
            assert((p - l) as nat == (5 - bits) as nat);
            assert forall|k: int| 0 <= k < out@.len() implies #[trigger] out@[k] == b32_char(
                ((v * pow2((p - l) as nat)) / pow2((p - 5 * (k + 1)) as nat)) % 32,
            ) by {
                if k < k0 {
                    let e = (l - 5 * (k + 1)) as nat;
                    assert((p - 5 * (k + 1)) as nat == e + (5 - bits) as nat);
                    lemma_pow2_adds(e, (5 - bits) as nat);
                    lemma_pow2_pos(e);
                    lemma_scale_div(v, pow2(e), sh as nat);
                    assert(pow2(e) * sh == pow2((p - 5 * (k + 1)) as nat));
                    assert(out@[k] == out0_final[k]);
                    assert(out0_final[k] == b32_char((v / pow2(e)) % 32));
                    assert(pow2((p - l) as nat) == sh);
                    assert((v * sh) / (pow2(e) * sh) == v / pow2(e));
                } else {
                    assert((p - 5 * (k + 1)) as nat == 0);
                    assert(v * sh == (v % pow2(bits as nat)) * sh + (v / pow2(bits as nat)) * 32)
                        by (nonlinear_arith)
                        requires
                            pow2(bits as nat) * sh == 32,
                            pow2(bits as nat) > 0,
                    {
                        lemma_fundamental_div_mod(v as int, pow2(bits as nat) as int);
                    }
                    assert((v * sh) % 32 == acc * sh);
                    assert(pow2((p - l) as nat) == sh);
                    assert(pow2(0) == 1);
                    assert((v * sh) / 1 == v * sh);
                    assert(out@[k] == b32_char((acc * sh) as nat));
                }
            }
            assert(out@ =~= base32_text(data@));
        }
    } else {
        proof {
            let m = (l + 4) / 5;
            assert(m == out@.len());
            assert(l % 5 == 0);
            assert(5 * m == l);
            assert(pow2(0) == 1) by {
                vstd::arithmetic::power2::lemma2_to64();
            }
            assert forall|k: int| 0 <= k < out@.len() implies #[trigger] out@[k] == base32_text(
                data@,
            )[k] by {
                let e = (l - 5 * (k + 1)) as nat;
                assert(out@[k] == b32_char((v / pow2(e)) % 32));
                assert((5 * m - l) as nat == 0);
                assert(v * pow2(0) == v);
                assert(base32_text(data@)[k] == b32_char(((v * pow2(0)) / pow2(e)) % 32));
            }
            assert(out@ =~= base32_text(data@));
        }
    }
    crate::text::string_from_chars(out.as_slice())
}


/// Compares two byte strings in time that depends only on their lengths.
pub fn constant_time_eq(a: &[u8], b: &[u8]) -> (r: bool)
    ensures
        r == (a@ == b@),
{
    if a.len() != b.len() {
        return false;
    }
    let n = a.len();
    let mut result: u8 = 0;
    for i in 0..n
        invariant
            n == a@.len() == b@.len(),
            (result == 0) == (forall|k: int| 0 <= k < i ==> a@[k] == b@[k]),
    {
        let x = a[i];
        let y = b[i];
        let r0 = result;
        result = result | (x ^ y);
        assert((r0 | (x ^ y)) == 0 <==> (r0 == 0 && x == y)) by (bit_vector);
    }
    assert(a@ =~= b@ <==> (forall|k: int| 0 <= k < n ==> a@[k] == b@[k]));
    result == 0
}

/// The eight bytes of a counter, most significant first.
pub open spec fn be8(n: u64) -> Seq<u8> {
    seq![
        (n / 0x100000000000000) as u8,
        ((n / 0x1000000000000) % 256) as u8,
        ((n / 0x10000000000) % 256) as u8,
        ((n / 0x100000000) % 256) as u8,
        ((n / 0x1000000) % 256) as u8,
        ((n / 0x10000) % 256) as u8,
        ((n / 0x100) % 256) as u8,
        (n % 256) as u8,
    ]
}

fn counter_bytes(n: u64) -> (b: Vec<u8>)
    ensures
        b@ == be8(n),
{
    let mut b: Vec<u8> = Vec::new();
    b.push((n / 0x100000000000000) as u8);
    b.push(((n / 0x1000000000000) % 256) as u8);
    b.push(((n / 0x10000000000) % 256) as u8);
    b.push(((n / 0x100000000) % 256) as u8);
    b.push(((n / 0x1000000) % 256) as u8);
    b.push(((n / 0x10000) % 256) as u8);
    b.push(((n / 0x100) % 256) as u8);
    b.push((n % 256) as u8);
    assert(b@ =~= be8(n));
    b
}

/// The 31-bit number that dynamic truncation reads from a MAC: four bytes
/// at the offset given by the low nibble of the last byte, top bit cleared.
pub open spec fn truncated(mac: Seq<u8>) -> nat {
    let o = (mac.last() % 16) as int;
    ((mac[o] % 128) * 16777216 + mac[o + 1] * 65536 + mac[o + 2] * 256 + mac[o + 3]) as nat
}

fn truncate_mac(mac: &Vec<u8>) -> (v: u32)
    requires
        mac@.len() >= 19,
    ensures
        v == truncated(mac@),
        v < 0x8000_0000,
{
    let last = mac[mac.len() - 1];
    let o = (last % 16) as usize;
    let v: u32 = ((mac[o] % 128) as u32) * 16777216 + (mac[o + 1] as u32) * 65536 + (mac[o
        + 2] as u32) * 256 + (mac[o + 3] as u32);
    v
}

/// HOTP code of the API's simple TOTP check: HMAC-SHA256 of the counter,
/// truncated, modulo one million.
pub open spec fn hotp_sha256(key: Seq<u8>, counter: u64) -> nat {
    truncated(hmac_sha256_of(key, be8(counter))) % 1_000_000
}

/// Generates the HOTP code of a counter under a key.
pub fn generate_hotp_simple(key: &[u8], counter: u64) -> (code: u32)
    ensures
        code == hotp_sha256(key@, counter),
{
    let c = counter_bytes(counter);
    let mac = hmac_sha256(key, c.as_slice());
    truncate_mac(&mac) % 1_000_000
}

/// The number a string of decimal digits denotes.
pub open spec fn digits_value(s: Seq<char>) -> nat
    decreases s.len(),
{
    if s.len() == 0 {
        0
    } else {
        digits_value(s.drop_last()) * 10 + (s.last() as nat - 48) as nat
    }
}

/// The code is six decimal digits.
pub open spec fn six_digits(code: Seq<char>) -> bool {
    code.len() == 6 && all_digits(code)
}

/// The code matches the HOTP of the 30-second window of `now` or of an
/// adjacent one (no window below zero).
pub open spec fn code_in_window(code: nat, key: Seq<u8>, now: u64) -> bool {
    let w = now / 30;
    ||| (w >= 1 && hotp_sha256(key, (w - 1) as u64) == code)
    ||| hotp_sha256(key, w as u64) == code
    ||| hotp_sha256(key, (w + 1) as u64) == code
}

/// The code is valid for the secret at time `now` (Unix seconds).
pub open spec fn totp_code_valid_at(code: Seq<char>, secret: Seq<char>, now: u64) -> bool {
    six_digits(code) && code_in_window(digits_value(code), encode_utf8(secret), now)
}

fn six_digit_value(code: &[char]) -> (r: Option<u32>)
    ensures
        match r {
            Some(v) => six_digits(code@) && v == digits_value(code@),
            None => !six_digits(code@),
        },
{
    if code.len() != 6 {
        return None;
    }
    let mut v: u32 = 0;
    for i in 0..6
        invariant
            code@.len() == 6,
            all_digits(code@.take(i as int)),
            v == digits_value(code@.take(i as int)),
            v < 1_000_000,
            v <= if i == 0 { 0int } else if i == 1 { 9int } else if i == 2 { 99int } else if i == 3 {
                999int
            } else if i == 4 { 9999int } else if i == 5 { 99999int } else { 999999int },
    {
        let c = code[i];
        assert(code@.take(i + 1).drop_last() =~= code@.take(i as int));
        if !('0' <= c && c <= '9') {
            assert(!all_digits(code@));
            return None;
        }
        v = v * 10 + (c as u32 - 48);
        assert(all_digits(code@.take(i + 1)));
    }
    assert(code@.take(6) =~= code@);
    Some(v)
}

/// Checks a six-digit code against the secret at time `now` (Unix
/// seconds), allowing one 30-second window of clock skew either way.
pub fn validate_totp_code_at(code: &str, secret: &str, now: u64) -> (ok: bool)
    ensures
        ok == totp_code_valid_at(code@, secret@, now),
{
    let cc = crate::text::chars_of(code);
    let code_num = match six_digit_value(cc.as_slice()) {
        Some(v) => v,
        None => {
            return false;
        },
    };
    let key = secret.as_bytes();
    let w = now / 30;
    if w >= 1 && generate_hotp_simple(key, w - 1) == code_num {
        return true;
    }
    if generate_hotp_simple(key, w) == code_num {
        return true;
    }
    generate_hotp_simple(key, w + 1) == code_num
}

/// Checks a six-digit code against the secret at the current time.
pub fn validate_totp_code_simple(code: &str, secret: &str) -> (ok: bool)
    ensures
        exists|t: u64| ok == totp_code_valid_at(code@, secret@, t),
        !six_digits(code@) ==> !ok,
{
    let now = crate::models::unix_time_now();
    validate_totp_code_at(code, secret, now)
}


/// Configuration of the persistent TOTP service.
#[derive(Debug)]
pub struct TotpConfig {
    pub issuer: String,
    pub period: u32,
    pub digits: u32,
    pub algorithm: String,
}

/// The configuration the persistent TOTP service runs with: 30-second
/// periods, six digits, SHA1.
pub fn totp_config(issuer: String) -> (c: TotpConfig)
    ensures
        c.issuer == issuer,
        c.period == 30,
        c.digits == 6,
        c.algorithm@ == "SHA1"@,
{
    TotpConfig { issuer, period: 30, digits: 6, algorithm: crate::text::owned("SHA1") }
}

/// Storage prefix of TOTP enrollments.
pub const TOTP_PREFIX: &'static str = "sys/mfa/totp/";

/// Storage path of a user's TOTP enrollment.
pub fn enrollment_path(entity_id: u128) -> (p: String)
    ensures
        p@ == TOTP_PREFIX@ + uuid_hyphenated(entity_id),
{
    let mut v = crate::text::chars_of(TOTP_PREFIX);
    let u = uuid_text(entity_id);
    let uc = crate::text::chars_of_string(&u);
    crate::text::push_all(&mut v, uc.as_slice());
    crate::text::string_from_chars(v.as_slice())
}

/// The provisioning URI of an enrollment.
pub open spec fn enrollment_url(c: TotpConfig, account: Seq<char>, secret: Seq<char>) -> Seq<char> {
    "otpauth://totp/"@ + c.issuer@ + ":"@ + account + "?secret="@ + secret + "&issuer="@
        + c.issuer@ + "&algorithm="@ + c.algorithm@ + "&digits="@ + decimal(c.digits as nat)
        + "&period="@ + decimal(c.period as nat)
}

/// Builds the provisioning URI of an enrollment.
pub fn enrollment_uri(c: &TotpConfig, account: &str, secret: &str) -> (u: String)
    ensures
        u@ == enrollment_url(*c, account@, secret@),
{
    let mut v = crate::text::chars_of("otpauth://totp/");
    crate::text::push_str(&mut v, c.issuer.as_str());
    crate::text::push_str(&mut v, ":");
    crate::text::push_str(&mut v, account);
    crate::text::push_str(&mut v, "?secret=");
    crate::text::push_str(&mut v, secret);
    crate::text::push_str(&mut v, "&issuer=");
    crate::text::push_str(&mut v, c.issuer.as_str());
    crate::text::push_str(&mut v, "&algorithm=");
    crate::text::push_str(&mut v, c.algorithm.as_str());
    crate::text::push_str(&mut v, "&digits=");
    let d = crate::text::decimal_chars(c.digits as u64);
    crate::text::push_all(&mut v, d.as_slice());
    crate::text::push_str(&mut v, "&period=");
    let p = crate::text::decimal_chars(c.period as u64);
    crate::text::push_all(&mut v, p.as_slice());
    crate::text::string_from_chars(v.as_slice())
}

/// Random bytes from the thread's generator.
///
/// Trusted: calls `rand::Rng::fill` on `rand::thread_rng()`; only the
/// length is claimed.
#[verifier::external_body]
fn random_bytes(n: usize) -> (b: Vec<u8>)
    ensures
        b@.len() == n,
{
    let mut b = vec![0u8; n];
    rand::Rng::fill(&mut rand::thread_rng(), &mut b[..]);
    b
}

/// A fresh TOTP secret: 20 random bytes (160 bits) in unpadded base32.
pub fn generate_secret() -> (s: String)
    ensures
        exists|b: Seq<u8>| b.len() == 20 && s@ == base32_text(b),
        lenient_base32(s@) matches Some(k) && k.len() == 20,
{
    let b = random_bytes(20);
    proof {
        crate::laws::law_base32_roundtrip(b@);
    }
    encode_base32(b.as_slice())
}

/// A failure of the persistent TOTP service.
#[derive(Debug)]
pub enum TotpError {
    Configuration(String),
}

/// Ten to the power `d`.
pub open spec fn pow10(d: nat) -> nat
    decreases d,
{
    if d == 0 {
        1
    } else {
        10 * pow10((d - 1) as nat)
    }
}

/// The TOTP code of a key at time `time`: HMAC-SHA1 of the period counter,
/// truncated, reduced to `digits` decimal digits with leading zeros.
pub open spec fn totp_sha1_text(key: Seq<u8>, time: u64, period: u32, digits: u32) -> Seq<char> {
    decimal_padded(
        truncated(hmac_sha1_of(key, be8((time / (period as u64)) as u64))) % pow10(digits as nat),
        digits as nat,
    )
}

/// The code `generate_totp` yields for a base32 secret, or `None` when the
/// secret has a character that is not base32.
pub open spec fn generated_code(secret: Seq<char>, time: u64, period: u32, digits: u32) -> Option<
    Seq<char>,
> {
    match lenient_base32(secret) {
        Some(key) => Some(totp_sha1_text(key, time, period, digits)),
        None => None,
    }
}

fn pow10_u32(d: u32) -> (r: u32)
    requires
        d <= 9,
    ensures
        r == pow10(d as nat),
        r > 0,
{
    let mut r: u32 = 1;
    let mut i: u32 = 0;
    while i < d
        invariant
            i <= d <= 9,
            r == pow10(i as nat),
            r <= 100_000_000 || i == 9,
            r <= 1_000_000_000,
            r >= 1,
            i <= 8 ==> r <= if i == 0 { 1int } else if i == 1 { 10int } else if i == 2 { 100int }
                else if i == 3 { 1000int } else if i == 4 { 10000int } else if i == 5 {
                100000int
            } else if i == 6 { 1000000int } else if i == 7 { 10000000int } else {
                100000000int
            },
        decreases d - i,
    {
        r = r * 10;
        i = i + 1;
    }
    r
}

/// Generates the TOTP code of a base32 secret at time `time`.
pub fn generate_totp(secret: &str, time: u64, period: u32, digits: u32) -> (r: Result<
    String,
    TotpError,
>)
    requires
        period > 0,
        digits <= 9,
    ensures
        match generated_code(secret@, time, period, digits) {
            Some(c) => r matches Ok(s) && s@ == c,
            None => r matches Err(TotpError::Configuration(m)) && m@ == "Invalid base32 char"@,
        },
{
    let key = match decode_base32_lenient(secret) {
        Some(k) => k,
        None => {
            return Err(TotpError::Configuration(crate::text::owned("Invalid base32 char")));
        },
    };
    let counter = time / period as u64;
    let c = counter_bytes(counter);
    let mac = hmac_sha1(key.as_slice(), c.as_slice());
    let code = truncate_mac(&mac);
    let m = pow10_u32(digits);
    let v = code % m;
    let t = crate::text::decimal_chars_padded(v as u64, digits as usize);
    Ok(crate::text::string_from_chars(t.as_slice()))
}

/// Integer division rounding toward zero, as Rust's `/` does.
pub open spec fn div_toward_zero(a: int, b: int) -> int {
    if a >= 0 {
        a / b
    } else {
        -((-a) / b)
    }
}

fn div_i64(a: i64, b: i64) -> (q: i64)
    requires
        b > 0,
    ensures
        q == div_toward_zero(a as int, b as int),
{
    if a >= 0 {
        ((a as u64) / (b as u64)) as i64
    } else {
        let m: u64 = if a == i64::MIN {
            0x8000_0000_0000_0000
        } else {
            (-a) as u64
        };
        let q: u64 = m / (b as u64);
        proof {
            assert(q <= m);
        }
        if q == 0x8000_0000_0000_0000 {
            i64::MIN
        } else {
            -(q as i64)
        }
    }
}

/// The last use falls in the current period or a later one.
pub open spec fn is_replay(last_used: Option<i64>, now: i64, period: u32) -> bool {
    last_used matches Some(lu) && div_toward_zero(lu as int, period as int) >= div_toward_zero(
        now as int,
        period as int,
    )
}

/// The time checked for a window `offset` periods away from `now`.
pub open spec fn window_time(now: i64, offset: int, period: u32) -> u64 {
    (now + offset * period) as u64
}

/// The code, as bytes, matches the code of one of the three windows around
/// `now`.
pub open spec fn matches_some_window(key: Seq<u8>, code: Seq<char>, now: i64, period: u32, digits: u32) -> bool {
    ||| encode_utf8(totp_sha1_text(key, window_time(now, -1, period), period, digits)) == encode_utf8(code)
    ||| encode_utf8(totp_sha1_text(key, window_time(now, 0, period), period, digits)) == encode_utf8(code)
    ||| encode_utf8(totp_sha1_text(key, window_time(now, 1, period), period, digits)) == encode_utf8(code)
}

/// The verdict on a submitted code at time `now` (Unix seconds), given when
/// the enrollment was last used: a code in the period of the last use (or
/// earlier) is a replay and fails; otherwise the code must match one of the
/// three windows around `now`.  A secret that is not base32 is an error.
pub open spec fn totp_verdict(
    secret: Seq<char>,
    code: Seq<char>,
    now: i64,
    last_used: Option<i64>,
    period: u32,
    digits: u32,
) -> Result<bool, Seq<char>> {
    if is_replay(last_used, now, period) {
        Ok(false)
    } else {
        match lenient_base32(secret) {
            None => Err("Invalid base32 char"@),
            Some(key) => Ok(matches_some_window(key, code, now, period, digits)),
        }
    }
}

/// Checks a submitted code against an enrollment's secret at time `now`.
/// On `Ok(true)` the caller records `now` as the enrollment's last use.
pub fn check_totp_code(
    secret: &str,
    code: &str,
    now: i64,
    last_used: Option<i64>,
    period: u32,
    digits: u32,
) -> (r: Result<bool, TotpError>)
    requires
        period > 0,
        digits <= 9,
        i64::MIN + period <= now <= i64::MAX - period,
    ensures
        match totp_verdict(secret@, code@, now, last_used, period, digits) {
            Ok(b) => r == Ok::<bool, TotpError>(b),
            Err(m) => r matches Err(TotpError::Configuration(x)) && x@ == m,
        },
{
    match last_used {
        Some(lu) => {
            let last_window = div_i64(lu, period as i64);
            let current_window = div_i64(now, period as i64);
            if last_window >= current_window {
                return Ok(false);
            }
        },
        None => {},
    }
    let p = period as i64;
    let mut off: i64 = -1;
    while off <= 1
        invariant
            -1 <= off <= 2,
            period > 0,
            digits <= 9,
            p == period as i64,
            i64::MIN + period <= now <= i64::MAX - period,
            !is_replay(last_used, now, period),
            off > -1 ==> lenient_base32(secret@) is Some,
            lenient_base32(secret@) is Some ==> forall|o: int|
                -1 <= o < off ==> encode_utf8(
                    totp_sha1_text(lenient_base32(secret@).unwrap(), window_time(now, o, period), period, digits),
                ) != encode_utf8(code@),
        decreases 2 - off,
    {
        let delta: i64 = if off < 0 {
            -p
        } else if off == 0 {
            0
        } else {
            p
        };
        assert(delta == off * period);
        #[verifier::truncate]
        let check_time = (now + delta) as u64;
        let expected = match generate_totp(secret, check_time, period, digits) {
            Ok(e) => e,
            Err(e) => {
                return Err(e);
            },
        };
        if constant_time_eq(expected.as_str().as_bytes(), code.as_bytes()) {
            return Ok(true);
        }
        off = off + 1;
    }
    Ok(false)
}


/// Errors of the TOTP key engine, by the HTTP status they map to.
#[derive(Debug)]
pub enum TotpServiceError {
    /// The key does not exist (404).
    NotFound(String),
    /// A client-supplied value is invalid (400).
    BadRequest(String),
    /// Any other failure (500).
    Internal(String),
}

/// Storage prefix of the TOTP key engine.
pub const TOTP_ENGINE_PREFIX: &'static str = "sys/totp/";

/// A control character (Unicode category Cc).
pub open spec fn is_control_char(c: char) -> bool {
    c <= '\u{1f}' || ('\u{7f}' <= c && c <= '\u{9f}')
}

/// The refusal owed to a user id used in TOTP key paths, if any.
pub open spec fn user_id_refusal(u: Seq<char>) -> Option<Seq<char>> {
    if u.len() == 0 {
        Some("User ID must not be empty"@)
    } else if has_char(u, '/') || has_char(u, '\\') || seq_contains(u, ".."@) {
        Some("User ID must not contain '/', '\\', or '..'"@)
    } else if exists|i: int| 0 <= i < u.len() && is_control_char(#[trigger] u[i]) {
        Some("User ID must not contain control characters"@)
    } else {
        None
    }
}

fn bad_request(m: &str) -> (e: TotpServiceError)
    ensures
        e matches TotpServiceError::BadRequest(x) && x@ == m@,
{
    TotpServiceError::BadRequest(crate::text::owned(m))
}

fn internal(m: &str) -> (e: TotpServiceError)
    ensures
        e matches TotpServiceError::Internal(x) && x@ == m@,
{
    TotpServiceError::Internal(crate::text::owned(m))
}

/// Checks that a user id is safe in storage paths: not empty, no '/', '\',
/// "..", nor control characters.
pub fn validate_user_id(user_id: &str) -> (r: Result<(), TotpServiceError>)
    ensures
        match user_id_refusal(user_id@) {
            Some(m) => r matches Err(TotpServiceError::BadRequest(x)) && x@ == m,
            None => r is Ok,
        },
{
    let u = crate::text::chars_of(user_id);
    if u.len() == 0 {
        return Err(bad_request("User ID must not be empty"));
    }
    let dots = crate::text::chars_of("..");
    if crate::text::contains_char(u.as_slice(), '/') || crate::text::contains_char(u.as_slice(), '\\')
        || crate::text::contains(u.as_slice(), dots.as_slice()) {
        return Err(bad_request("User ID must not contain '/', '\\', or '..'"));
    }
    let n = u.len();
    for i in 0..n
        invariant
            n == u@.len(),
            u@ == user_id@,
            u@.len() > 0,
            !(has_char(u@, '/') || has_char(u@, '\\') || seq_contains(u@, ".."@)),
            forall|k: int| 0 <= k < i ==> !is_control_char(#[trigger] u@[k]),
    {
        let c = u[i];
        if c <= '\u{1f}' || ('\u{7f}' <= c && c <= '\u{9f}') {
            assert(is_control_char(u@[i as int]));
            assert(u@ == user_id@);
            assert(is_control_char(user_id@[i as int]));
            return Err(bad_request("User ID must not contain control characters"));
        }
    }
    Ok(())
}

/// Storage prefix of a user's TOTP keys.
pub fn user_prefix(user_id: &str) -> (p: String)
    ensures
        p@ == TOTP_ENGINE_PREFIX@ + user_id@ + "/"@,
{
    let mut v = crate::text::chars_of(TOTP_ENGINE_PREFIX);
    crate::text::push_str(&mut v, user_id);
    crate::text::push_str(&mut v, "/");
    crate::text::string_from_chars(v.as_slice())
}

/// Storage path of a user's TOTP key.
pub fn key_path(user_id: &str, name: &str) -> (p: String)
    ensures
        p@ == TOTP_ENGINE_PREFIX@ + user_id@ + "/"@ + name@,
{
    let mut v = crate::text::chars_of(TOTP_ENGINE_PREFIX);
    crate::text::push_str(&mut v, user_id);
    crate::text::push_str(&mut v, "/");
    crate::text::push_str(&mut v, name);
    crate::text::string_from_chars(v.as_slice())
}

/// The names of the keys stored under a prefix: each path that starts with
/// the prefix, without it.
pub open spec fn names_under(prefix: Seq<char>, paths: Seq<Seq<char>>) -> Seq<Seq<char>>
    decreases paths.len(),
{
    if paths.len() == 0 {
        seq![]
    } else if seq_starts_with(paths.last(), prefix) {
        names_under(prefix, paths.drop_last()).push(
            paths.last().subrange(prefix.len() as int, paths.last().len() as int),
        )
    } else {
        names_under(prefix, paths.drop_last())
    }
}

/// The key names among the stored paths under the prefix.
pub fn key_names(prefix: &str, paths: &Vec<String>) -> (r: Vec<String>)
    ensures
        views(r@) == names_under(prefix@, views(paths@)),
{
    let pc = crate::text::chars_of(prefix);
    let n = paths.len();
    let mut r: Vec<String> = Vec::new();
    for i in 0..n
        invariant
            n == paths@.len(),
            pc@ == prefix@,
            views(r@) == names_under(prefix@, views(paths@.take(i as int))),
    {
        assert(views(paths@.take(i + 1)).drop_last() =~= views(paths@.take(i as int)));
        assert(views(paths@.take(i + 1)).last() == paths@[i as int]@);
        let c = crate::text::chars_of_string(&paths[i]);
        if crate::text::starts_with(c.as_slice(), pc.as_slice()) {
            let rest = crate::text::slice_chars(c.as_slice(), pc.len(), c.len());
            r.push(crate::text::string_from_chars(rest.as_slice()));
            assert(views(r@) =~= names_under(prefix@, views(paths@.take(i + 1))));
        }
    }
    assert(paths@.take(n as int) =~= paths@);
    r
}

/// The UUID (version 5, OID namespace) derived from a name.
pub uninterp spec fn uuid_v5_oid(name: Seq<u8>) -> u128;

/// UUID version 5 of a name in the OID namespace.
///
/// Trusted: calls `uuid::Uuid::new_v5` with `Uuid::NAMESPACE_OID` and takes
/// the value as a `u128`; the result is named by `uuid_v5_oid`.
#[verifier::external_body]
fn uuid_v5_of(name: &[u8]) -> (u: u128)
    ensures
        u == uuid_v5_oid(name@),
{
    uuid::Uuid::new_v5(&uuid::Uuid::NAMESPACE_OID, name).as_u128()
}

/// The owner of a user's TOTP keys: the user id as a UUID, else the UUID
/// version 5 derived from it.
pub open spec fn key_owner(user_id: Seq<char>) -> u128 {
    match parsed_uuid(user_id) {
        Some(u) => u,
        None => uuid_v5_oid(encode_utf8(user_id)),
    }
}

/// Metadata of a TOTP key.  Times are Unix seconds.
#[derive(Debug)]
pub struct TotpKeyMetadata {
    pub name: String,
    pub issuer: Option<String>,
    pub account_name: Option<String>,
    pub algorithm: String,
    pub digits: usize,
    pub period: u64,
    pub created_at: i64,
}

/// The refusal owed to a new TOTP key's base32 secret, if any: it must
/// decode (unpadded RFC 4648) to at least 16 bytes.
pub open spec fn secret_refusal(secret: Seq<char>) -> Option<Seq<char>> {
    match base32_decoded(secret) {
        None => Some("Invalid base32 secret"@),
        Some(b) => if b.len() < 16 {
            Some(
                "Secret too short: decoded to "@ + decimal(b.len()) + " bytes, minimum is 16 bytes. Provide a base32-encoded secret of at least 26 characters."@,
            )
        } else {
            None
        },
    }
}

/// Prepares a new TOTP key of a user: checks the user id and the secret,
/// and returns the key's owner and metadata (SHA1, six digits, 30 seconds).
pub fn prepare_key(
    user_id: &str,
    name: &str,
    secret_b32: &str,
    issuer: Option<String>,
    account_name: Option<String>,
    now: i64,
) -> (r: Result<(u128, TotpKeyMetadata), TotpServiceError>)
    ensures
        match user_id_refusal(user_id@) {
            Some(m) => r matches Err(TotpServiceError::BadRequest(x)) && x@ == m,
            None => match secret_refusal(secret_b32@) {
                Some(m) => r matches Err(TotpServiceError::BadRequest(x)) && x@ == m,
                None => r matches Ok((owner, md)) && owner == key_owner(user_id@) && md.name@
                    == name@ && md.issuer == issuer && md.account_name == account_name
                    && md.algorithm@ == "SHA1"@ && md.digits == 6 && md.period == 30
                    && md.created_at == now,
            },
        },
{
    match validate_user_id(user_id) {
        Ok(()) => {},
        Err(e) => {
            return Err(e);
        },
    }
    let owner = match parse_uuid(user_id) {
        Some(u) => u,
        None => uuid_v5_of(user_id.as_bytes()),
    };
    let bytes = match base32_decode(secret_b32) {
        Some(b) => b,
        None => {
            return Err(bad_request("Invalid base32 secret"));
        },
    };
    if bytes.len() < 16 {
        let mut v = crate::text::chars_of("Secret too short: decoded to ");
        let d = crate::text::decimal_chars(bytes.len() as u64);
        crate::text::push_all(&mut v, d.as_slice());
        crate::text::push_str(
            &mut v,
            " bytes, minimum is 16 bytes. Provide a base32-encoded secret of at least 26 characters.",
        );
        return Err(TotpServiceError::BadRequest(crate::text::string_from_chars(v.as_slice())));
    }
    let md = TotpKeyMetadata {
        name: crate::text::owned(name),
        issuer,
        account_name,
        algorithm: crate::text::owned("SHA1"),
        digits: 6,
        period: 30,
        created_at: now,
    };
    Ok((owner, md))
}

/// The error of a key that does not exist.
pub fn key_not_found(name: &str) -> (e: TotpServiceError)
    ensures
        e matches TotpServiceError::NotFound(m) && m@ == "Key '"@ + name@ + "' not found"@,
{
    let mut v = crate::text::chars_of("Key '");
    crate::text::push_str(&mut v, name);
    crate::text::push_str(&mut v, "' not found");
    TotpServiceError::NotFound(crate::text::string_from_chars(v.as_slice()))
}

/// HMAC algorithms of the TOTP key engine.
#[derive(Debug, Clone, Copy, PartialEq, Eq, Structural)]
pub enum TotpAlgorithm {
    SHA1,
    SHA256,
    SHA512,
}

/// The error `totp_rs::TOTP::new` reports for these parameters, if any, as
/// its `Display` renders it: digits outside 6..=8, a secret under 16
/// bytes, then a colon in the issuer or the account name.
pub open spec fn totp_rs_refusal(
    digits: usize,
    secret_len: nat,
    issuer: Option<Seq<char>>,
    account: Seq<char>,
) -> Option<Seq<char>> {
    if !(6 <= digits <= 8) {
        Some(
            "Implementations MUST extract a 6-digit code at a minimum and possibly 7 and 8-digit code. "@
                + decimal(digits as nat) + " digits is not allowed"@,
        )
    } else if secret_len < 16 {
        Some(
            "The length of the shared secret MUST be at least 128 bits. "@ + decimal(secret_len * 8)
                + " bits is not enough"@,
        )
    } else if issuer matches Some(i) && has_char(i, ':') {
        Some("Issuer can't contain a colon. \""@ + issuer.unwrap() + "\" contains a colon"@)
    } else if has_char(account, ':') {
        Some("Account Name can't contain a colon. \""@ + account + "\" contains a colon"@)
    } else {
        None
    }
}

/// The texts of an optional string.
pub open spec fn opt_view(o: Option<String>) -> Option<Seq<char>> {
    match o {
        Some(s) => Some(s@),
        None => None,
    }
}

/// Checks TOTP parameters as `totp_rs::TOTP::new` does.
///
/// Trusted: calls `totp_rs::TOTP::new` (skew 1) and renders its error with
/// `to_string`; the contract restates the checks of `TOTP::new` and the
/// `Display` texts of `TotpUrlError` in totp-rs 5.7.2.
#[verifier::external_body]
fn totp_rs_check(
    algorithm: TotpAlgorithm,
    digits: usize,
    step: u64,
    secret: Vec<u8>,
    issuer: Option<String>,
    account: String,
) -> (r: Option<String>)
    ensures
        match totp_rs_refusal(digits, secret@.len(), opt_view(issuer), account@) {
            Some(m) => r matches Some(e) && e@ == m,
            None => r is None,
        },
{
    let a = match algorithm {
        TotpAlgorithm::SHA1 => totp_rs::Algorithm::SHA1,
        TotpAlgorithm::SHA256 => totp_rs::Algorithm::SHA256,
        TotpAlgorithm::SHA512 => totp_rs::Algorithm::SHA512,
    };
    totp_rs::TOTP::new(a, digits, 1, step, secret, issuer, account).err().map(|e| e.to_string())
}

/// The code of the TOTP key engine: the algorithm's HMAC of the period
/// counter, truncated, reduced to `digits` decimal digits with leading
/// zeros.
pub open spec fn engine_code(
    algorithm: TotpAlgorithm,
    digits: usize,
    step: u64,
    secret: Seq<u8>,
    time: u64,
) -> Seq<char> {
    let msg = be8((time / step) as u64);
    let mac = match algorithm {
        TotpAlgorithm::SHA1 => hmac_sha1_of(secret, msg),
        TotpAlgorithm::SHA256 => hmac_sha256_of(secret, msg),
        TotpAlgorithm::SHA512 => hmac_sha512_of(secret, msg),
    };
    decimal_padded(truncated(mac) % pow10(digits as nat), digits as nat)
}

/// Generates a TOTP code with totp-rs.
///
/// Trusted: calls `totp_rs::TOTP::new` (skew 1), which these parameters
/// pass, and `generate` at `time`; totp-rs signs the big-endian period
/// counter with the `hmac` crate's HMAC of the algorithm, reads four bytes
/// at the offset given by the last byte's low nibble with the top bit
/// cleared, and prints the value modulo 10^digits with leading zeros.
#[verifier::external_body]
fn totp_rs_generate(
    algorithm: TotpAlgorithm,
    digits: usize,
    step: u64,
    secret: Vec<u8>,
    issuer: Option<String>,
    account: String,
    time: u64,
) -> (c: String)
    requires
        step > 0,
        totp_rs_refusal(digits, secret@.len(), opt_view(issuer), account@) is None,
    ensures
        algorithm == TotpAlgorithm::SHA1 ==> c@ == decimal_padded(
            truncated(hmac_sha1_of(secret@, be8((time / step) as u64))) % pow10(digits as nat),
            digits as nat,
        ),
        algorithm == TotpAlgorithm::SHA256 ==> c@ == decimal_padded(
            truncated(hmac_sha256_of(secret@, be8((time / step) as u64))) % pow10(digits as nat),
            digits as nat,
        ),
        algorithm == TotpAlgorithm::SHA512 ==> c@ == decimal_padded(
            truncated(hmac_sha512_of(secret@, be8((time / step) as u64))) % pow10(digits as nat),
            digits as nat,
        ),
{
    let a = match algorithm {
        TotpAlgorithm::SHA1 => totp_rs::Algorithm::SHA1,
        TotpAlgorithm::SHA256 => totp_rs::Algorithm::SHA256,
        TotpAlgorithm::SHA512 => totp_rs::Algorithm::SHA512,
    };
    totp_rs::TOTP::new(a, digits, 1, step, secret, issuer, account).unwrap().generate(time)
}

/// A stored TOTP key as the engine reads it back.
#[derive(Debug)]
pub struct StoredTotpKey {
    pub secret: Option<String>,
    pub algorithm: Option<String>,
    pub digits: Option<u64>,
    pub period: Option<u64>,
    pub issuer: Option<String>,
    pub account_name: Option<String>,
}

/// The algorithm a stored name selects: SHA256, SHA512, else SHA1.
pub open spec fn algorithm_named(name: Option<String>) -> TotpAlgorithm {
    match name {
        Some(n) => if n@ == "SHA256"@ {
            TotpAlgorithm::SHA256
        } else if n@ == "SHA512"@ {
            TotpAlgorithm::SHA512
        } else {
            TotpAlgorithm::SHA1
        },
        None => TotpAlgorithm::SHA1,
    }
}

/// The digits of a stored key (6 by default), taken modulo the width of
/// `usize` as an `as` cast does.
pub open spec fn stored_digits(k: StoredTotpKey) -> usize {
    (match k.digits {
        Some(d) => d,
        None => 6,
    }) as usize
}

/// The period of a stored key (30 by default).
pub open spec fn stored_period(k: StoredTotpKey) -> u64 {
    match k.period {
        Some(p) => p,
        None => 30,
    }
}

/// The account name of a stored key ("secreton" by default).
pub open spec fn stored_account(k: StoredTotpKey) -> Seq<char> {
    match k.account_name {
        Some(a) => a@,
        None => "secreton"@,
    }
}

/// The code generation of a stored key reaches totp-rs's generator.
pub open spec fn reaches_generator(k: StoredTotpKey, now: Result<u64, String>) -> bool {
    &&& k.secret is Some
    &&& base32_decoded(k.secret.unwrap()@) matches Some(b) && totp_rs_refusal(
        stored_digits(k),
        b.len(),
        opt_view(k.issuer),
        stored_account(k),
    ) is None
    &&& now is Ok
}

/// The outcome owed to a code request for a stored key, given the clock
/// reading `now` (or the clock's error message).
pub open spec fn code_outcome(
    r: Result<String, TotpServiceError>,
    k: StoredTotpKey,
    now: Result<u64, String>,
) -> bool {
    match k.secret {
        None => r matches Err(TotpServiceError::Internal(m)) && m@ == "Missing secret in stored data"@,
        Some(s) => match base32_decoded(s@) {
            None => r matches Err(TotpServiceError::Internal(m)) && m@ == "Invalid stored secret"@,
            Some(b) => match totp_rs_refusal(
                stored_digits(k),
                b.len(),
                opt_view(k.issuer),
                stored_account(k),
            ) {
                Some(e) => r matches Err(TotpServiceError::Internal(m)) && m@ == "TOTP error: "@ + e,
                None => match now {
                    Err(e) => r matches Err(TotpServiceError::Internal(m)) && m@
                        == "Failed to generate code: "@ + e@,
                    Ok(t) => r matches Ok(c) && c@ == engine_code(
                        algorithm_named(k.algorithm),
                        stored_digits(k),
                        stored_period(k),
                        b,
                        t,
                    ),
                },
            },
        },
    }
}

fn clone_opt(o: &Option<String>) -> (r: Option<String>)
    ensures
        r == *o,
{
    match o {
        Some(s) => Some(s.clone()),
        None => None,
    }
}

fn prefixed(a: &str, b: &String) -> (s: String)
    ensures
        s@ == a@ + b@,
{
    let mut v = crate::text::chars_of(a);
    crate::text::push_str(&mut v, b.as_str());
    crate::text::string_from_chars(v.as_slice())
}

/// Generates the current code of a stored key from the clock reading
/// `now` (seconds since the epoch, or the clock's error).
pub fn generate_code(key: &StoredTotpKey, now: Result<u64, String>) -> (r: Result<
    String,
    TotpServiceError,
>)
    requires
        reaches_generator(*key, now) ==> stored_period(*key) > 0,
    ensures
        code_outcome(r, *key, now),
{
    let secret = match &key.secret {
        Some(s) => s,
        None => {
            return Err(internal("Missing secret in stored data"));
        },
    };
    let algorithm = match &key.algorithm {
        Some(n) => if crate::text::str_is(n.as_str(), "SHA256") {
            TotpAlgorithm::SHA256
        } else if crate::text::str_is(n.as_str(), "SHA512") {
            TotpAlgorithm::SHA512
        } else {
            TotpAlgorithm::SHA1
        },
        None => TotpAlgorithm::SHA1,
    };
    let d: u64 = match key.digits {
        Some(d) => d,
        None => 6,
    };
    #[verifier::truncate]
    let digits = d as usize;
    let period: u64 = match key.period {
        Some(p) => p,
        None => 30,
    };
    let bytes = match base32_decode(secret.as_str()) {
        Some(b) => b,
        None => {
            return Err(internal("Invalid stored secret"));
        },
    };
    let account = match &key.account_name {
        Some(a) => a.clone(),
        None => {
            proof {
                reveal_strlit("secreton");
            }
            crate::text::owned("secreton")
        },
    };
    let check = totp_rs_check(algorithm, digits, period, bytes.clone(), clone_opt(&key.issuer), account.clone());
    match check {
        Some(e) => {
            return Err(TotpServiceError::Internal(prefixed("TOTP error: ", &e)));
        },
        None => {},
    }
    let t = match now {
        Ok(t) => t,
        Err(e) => {
            return Err(TotpServiceError::Internal(prefixed("Failed to generate code: ", &e)));
        },
    };
    Ok(totp_rs_generate(algorithm, digits, period, bytes, clone_opt(&key.issuer), account, t))
}

} // verus!
