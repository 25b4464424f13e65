//! LEB128 integer decoding as used by the WebAssembly binary format.
use vstd::prelude::*;
use crate::error::ParseError;

verus! {

/// `128` raised to the power `n`.
pub open spec fn pow128(n: nat) -> int
    decreases n,
{
    if n == 0 {
        1
    } else {
        128 * pow128((n - 1) as nat)
    }
}

/// The number formed by the low seven bits of the first `n` bytes of `s`,
/// least significant group first.
pub open spec fn leb_payload(s: Seq<u8>, n: nat) -> int
    decreases n,
{
    if n == 0 {
        0
    } else {
        leb_payload(s, (n - 1) as nat) + (s[n - 1] % 128) as int * pow128((n - 1) as nat)
    }
}

/// The two's-complement value of an `n`-byte signed LEB128 group: the payload,
/// sign-extended from bit 6 of the last byte.
pub open spec fn leb_signed(s: Seq<u8>, n: nat) -> int {
    leb_payload(s, n) - if n >= 1 && s[n - 1] % 128 >= 64 {
        pow128(n)
    } else {
        0
    }
}

/// Unsigned 32-bit LEB128 decoding, continued from byte index `i`.
pub open spec fn u32_leb_from(s: Seq<u8>, i: nat) -> Result<(u32, usize), ParseError>
    decreases 5 - i,
{
    if i >= 5 {
        Err(ParseError::InvalidLeb128)
    } else if i >= s.len() {
        Err(ParseError::UnexpectedEof)
    } else if i == 4 && s[4] % 128 > 15 {
        Err(ParseError::Leb128Overflow)
    } else if s[i as int] < 128 {
        Ok((leb_payload(s, i + 1) as u32, (i + 1) as usize))
    } else {
        u32_leb_from(s, i + 1)
    }
}

/// What `decode_u32` returns for `s`: at most five bytes, the fifth one carrying
/// at most four payload bits.
pub open spec fn spec_decode_u32(s: Seq<u8>) -> Result<(u32, usize), ParseError> {
    u32_leb_from(s, 0)
}

/// Whether the unused high payload bits of the final byte of a full-width signed
/// group are a proper sign extension. `unit` is the weight of the lowest unused bit.
pub open spec fn signed_tail_ok(byte: u8, unit: int) -> bool {
    (byte as int) / unit == 0 || (byte as int) / unit == 128int / unit - 1
}

/// Signed LEB128 decoding of at most `max_len` bytes, continued from byte index `i`,
/// accepting values in `lo..=hi`.
pub open spec fn signed_leb_from(
    s: Seq<u8>,
    i: nat,
    max_len: nat,
    unit: int,
    lo: int,
    hi: int,
) -> Result<(int, usize), ParseError>
    decreases max_len - i,
{
    if i >= max_len {
        Err(ParseError::InvalidLeb128)
    } else if i >= s.len() {
        Err(ParseError::UnexpectedEof)
    } else if s[i as int] < 128 {
        if i + 1 == max_len && !signed_tail_ok(s[i as int], unit) {
            Err(ParseError::Leb128Overflow)
        } else if lo <= leb_signed(s, i + 1) && leb_signed(s, i + 1) <= hi {
            Ok((leb_signed(s, i + 1), (i + 1) as usize))
        } else {
            Err(ParseError::Leb128Overflow)
        }
    } else {
        signed_leb_from(s, i + 1, max_len, unit, lo, hi)
    }
}

/// What `decode_i32` returns for `s`.
pub open spec fn spec_decode_i32(s: Seq<u8>) -> Result<(i32, usize), ParseError> {
    match signed_leb_from(s, 0, 5, 16, i32::MIN as int, i32::MAX as int) {
        Ok((v, n)) => Ok((v as i32, n)),
        Err(e) => Err(e),
    }
}

/// What `decode_i64` returns for `s`.
pub open spec fn spec_decode_i64(s: Seq<u8>) -> Result<(i64, usize), ParseError> {
    match signed_leb_from(s, 0, 10, 2, i64::MIN as int, i64::MAX as int) {
        Ok((v, n)) => Ok((v as i64, n)),
        Err(e) => Err(e),
    }
}

/// Smallest value of the signed 33-bit block-type domain.
pub open spec fn s33_min() -> int {
    -0x1_0000_0000
}

/// Largest value of the signed 33-bit block-type domain.
pub open spec fn s33_max() -> int {
    0xffff_ffff
}

/// What `decode_s33` returns for `s`.
pub open spec fn spec_decode_s33(s: Seq<u8>) -> Result<(i64, usize), ParseError> {
    match signed_leb_from(s, 0, 5, 32, s33_min(), s33_max()) {
        Ok((v, n)) => Ok((v as i64, n)),
        Err(e) => Err(e),
    }
}

pub proof fn lemma_pow128_positive(n: nat)
    ensures
        pow128(n) >= 1,
    decreases n,
{
    if n > 0 {
        lemma_pow128_positive((n - 1) as nat);
    }
}

pub proof fn lemma_pow128_monotone(n: nat, m: nat)
    requires
        n <= m,
    ensures
        pow128(n) <= pow128(m),
    decreases m,
{
    if n < m {
        lemma_pow128_monotone(n, (m - 1) as nat);
        lemma_pow128_positive((m - 1) as nat);
    }
}

/// The payload of `n` bytes lies in `0..128^n`.
pub proof fn lemma_leb_payload_bounds(s: Seq<u8>, n: nat)
    ensures
        0 <= leb_payload(s, n) < pow128(n),
    decreases n,
{
    if n > 0 {
        let k = (n - 1) as nat;
        lemma_leb_payload_bounds(s, k);
        lemma_pow128_positive(k);
        let p = (s[k as int] % 128) as int;
        let a = leb_payload(s, k);
        let m = pow128(k);
        assert(0 <= p * m && a + p * m < 128 * m) by (nonlinear_arith)
            requires
                0 <= p < 128,
                0 <= a < m,
        ;
    }
}

/// The payload of the first `n` bytes depends on those bytes only.
pub proof fn lemma_leb_payload_prefix(s: Seq<u8>, t: Seq<u8>, n: nat)
    requires
        n <= s.len(),
        n <= t.len(),
        forall|j: int| #![trigger s[j]] 0 <= j < n ==> s[j] == t[j],
    ensures
        leb_payload(s, n) == leb_payload(t, n),
    decreases n,
{
    if n > 0 {
        lemma_leb_payload_prefix(s, t, (n - 1) as nat);
    }
}

/// A successful unsigned decode consumed between one and five bytes that are
/// all present, and its value is the payload of those bytes.
pub proof fn lemma_u32_leb_from_ok(s: Seq<u8>, i: nat)
    requires
        u32_leb_from(s, i) is Ok,
    ensures
        ({
            let (v, n) = u32_leb_from(s, i)->Ok_0;
            &&& i < n <= 5
            &&& n <= s.len()
            &&& v as int == leb_payload(s, n as nat)
        }),
    decreases 5 - i,
{
    if i < 5 && i < s.len() && !(i == 4 && s[4] % 128 > 15) {
        if s[i as int] < 128 {
            lemma_leb_payload_bounds(s, i + 1);
            if i < 4 {
                lemma_pow128_monotone(i + 1, 4);
            }
            lemma_pow128_values();
            if i == 4 {
                lemma_leb_payload_bounds(s, 4);
                let a = leb_payload(s, 4);
                let p = (s[4] % 128) as int;
                assert(a + p * 0x1000_0000 < 0x1_0000_0000) by (nonlinear_arith)
                    requires
                        0 <= a < 0x1000_0000,
                        0 <= p <= 15,
                ;
            }
        } else {
            lemma_u32_leb_from_ok(s, i + 1);
        }
    }
}

/// A successful signed decode consumed at least one and at most `max_len`
/// bytes, all present, and gives the sign-extended payload of those bytes.
pub proof fn lemma_signed_leb_from_ok(s: Seq<u8>, i: nat, max_len: nat, unit: int, lo: int, hi: int)
    requires
        signed_leb_from(s, i, max_len, unit, lo, hi) is Ok,
        max_len <= 10,
    ensures
        ({
            let (v, n) = signed_leb_from(s, i, max_len, unit, lo, hi)->Ok_0;
            &&& i < n <= max_len
            &&& n <= s.len()
            &&& v == leb_signed(s, n as nat)
            &&& lo <= v <= hi
        }),
    decreases max_len - i,
{
    if i < max_len && i < s.len() && s[i as int] >= 128 {
        lemma_signed_leb_from_ok(s, i + 1, max_len, unit, lo, hi);
    }
}

proof fn lemma_pow128_values()
    ensures
        pow128(4) == 0x1000_0000,
        pow128(5) == 0x8_0000_0000,
        pow128(10) == 0x40_0000_0000_0000_0000,
{
    reveal_with_fuel(pow128, 11);
}

proof fn lemma_u32_leb_from_prefix(s: Seq<u8>, t: Seq<u8>, i: nat)
    requires
        u32_leb_from(s, i) is Ok,
        u32_leb_from(s, i)->Ok_0.1 <= t.len(),
        t.subrange(0, u32_leb_from(s, i)->Ok_0.1 as int) == s.subrange(
            0,
            u32_leb_from(s, i)->Ok_0.1 as int,
        ),
    ensures
        u32_leb_from(t, i) == u32_leb_from(s, i),
    decreases 5 - i,
{
    lemma_u32_leb_from_ok(s, i);
    let n = u32_leb_from(s, i)->Ok_0.1 as int;
    assert forall|j: int| 0 <= j < n implies s[j] == t[j] by {
        assert(s[j] == s.subrange(0, n)[j]);
        assert(t[j] == t.subrange(0, n)[j]);
    }
    if s[i as int] < 128 {
        lemma_leb_payload_prefix(s, t, i + 1);
    } else {
        lemma_u32_leb_from_prefix(s, t, i + 1);
    }
}

/// The shortest unsigned LEB128 encoding of `v`: seven bits per byte, least significant
/// group first, every byte but the last with its high bit set.
pub open spec fn leb_unsigned(v: nat) -> Seq<u8>
    decreases v,
{
    if v < 128 {
        seq![v as u8]
    } else {
        seq![(v % 128 + 128) as u8] + leb_unsigned(v / 128)
    }
}

proof fn lemma_payload_cons(b: u8, t: Seq<u8>, k: nat)
    requires
        k <= t.len(),
    ensures
        leb_payload(seq![b] + t, k + 1) == (b % 128) as int + 128 * leb_payload(t, k),
    decreases k,
{
    let s = seq![b] + t;
    if k > 0 {
        lemma_payload_cons(b, t, (k - 1) as nat);
        assert(s[k as int] == t[k - 1]);
        let p = (t[k - 1] % 128) as int;
        let m = pow128((k - 1) as nat);
        assert(pow128(k) == 128 * m);
        assert(leb_payload(s, k + 1) == leb_payload(s, k) + p * pow128(k));
        assert(leb_payload(t, k) == leb_payload(t, (k - 1) as nat) + p * m);
        assert(p * (128 * m) == 128 * (p * m)) by (nonlinear_arith);
    } else {
        assert(s[0] == b);
        assert(leb_payload(s, 1) == leb_payload(s, 0) + (s[0] % 128) as int * pow128(0));
    }
}

/// The shape of `leb_unsigned(v)`: continuation bits on every byte but the last, a payload
/// of `v`, a length that fits `v`, and a last byte carrying the top group of `v`.
proof fn lemma_leb_unsigned_shape(v: nat)
    ensures
        ({
            let e = leb_unsigned(v);
            let n = e.len();
            &&& n >= 1
            &&& forall|i: int| 0 <= i < n - 1 ==> #[trigger] e[i] >= 128
            &&& e[n - 1] < 128
            &&& e[n - 1] as int == (v as int) / pow128((n - 1) as nat)
            &&& leb_payload(e, n) == v
            &&& v < pow128(n)
            &&& n >= 2 ==> v >= pow128((n - 1) as nat)
        }),
    decreases v,
{
    let e = leb_unsigned(v);
    if v < 128 {
        assert(leb_payload(e, 1) == v) by {
            reveal_with_fuel(leb_payload, 2);
        }
        reveal_with_fuel(pow128, 2);
    } else {
        let w = v / 128;
        let t = leb_unsigned(w);
        lemma_leb_unsigned_shape(w);
        let b = (v % 128 + 128) as u8;
        let k = t.len();
        assert(e == seq![b] + t);
        assert forall|i: int| 0 <= i < e.len() - 1 implies #[trigger] e[i] >= 128 by {
            if i > 0 {
                assert(e[i] == t[i - 1]);
            }
        }
        assert(e[e.len() - 1] == t[k - 1]);
        lemma_payload_cons(b, t, k);
        assert(v == 128 * w + v % 128) by (nonlinear_arith)
            requires
                w == v / 128,
        ;
        lemma_pow128_positive((k - 1) as nat);
        vstd::arithmetic::div_mod::lemma_div_denominator(v as int, 128, pow128((k - 1) as nat));
        assert(pow128(k) == 128 * pow128((k - 1) as nat));
        assert(v < 128 * pow128(k)) by (nonlinear_arith)
            requires
                v == 128 * w + v % 128,
                w < pow128(k),
                v % 128 < 128,
        ;
        if k >= 2 {
            assert(v >= 128 * pow128((k - 1) as nat)) by (nonlinear_arith)
                requires
                    v == 128 * w + v % 128,
                    w >= pow128((k - 1) as nat),
                    v % 128 >= 0,
            ;
        } else {
            reveal_with_fuel(pow128, 2);
        }
    }
}

proof fn lemma_u32_leb_from_shape(s: Seq<u8>, j: nat, n: nat)
    requires
        j < n <= 5,
        n <= s.len(),
        forall|i: int| j <= i < n - 1 ==> #[trigger] s[i] >= 128,
        s[n - 1] < 128,
        n == 5 ==> s[4] % 128 <= 15,
    ensures
        u32_leb_from(s, j) == Ok::<(u32, usize), ParseError>((leb_payload(s, n) as u32, n as usize)),
    decreases n - j,
{
    if j < n - 1 {
        lemma_u32_leb_from_shape(s, j + 1, n);
    }
}

/// Every `u32` decodes from its shortest encoding, whatever bytes follow it, and the
/// decoding uses exactly the encoding's bytes.
pub proof fn law_decode_u32_of_encoding(v: u32, rest: Seq<u8>)
    ensures
        spec_decode_u32(leb_unsigned(v as nat) + rest) == Ok::<(u32, usize), ParseError>(
            (v, leb_unsigned(v as nat).len() as usize),
        ),
{
    let e = leb_unsigned(v as nat);
    let s = e + rest;
    let n = e.len();
    lemma_leb_unsigned_shape(v as nat);
    lemma_pow128_values();
    if n >= 6 {
        lemma_pow128_monotone(5, (n - 1) as nat);
    }
    assert forall|i: int| 0 <= i < n implies #[trigger] s[i] == e[i] by {}
    assert forall|i: int| 0 <= i < n - 1 implies #[trigger] s[i] >= 128 by {
        assert(s[i] == e[i]);
    }
    lemma_leb_payload_prefix(s, e, n);
    if n == 5 {
        assert(e[4] as int == (v as int) / 0x1000_0000);
    }
    lemma_u32_leb_from_shape(s, 0, n);
}

/// The bytes a successful unsigned decode from index `i` used: every one before the last
/// carries the continuation bit, the last does not.
proof fn lemma_u32_leb_from_ok_bytes(s: Seq<u8>, i: nat)
    requires
        u32_leb_from(s, i) is Ok,
    ensures
        ({
            let n = u32_leb_from(s, i)->Ok_0.1;
            &&& i < n <= s.len()
            &&& s[n - 1] < 128
            &&& forall|j: int| i <= j < n - 1 ==> #[trigger] s[j] >= 128
        }),
    decreases 5 - i,
{
    if i < 5 && i < s.len() && !(i == 4 && s[4] % 128 > 15) && s[i as int] >= 128 {
        lemma_u32_leb_from_ok_bytes(s, i + 1);
    }
}

/// Two byte strings whose first `n` bytes agree in their low seven bits have the same payload.
proof fn lemma_leb_payload_low_bits(s: Seq<u8>, t: Seq<u8>, n: nat)
    requires
        forall|j: int| 0 <= j < n ==> #[trigger] (s[j] % 128) == t[j] % 128,
    ensures
        leb_payload(s, n) == leb_payload(t, n),
    decreases n,
{
    if n > 0 {
        lemma_leb_payload_low_bits(s, t, (n - 1) as nat);
        assert(s[n - 1] % 128 == t[n - 1] % 128);
    }
}

/// Bytes whose low seven bits are zero add nothing to the payload.
proof fn lemma_leb_payload_zero_tail(s: Seq<u8>, n: nat, m: nat)
    requires
        n <= m,
        forall|j: int| n <= j < m ==> #[trigger] (s[j] % 128) == 0,
    ensures
        leb_payload(s, m) == leb_payload(s, n),
    decreases m - n,
{
    if n < m {
        lemma_leb_payload_zero_tail(s, n, (m - 1) as nat);
        assert(s[m - 1] % 128 == 0);
    }
}

/// A padded unsigned LEB128 encoding of `v`: the shortest encoding with the continuation
/// bit set on its last byte, then `k - 1` bytes `0x80`, then a final `0x00`.
pub open spec fn leb_unsigned_padded(v: nat, k: nat) -> Seq<u8> {
    let e = leb_unsigned(v);
    e.update(e.len() - 1, (e[e.len() - 1] + 128) as u8) + Seq::new((k - 1) as nat, |i: int| 0x80u8)
        + seq![0x00u8]
}

/// A `u32` padded with `k` extra bytes, up to the five that a `u32` may use, decodes to the
/// same value as its shortest encoding, whatever bytes follow, and uses exactly the padded
/// encoding's bytes.
pub proof fn law_decode_u32_of_padded_encoding(v: u32, k: nat, rest: Seq<u8>)
    requires
        k >= 1,
        leb_unsigned(v as nat).len() + k <= 5,
    ensures
        leb_unsigned_padded(v as nat, k).len() == leb_unsigned(v as nat).len() + k,
        spec_decode_u32(leb_unsigned_padded(v as nat, k) + rest) == Ok::<(u32, usize), ParseError>(
            (v, leb_unsigned_padded(v as nat, k).len() as usize),
        ),
        spec_decode_u32(leb_unsigned_padded(v as nat, k) + rest) == Ok::<(u32, usize), ParseError>(
            (spec_decode_u32(leb_unsigned(v as nat) + rest)->Ok_0.0, (leb_unsigned(v as nat).len() + k) as usize),
        ),
{
    let e = leb_unsigned(v as nat);
    let n = e.len();
    let p = leb_unsigned_padded(v as nat, k);
    let s = p + rest;
    let m = n + k;
    lemma_leb_unsigned_shape(v as nat);
    law_decode_u32_of_encoding(v, rest);
    assert(p.len() == m);
    assert forall|j: int| 0 <= j < m - 1 implies #[trigger] s[j] >= 128 by {
        assert(s[j] == p[j]);
        if j < n - 1 {
            assert(p[j] == e[j]);
        }
    }
    assert(s[m - 1] == 0);
    assert forall|j: int| 0 <= j < n implies #[trigger] (s[j] % 128) == e[j] % 128 by {
        assert(s[j] == p[j]);
    }
    assert forall|j: int| n <= j < m implies #[trigger] (s[j] % 128) == 0 by {
        assert(s[j] == p[j]);
    }
    lemma_leb_payload_low_bits(s, e, n);
    lemma_leb_payload_zero_tail(s, n, m);
    lemma_u32_leb_from_shape(s, 0, m);
}

/// Every group of one to five bytes, continuation bits on all but the last, decodes as a
/// `u32` to its payload, unless a fifth byte carries more than four payload bits: then the
/// decode reports an overflow.
pub proof fn law_decode_u32_of_group(s: Seq<u8>, n: nat)
    requires
        1 <= n <= 5,
        n <= s.len(),
        s[n - 1] < 128,
        forall|j: int| 0 <= j < n - 1 ==> #[trigger] s[j] >= 128,
    ensures
        spec_decode_u32(s) == if n == 5 && s[4] % 128 > 15 {
            Err::<(u32, usize), ParseError>(ParseError::Leb128Overflow)
        } else {
            Ok::<(u32, usize), ParseError>((leb_payload(s, n) as u32, n as usize))
        },
        n < 5 || s[4] % 128 <= 15 ==> leb_payload(s, n) <= u32::MAX,
{
    if n == 5 && s[4] % 128 > 15 {
        assert(s[0] >= 128 && s[1] >= 128 && s[2] >= 128 && s[3] >= 128);
        assert(u32_leb_from(s, 3) == u32_leb_from(s, 4));
        assert(u32_leb_from(s, 2) == u32_leb_from(s, 3));
        assert(u32_leb_from(s, 1) == u32_leb_from(s, 2));
        assert(u32_leb_from(s, 0) == u32_leb_from(s, 1));
    } else {
        lemma_u32_leb_from_shape(s, 0, n);
        lemma_u32_leb_from_ok(s, 0);
    }
}

/// Unsigned decoding reads only the bytes it reports as used: any input that
/// starts with those bytes decodes to the same value and length.
pub proof fn law_decode_u32_reads_only_used_bytes(s: Seq<u8>, t: Seq<u8>)
    requires
        spec_decode_u32(s) is Ok,
        spec_decode_u32(s)->Ok_0.1 <= t.len(),
        t.subrange(0, spec_decode_u32(s)->Ok_0.1 as int) == s.subrange(
            0,
            spec_decode_u32(s)->Ok_0.1 as int,
        ),
    ensures
        spec_decode_u32(t) == spec_decode_u32(s),
{
    lemma_u32_leb_from_prefix(s, t, 0);
}

/// A decoded unsigned value is the base-128 number formed by the low seven bits
/// of the bytes used, least significant first; between one and five bytes are used, and
/// every one of them but the last carries the continuation bit.
pub proof fn law_decode_u32_value(s: Seq<u8>)
    requires
        spec_decode_u32(s) is Ok,
    ensures
        1 <= spec_decode_u32(s)->Ok_0.1 <= 5,
        spec_decode_u32(s)->Ok_0.1 <= s.len(),
        spec_decode_u32(s)->Ok_0.0 as int == leb_payload(s, spec_decode_u32(s)->Ok_0.1 as nat),
        s[spec_decode_u32(s)->Ok_0.1 - 1] < 128,
        forall|j: int| 0 <= j < spec_decode_u32(s)->Ok_0.1 - 1 ==> #[trigger] s[j] >= 128,
{
    lemma_u32_leb_from_ok(s, 0);
    lemma_u32_leb_from_ok_bytes(s, 0);
}

proof fn lemma_signed_leb_from_prefix(
    s: Seq<u8>,
    t: Seq<u8>,
    i: nat,
    max_len: nat,
    unit: int,
    lo: int,
    hi: int,
)
    requires
        max_len <= 10,
        signed_leb_from(s, i, max_len, unit, lo, hi) is Ok,
        signed_leb_from(s, i, max_len, unit, lo, hi)->Ok_0.1 <= t.len(),
        t.subrange(0, signed_leb_from(s, i, max_len, unit, lo, hi)->Ok_0.1 as int) == s.subrange(
            0,
            signed_leb_from(s, i, max_len, unit, lo, hi)->Ok_0.1 as int,
        ),
    ensures
        signed_leb_from(t, i, max_len, unit, lo, hi) == signed_leb_from(s, i, max_len, unit, lo, hi),
    decreases max_len - i,
{
    lemma_signed_leb_from_ok(s, i, max_len, unit, lo, hi);
    let n = signed_leb_from(s, i, max_len, unit, lo, hi)->Ok_0.1 as int;
    assert forall|j: int| 0 <= j < n implies s[j] == t[j] by {
        assert(s[j] == s.subrange(0, n)[j]);
        assert(t[j] == t.subrange(0, n)[j]);
    }
    if s[i as int] < 128 {
        lemma_leb_payload_prefix(s, t, i + 1);
    } else {
        lemma_signed_leb_from_prefix(s, t, i + 1, max_len, unit, lo, hi);
    }
}

/// Signed 32-bit decoding reads only the bytes it reports as used.
pub proof fn law_decode_i32_reads_only_used_bytes(s: Seq<u8>, t: Seq<u8>)
    requires
        spec_decode_i32(s) is Ok,
        spec_decode_i32(s)->Ok_0.1 <= t.len(),
        t.subrange(0, spec_decode_i32(s)->Ok_0.1 as int) == s.subrange(
            0,
            spec_decode_i32(s)->Ok_0.1 as int,
        ),
    ensures
        spec_decode_i32(t) == spec_decode_i32(s),
{
    lemma_signed_leb_from_prefix(s, t, 0, 5, 16, i32::MIN as int, i32::MAX as int);
}

/// Signed 64-bit decoding reads only the bytes it reports as used.
pub proof fn law_decode_i64_reads_only_used_bytes(s: Seq<u8>, t: Seq<u8>)
    requires
        spec_decode_i64(s) is Ok,
        spec_decode_i64(s)->Ok_0.1 <= t.len(),
        t.subrange(0, spec_decode_i64(s)->Ok_0.1 as int) == s.subrange(
            0,
            spec_decode_i64(s)->Ok_0.1 as int,
        ),
    ensures
        spec_decode_i64(t) == spec_decode_i64(s),
{
    lemma_signed_leb_from_prefix(s, t, 0, 10, 2, i64::MIN as int, i64::MAX as int);
}

/// Signed 33-bit decoding reads only the bytes it reports as used.
pub proof fn law_decode_s33_reads_only_used_bytes(s: Seq<u8>, t: Seq<u8>)
    requires
        spec_decode_s33(s) is Ok,
        spec_decode_s33(s)->Ok_0.1 <= t.len(),
        t.subrange(0, spec_decode_s33(s)->Ok_0.1 as int) == s.subrange(
            0,
            spec_decode_s33(s)->Ok_0.1 as int,
        ),
    ensures
        spec_decode_s33(t) == spec_decode_s33(s),
{
    lemma_signed_leb_from_prefix(s, t, 0, 5, 32, s33_min(), s33_max());
}

/// The bytes a successful signed decode from index `i` used: every one before the last
/// carries the continuation bit, the last does not.
proof fn lemma_signed_leb_from_ok_bytes(s: Seq<u8>, i: nat, max_len: nat, unit: int, lo: int, hi: int)
    requires
        signed_leb_from(s, i, max_len, unit, lo, hi) is Ok,
        max_len <= 10,
    ensures
        ({
            let n = signed_leb_from(s, i, max_len, unit, lo, hi)->Ok_0.1;
            &&& i < n <= s.len()
            &&& s[n - 1] < 128
            &&& forall|j: int| i <= j < n - 1 ==> #[trigger] s[j] >= 128
        }),
    decreases max_len - i,
{
    if i < max_len && i < s.len() && s[i as int] >= 128 {
        lemma_signed_leb_from_ok_bytes(s, i + 1, max_len, unit, lo, hi);
    }
}

/// A decoded signed value is the payload of the used bytes sign-extended from
/// bit 6 of the last one, and it lies in the range of the target type; every used byte
/// but the last carries the continuation bit.
pub proof fn law_decode_signed_value(s: Seq<u8>)
    ensures
        spec_decode_i32(s) is Ok ==> ({
            let (v, n) = spec_decode_i32(s)->Ok_0;
            &&& 1 <= n <= 5 && n <= s.len() && v as int == leb_signed(s, n as nat)
            &&& s[n - 1] < 128
            &&& forall|j: int| 0 <= j < n - 1 ==> #[trigger] s[j] >= 128
        }),
        spec_decode_i64(s) is Ok ==> ({
            let (v, n) = spec_decode_i64(s)->Ok_0;
            &&& 1 <= n <= 10 && n <= s.len() && v as int == leb_signed(s, n as nat)
            &&& s[n - 1] < 128
            &&& forall|j: int| 0 <= j < n - 1 ==> #[trigger] s[j] >= 128
        }),
        spec_decode_s33(s) is Ok ==> ({
            let (v, n) = spec_decode_s33(s)->Ok_0;
            &&& 1 <= n <= 5 && n <= s.len() && v as int == leb_signed(s, n as nat)
            &&& s33_min() <= v <= s33_max()
            &&& s[n - 1] < 128
            &&& forall|j: int| 0 <= j < n - 1 ==> #[trigger] s[j] >= 128
        }),
{
    if signed_leb_from(s, 0, 5, 16, i32::MIN as int, i32::MAX as int) is Ok {
        lemma_signed_leb_from_ok(s, 0, 5, 16, i32::MIN as int, i32::MAX as int);
        lemma_signed_leb_from_ok_bytes(s, 0, 5, 16, i32::MIN as int, i32::MAX as int);
    }
    if signed_leb_from(s, 0, 10, 2, i64::MIN as int, i64::MAX as int) is Ok {
        lemma_signed_leb_from_ok(s, 0, 10, 2, i64::MIN as int, i64::MAX as int);
        lemma_signed_leb_from_ok_bytes(s, 0, 10, 2, i64::MIN as int, i64::MAX as int);
    }
    if signed_leb_from(s, 0, 5, 32, s33_min(), s33_max()) is Ok {
        lemma_signed_leb_from_ok(s, 0, 5, 32, s33_min(), s33_max());
        lemma_signed_leb_from_ok_bytes(s, 0, 5, 32, s33_min(), s33_max());
    }
}

/// The shortest signed LEB128 encoding of `v`: seven two's-complement bits per byte, least
/// significant group first, ending at the first group whose bit 6 carries the sign of the
/// rest; every byte but the last has its high bit set.
pub open spec fn leb_signed_enc(v: int) -> Seq<u8>
    decreases (if v < 0 { -v } else { v }),
{
    if -64 <= v < 64 {
        seq![(if v < 0 { v + 128 } else { v }) as u8]
    } else {
        seq![(v % 128 + 128) as u8] + leb_signed_enc(v / 128)
    }
}

/// The shape of `leb_signed_enc(v)`: continuation bits on every byte but the last, `v` as
/// its sign-extended payload, and a length that `v` needs.
proof fn lemma_leb_signed_shape(v: int)
    ensures
        ({
            let e = leb_signed_enc(v);
            let n = e.len();
            &&& n >= 1
            &&& forall|i: int| 0 <= i < n - 1 ==> #[trigger] e[i] >= 128
            &&& e[n - 1] < 128
            &&& leb_signed(e, n) == v
            &&& -64 * pow128((n - 1) as nat) <= v < 64 * pow128((n - 1) as nat)
            &&& n >= 2 ==> !(-64 * pow128((n - 2) as nat) <= v < 64 * pow128((n - 2) as nat))
        }),
    decreases (if v < 0 { -v } else { v }),
{
    let e = leb_signed_enc(v);
    if -64 <= v < 64 {
        assert(leb_payload(e, 1) == e[0] as int) by {
            reveal_with_fuel(leb_payload, 2);
        }
        reveal_with_fuel(pow128, 2);
    } else {
        let w = v / 128;
        let t = leb_signed_enc(w);
        lemma_leb_signed_shape(w);
        let b = (v % 128 + 128) as u8;
        let k = t.len();
        assert(e == seq![b] + t);
        assert forall|i: int| 0 <= i < e.len() - 1 implies #[trigger] e[i] >= 128 by {
            if i > 0 {
                assert(e[i] == t[i - 1]);
            }
        }
        assert(e[e.len() - 1] == t[k - 1]);
        lemma_payload_cons(b, t, k);
        lemma_pow128_positive((k - 1) as nat);
        let big = if t[k - 1] % 128 >= 64 { pow128(k) } else { 0 };
        assert(pow128(k) == 128 * pow128((k - 1) as nat));
        assert(v == 128 * w + v % 128) by (nonlinear_arith)
            requires
                w == v / 128,
        ;
        let p = pow128((k - 1) as nat);
        assert(128 * leb_payload(t, k) - 128 * big == 128 * (leb_payload(t, k) - big)) by (nonlinear_arith);
        assert(-64 * (128 * p) <= v < 64 * (128 * p)) by (nonlinear_arith)
            requires
                v == 128 * w + v % 128,
                0 <= v % 128 < 128,
                -64 * p <= w < 64 * p,
                p >= 1,
        ;
        if k >= 2 {
            let q = pow128((k - 2) as nat);
            assert(p == 128 * q);
            assert(!(-64 * p <= v < 64 * p)) by (nonlinear_arith)
                requires
                    v == 128 * w + v % 128,
                    0 <= v % 128 < 128,
                    !(-64 * q <= w < 64 * q),
                    p == 128 * q,
            ;
        } else {
            reveal_with_fuel(pow128, 2);
        }
    }
}

/// A signed decode over bytes of the shape `leb_signed_enc` gives, with the last byte's
/// unused bits in order and the value in range, succeeds with that value and length.
proof fn lemma_signed_leb_from_shape(s: Seq<u8>, j: nat, n: nat, max_len: nat, unit: int, lo: int, hi: int)
    requires
        j < n <= max_len,
        n <= s.len(),
        forall|i: int| j <= i < n - 1 ==> #[trigger] s[i] >= 128,
        s[n - 1] < 128,
        n == max_len ==> signed_tail_ok(s[n - 1], unit),
        lo <= leb_signed(s, n) <= hi,
    ensures
        signed_leb_from(s, j, max_len, unit, lo, hi) == Ok::<(int, usize), ParseError>(
            (leb_signed(s, n), n as usize),
        ),
    decreases n - j,
{
    if j < n - 1 {
        lemma_signed_leb_from_shape(s, j + 1, n, max_len, unit, lo, hi);
    }
}

/// Over continuation bytes, signed decoding moves on to the last byte of the group.
proof fn lemma_signed_leb_from_reaches(s: Seq<u8>, j: nat, n: nat, max_len: nat, unit: int, lo: int, hi: int)
    requires
        j < n <= max_len,
        n <= s.len(),
        forall|i: int| j <= i < n - 1 ==> #[trigger] s[i] >= 128,
    ensures
        signed_leb_from(s, j, max_len, unit, lo, hi) == signed_leb_from(s, (n - 1) as nat, max_len, unit, lo, hi),
    decreases n - j,
{
    if j < n - 1 {
        lemma_signed_leb_from_reaches(s, j + 1, n, max_len, unit, lo, hi);
    }
}

/// Every group of one to five bytes, continuation bits on all but the last, decodes as an
/// `i32` to its sign-extended payload, unless that value lies outside `i32` or a fifth
/// byte's unused bits are not a sign extension: then the decode reports an overflow.
pub proof fn law_decode_i32_of_group(s: Seq<u8>, n: nat)
    requires
        1 <= n <= 5,
        n <= s.len(),
        s[n - 1] < 128,
        forall|j: int| 0 <= j < n - 1 ==> #[trigger] s[j] >= 128,
    ensures
        spec_decode_i32(s) == if (n == 5 && !signed_tail_ok(s[4], 16)) || leb_signed(s, n) < i32::MIN
            || leb_signed(s, n) > i32::MAX {
            Err::<(i32, usize), ParseError>(ParseError::Leb128Overflow)
        } else {
            Ok::<(i32, usize), ParseError>((leb_signed(s, n) as i32, n as usize))
        },
{
    lemma_signed_leb_from_reaches(s, 0, n, 5, 16, i32::MIN as int, i32::MAX as int);
}

/// `leb_signed_enc(v)` followed by anything: the same bytes up front, the same value.
proof fn lemma_signed_encoding_prefix(v: int, rest: Seq<u8>)
    ensures
        ({
            let e = leb_signed_enc(v);
            let s = e + rest;
            let n = e.len();
            &&& forall|i: int| 0 <= i < n - 1 ==> #[trigger] s[i] >= 128
            &&& s[n - 1] == e[n - 1]
            &&& leb_signed(s, n) == v
            &&& leb_signed(s, n) == leb_payload(s, (n - 1) as nat) + (if s[n - 1] >= 64 {
                s[n - 1] - 128
            } else {
                s[n - 1] as int
            }) * pow128((n - 1) as nat)
            &&& 0 <= leb_payload(s, (n - 1) as nat) < pow128((n - 1) as nat)
        }),
{
    let e = leb_signed_enc(v);
    let s = e + rest;
    let n = e.len();
    lemma_leb_signed_shape(v);
    assert forall|i: int| 0 <= i < n - 1 implies #[trigger] s[i] >= 128 by {
        assert(s[i] == e[i]);
    }
    assert forall|i: int| #![trigger s[i]] 0 <= i < n implies s[i] == e[i] by {}
    lemma_leb_payload_prefix(s, e, n);
    lemma_leb_payload_bounds(s, (n - 1) as nat);
    let m = pow128((n - 1) as nat);
    assert(pow128(n) == 128 * m);
    let b = s[n - 1] as int;
    assert(b * m - 128 * m == (b - 128) * m) by (nonlinear_arith);
}

/// Every `i32` decodes from its shortest signed encoding, whatever bytes follow it.
pub proof fn law_decode_i32_of_encoding(v: i32, rest: Seq<u8>)
    ensures
        spec_decode_i32(leb_signed_enc(v as int) + rest) == Ok::<(i32, usize), ParseError>(
            (v, leb_signed_enc(v as int).len() as usize),
        ),
{
    let e = leb_signed_enc(v as int);
    let s = e + rest;
    let n = e.len();
    lemma_leb_signed_shape(v as int);
    lemma_signed_encoding_prefix(v as int, rest);
    lemma_pow128_values();
    if n >= 6 {
        lemma_pow128_monotone(4, (n - 2) as nat);
    }
    if n == 5 {
        let b = s[4] as int;
        let top = if b >= 64 { b - 128 } else { b };
        let p = leb_payload(s, 4);
        assert(-8 <= top < 8) by (nonlinear_arith)
            requires
                v == p + top * 0x1000_0000,
                0 <= p < 0x1000_0000,
                -0x8000_0000 <= v < 0x8000_0000,
        ;
    }
    lemma_signed_leb_from_shape(s, 0, n, 5, 16, i32::MIN as int, i32::MAX as int);
}

/// Every `i64` decodes from its shortest signed encoding, whatever bytes follow it.
pub proof fn law_decode_i64_of_encoding(v: i64, rest: Seq<u8>)
    ensures
        spec_decode_i64(leb_signed_enc(v as int) + rest) == Ok::<(i64, usize), ParseError>(
            (v, leb_signed_enc(v as int).len() as usize),
        ),
{
    let e = leb_signed_enc(v as int);
    let s = e + rest;
    let n = e.len();
    lemma_leb_signed_shape(v as int);
    lemma_signed_encoding_prefix(v as int, rest);
    lemma_pow128_values();
    if n >= 11 {
        lemma_pow128_monotone(9, (n - 2) as nat);
        assert(pow128(9) == 0x8000_0000_0000_0000) by {
            reveal_with_fuel(pow128, 10);
        }
    }
    if n == 10 {
        let b = s[9] as int;
        let top = if b >= 64 { b - 128 } else { b };
        let p = leb_payload(s, 9);
        assert(pow128(9) == 0x8000_0000_0000_0000) by {
            reveal_with_fuel(pow128, 10);
        }
        assert(-1 <= top < 1) by (nonlinear_arith)
            requires
                v == p + top * 0x8000_0000_0000_0000,
                0 <= p < 0x8000_0000_0000_0000,
                -0x8000_0000_0000_0000 <= v < 0x8000_0000_0000_0000,
        ;
    }
    lemma_signed_leb_from_shape(s, 0, n, 10, 2, i64::MIN as int, i64::MAX as int);
}

/// Every value of the signed 33-bit block-type domain, every `u32` among them, decodes from
/// its shortest signed encoding, whatever bytes follow it.
pub proof fn law_decode_s33_of_encoding(v: int, rest: Seq<u8>)
    requires
        s33_min() <= v <= s33_max(),
    ensures
        spec_decode_s33(leb_signed_enc(v) + rest) == Ok::<(i64, usize), ParseError>(
            (v as i64, leb_signed_enc(v).len() as usize),
        ),
{
    let e = leb_signed_enc(v);
    let s = e + rest;
    let n = e.len();
    lemma_leb_signed_shape(v);
    lemma_signed_encoding_prefix(v, rest);
    lemma_pow128_values();
    if n >= 6 {
        lemma_pow128_monotone(4, (n - 2) as nat);
    }
    if n == 5 {
        let b = s[4] as int;
        let top = if b >= 64 { b - 128 } else { b };
        let p = leb_payload(s, 4);
        assert(-16 <= top < 16) by (nonlinear_arith)
            requires
                v == p + top * 0x1000_0000,
                0 <= p < 0x1000_0000,
                -0x1_0000_0000 <= v < 0x1_0000_0000,
        ;
    }
    lemma_signed_leb_from_shape(s, 0, n, 5, 32, s33_min(), s33_max());
}

/// Decode a canonical-or-noncanonical unsigned LEB128 u32 value.
pub fn decode_u32(input: &[u8]) -> (r: Result<(u32, usize), ParseError>)
    ensures
        r == spec_decode_u32(input@),
{
    let mut result: u64 = 0;
    let mut mult: u64 = 1;
    let mut index: usize = 0;
    proof {
        lemma_pow128_values();
    }
    while index < 5
        invariant
            index <= 5,
            index <= input@.len(),
            result == leb_payload(input@, index as nat),
            index < 5 ==> mult == pow128(index as nat),
            pow128(4) == 0x1000_0000,
            u32_leb_from(input@, 0) == u32_leb_from(input@, index as nat),
        decreases 5 - index,
    {
        proof {
            lemma_leb_payload_bounds(input@, index as nat);
            lemma_pow128_monotone(index as nat, 4);
        }
        if index >= input.len() {
            return Err(ParseError::UnexpectedEof);
        }
        let byte = input[index];
        let payload = (byte % 128) as u64;
        if index == 4 && payload > 15 {
            return Err(ParseError::Leb128Overflow);
        }
        assert(payload * mult <= 127 * 0x1000_0000) by (nonlinear_arith)
            requires
                payload <= 127,
                mult <= 0x1000_0000,
        ;
        result = result + payload * mult;
        if byte < 128 {
            proof {
                if index == 4 {
                    assert(payload * mult <= 15 * 0x1000_0000) by (nonlinear_arith)
                        requires
                            payload <= 15,
                            mult == 0x1000_0000,
                    ;
                }
                lemma_leb_payload_bounds(input@, (index + 1) as nat);
                if index < 4 {
                    lemma_pow128_monotone((index + 1) as nat, 4);
                }
            }
            return Ok((result as u32, index + 1));
        }
        if index < 4 {
            mult = mult * 128;
        }
        index = index + 1;
    }
    Err(ParseError::InvalidLeb128)
}

/// Shared signed LEB128 loop: at most `max_len` bytes, the final full-width byte
/// checked against `unit`, the value accepted in `lo..=hi`.
fn decode_signed(input: &[u8], max_len: usize, unit: u8, lo: i128, hi: i128) -> (r: Result<
    (i128, usize),
    ParseError,
>)
    requires
        1 <= max_len <= 10,
        unit == 2 || unit == 16 || unit == 32,
    ensures
        match (r, signed_leb_from(input@, 0, max_len as nat, unit as int, lo as int, hi as int)) {
            (Ok((v, n)), Ok((w, m))) => v == w && n == m,
            (Err(e), Err(f)) => e == f,
            _ => false,
        },
{
    let mut result: u128 = 0;
    let mut mult: u128 = 1;
    let mut index: usize = 0;
    proof {
        lemma_pow128_values();
    }
    while index < max_len
        invariant
            1 <= max_len <= 10,
            unit == 2 || unit == 16 || unit == 32,
            index <= max_len,
            index <= input@.len(),
            result == leb_payload(input@, index as nat),
            mult == pow128(index as nat),
            pow128(10) == 0x40_0000_0000_0000_0000,
            signed_leb_from(input@, 0, max_len as nat, unit as int, lo as int, hi as int)
                == signed_leb_from(input@, index as nat, max_len as nat, unit as int, lo as int, hi as int),
        decreases max_len - index,
    {
        proof {
            lemma_leb_payload_bounds(input@, index as nat);
            lemma_pow128_monotone((index + 1) as nat, 10);
        }
        if index >= input.len() {
            return Err(ParseError::UnexpectedEof);
        }
        let byte = input[index];
        let payload = (byte % 128) as u128;
        assert(result + payload * mult < 128 * mult) by (nonlinear_arith)
            requires
                payload <= 127,
                result < mult,
        ;
        assert(128 * mult == pow128((index + 1) as nat));
        result = result + payload * mult;
        mult = mult * 128;
        if byte < 128 {
            if index + 1 == max_len {
                let q = byte / unit;
                if !(q == 0 || q == 128 / unit - 1) {
                    return Err(ParseError::Leb128Overflow);
                }
            }
            let value: i128 = if payload >= 64 {
                result as i128 - mult as i128
            } else {
                result as i128
            };
            assert(value == leb_signed(input@, (index + 1) as nat));
            if lo <= value && value <= hi {
                return Ok((value, index + 1));
            }
            return Err(ParseError::Leb128Overflow);
        }
        index = index + 1;
    }
    Err(ParseError::InvalidLeb128)
}

/// Decode a signed LEB128 i32 value.
pub fn decode_i32(input: &[u8]) -> (r: Result<(i32, usize), ParseError>)
    ensures
        r == spec_decode_i32(input@),
{
    match decode_signed(input, 5, 16, i32::MIN as i128, i32::MAX as i128) {
        Ok((value, used)) => Ok((value as i32, used)),
        Err(e) => Err(e),
    }
}

/// Decode a signed LEB128 i64 value.
pub fn decode_i64(input: &[u8]) -> (r: Result<(i64, usize), ParseError>)
    ensures
        r == spec_decode_i64(input@),
{
    match decode_signed(input, 10, 2, i64::MIN as i128, i64::MAX as i128) {
        Ok((value, used)) => Ok((value as i64, used)),
        Err(e) => Err(e),
    }
}

/// Decode a signed 33-bit LEB128 value used by WebAssembly block types.
///
/// The signed-33 domain can represent every u32 type index plus the negative
/// single-byte value-type encodings reserved by the binary format.
pub fn decode_s33(input: &[u8]) -> (r: Result<(i64, usize), ParseError>)
    ensures
        r == spec_decode_s33(input@),
{
    match decode_signed(input, 5, 32, -0x1_0000_0000i128, 0xffff_ffffi128) {
        Ok((value, used)) => Ok((value as i64, used)),
        Err(e) => Err(e),
    }
}

} // verus!
