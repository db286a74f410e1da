//! Bytes written out as printable text: base64url, base32 and hexadecimal.

use vstd::arithmetic::power2::*;
use vstd::prelude::*;
use vstd::string::*;

use crate::text;

verus! {

/// Byte `j` of `b`, with zeros past the end.
pub open spec fn byte_or_zero(b: Seq<u8>, j: int) -> int {
    if 0 <= j < b.len() {
        b[j] as int
    } else {
        0
    }
}

/// The `width` bits of `b` that start at bit `at`, the most significant bit of
/// a byte coming first.
pub open spec fn bits_at(b: Seq<u8>, at: int, width: int) -> int {
    let pair = byte_or_zero(b, at / 8) * 256 + byte_or_zero(b, at / 8 + 1);
    pair / (pow2((16 - at % 8 - width) as nat) as int) % (pow2(width as nat) as int)
}

/// The six bit group number `i` of `b`.
pub open spec fn sextet(b: Seq<u8>, i: int) -> int {
    bits_at(b, 6 * i, 6)
}

/// The base64url character of a six bit value.
pub open spec fn base64url_char(v: int) -> char {
    if v < 26 {
        (65 + v) as char
    } else if v < 52 {
        (97 + (v - 26)) as char
    } else if v < 62 {
        (48 + (v - 52)) as char
    } else if v == 62 {
        '-'
    } else {
        '_'
    }
}

/// `b` in base64url without padding.
pub open spec fn base64url(b: Seq<u8>) -> Seq<char> {
    Seq::new((8 * b.len() + 5) as nat / 6, |i: int| base64url_char(sextet(b, i)))
}

/// The base32 character of a five bit value.
pub open spec fn base32_char(v: int) -> char {
    if v < 26 {
        (65 + v) as char
    } else {
        (50 + (v - 26)) as char
    }
}

/// The five bit group number `i` of `b`.
pub open spec fn quintet(b: Seq<u8>, i: int) -> int {
    bits_at(b, 5 * i, 5)
}

/// `b` in base32 without padding, in capitals.
pub open spec fn base32(b: Seq<u8>) -> Seq<char> {
    Seq::new((8 * b.len() + 4) as nat / 5, |i: int| base32_char(quintet(b, i)))
}

/// The lowercase hexadecimal digit of a four bit value.
pub open spec fn hex_char(v: int) -> char {
    if v < 10 {
        (48 + v) as char
    } else {
        (97 + (v - 10)) as char
    }
}

/// `b` in lowercase hexadecimal, two digits to a byte.
pub open spec fn hex(b: Seq<u8>) -> Seq<char> {
    Seq::new(
        2 * b.len(),
        |i: int|
            hex_char(
                if i % 2 == 0 {
                    b[i / 2] as int / 16
                } else {
                    b[i / 2] as int % 16
                },
            ),
    )
}

/// The longest text that the decoders take, in bytes.
pub open spec fn decodable_len() -> int {
    usize::MAX as int / 8
}

/// Encodes with `data_encoding::BASE64URL_NOPAD.encode`.
///
/// The claim is the format itself: one character for every six bits, the last
/// one filled up with zero bits, and no padding after it. The length bound is
/// the crate's own, above which it may panic.
#[verifier::external_body]
pub(crate) fn encode_base64url(bytes: &[u8]) -> (r: String)
    requires
        bytes@.len() <= usize::MAX / 512,
    ensures
        r@ == base64url(bytes@),
{
    data_encoding::BASE64URL_NOPAD.encode(bytes)
}

/// Decodes with `data_encoding::BASE64URL_NOPAD.decode`.
///
/// Only canonical text decodes: the crate refuses a wrong length, a character
/// outside the alphabet and a last character with stray bits, so the result
/// encodes to exactly the text that came in, and a refused text is the encoding
/// of no bytes at all. The length bound is the crate's own, above which it
/// panics.
#[verifier::external_body]
pub(crate) fn decode_base64url(s: &str) -> (r: Option<Vec<u8>>)
    requires
        s.spec_bytes().len() <= decodable_len(),
    ensures
        match r {
            Some(b) => base64url(b@) == s@,
            None => forall|b: Seq<u8>| #[trigger] base64url(b) != s@,
        },
{
    data_encoding::BASE64URL_NOPAD.decode(s.as_bytes()).ok()
}

/// Decodes with `data_encoding::BASE32_NOPAD_NOCASE.decode`, which reads small
/// letters as capitals.
///
/// As for base64url, only canonical text decodes, and the length bound is the
/// crate's own.
#[verifier::external_body]
pub(crate) fn decode_base32(s: &str) -> (r: Option<Vec<u8>>)
    requires
        s.spec_bytes().len() <= decodable_len(),
    ensures
        match r {
            Some(b) => base32(b@) == text::ascii_uppercase(s@),
            None => forall|b: Seq<u8>| #[trigger] base32(b) != text::ascii_uppercase(s@),
        },
{
    data_encoding::BASE32_NOPAD_NOCASE.decode(s.as_bytes()).ok()
}

/// The bytes that `s` is the base64url form of.
pub open spec fn base64url_bytes(s: Seq<char>) -> Option<Seq<u8>> {
    if exists|b: Seq<u8>| #[trigger] base64url(b) == s {
        Some(choose|b: Seq<u8>| #[trigger] base64url(b) == s)
    } else {
        None
    }
}

/// The bytes that `s` is the base32 form of, whatever the case of its letters.
pub open spec fn base32_bytes(s: Seq<char>) -> Option<Seq<u8>> {
    if exists|b: Seq<u8>| #[trigger] base32(b) == text::ascii_uppercase(s) {
        Some(choose|b: Seq<u8>| #[trigger] base32(b) == text::ascii_uppercase(s))
    } else {
        None
    }
}

proof fn lemma_powers()
    ensures
        pow2(4) == 16,
        pow2(5) == 32,
        pow2(6) == 64,
        pow2(7) == 128,
        pow2(8) == 256,
        pow2(9) == 512,
        pow2(10) == 1024,
        pow2(11) == 2048,
{
    lemma2_to64();
}

/// A value within six bits is read back from its base64url character.
proof fn lemma_base64url_char_injective(v: int, w: int)
    requires
        0 <= v < 64,
        0 <= w < 64,
        base64url_char(v) == base64url_char(w),
    ensures
        v == w,
{
    assert(base64url_char(v) as u32 == base64url_char(w) as u32);
}

/// How three bytes fall into four groups of six bits.
proof fn lemma_split_in_sextets(b0: u32, b1: u32, b2: u32, b3: u32)
    requires
        b0 < 256,
        b1 < 256,
        b2 < 256,
        b3 < 256,
    ensures
        (b0 * 256 + b1) / 1024 % 64 == b0 / 4,
        (b0 * 256 + b1) / 16 % 64 == (b0 % 4) * 16 + b1 / 16,
        (b1 * 256 + b2) / 64 % 64 == (b1 % 16) * 4 + b2 / 64,
        (b2 * 256 + b3) / 256 % 64 == b2 % 64,
{
    assert((b0 * 256 + b1) / 1024 % 64 == b0 / 4 && (b0 * 256 + b1) / 16 % 64 == (b0 % 4) * 16 + b1
        / 16 && (b1 * 256 + b2) / 64 % 64 == (b1 % 16) * 4 + b2 / 64 && (b2 * 256 + b3) / 256 % 64
        == b2 % 64) by (bit_vector)
        requires
            b0 < 256,
            b1 < 256,
            b2 < 256,
            b3 < 256,
    ;
}

/// The six bit groups that hold the three bytes from byte `3 * q` on.
proof fn lemma_sextets(b: Seq<u8>, q: int)
    requires
        0 <= q,
    ensures
        sextet(b, 4 * q) == byte_or_zero(b, 3 * q) / 4,
        sextet(b, 4 * q + 1) == (byte_or_zero(b, 3 * q) % 4) * 16 + byte_or_zero(b, 3 * q + 1) / 16,
        sextet(b, 4 * q + 2) == (byte_or_zero(b, 3 * q + 1) % 16) * 4 + byte_or_zero(b, 3 * q + 2)
            / 64,
        sextet(b, 4 * q + 3) == byte_or_zero(b, 3 * q + 2) % 64,
{
    lemma_powers();
    let b0 = byte_or_zero(b, 3 * q);
    let b1 = byte_or_zero(b, 3 * q + 1);
    let b2 = byte_or_zero(b, 3 * q + 2);
    let b3 = byte_or_zero(b, 3 * q + 3);
    lemma_split_in_sextets(b0 as u32, b1 as u32, b2 as u32, b3 as u32);
    assert((6 * (4 * q)) / 8 == 3 * q && (6 * (4 * q)) % 8 == 0);
    assert((6 * (4 * q + 1)) / 8 == 3 * q && (6 * (4 * q + 1)) % 8 == 6);
    assert((6 * (4 * q + 2)) / 8 == 3 * q + 1 && (6 * (4 * q + 2)) % 8 == 4);
    assert((6 * (4 * q + 3)) / 8 == 3 * q + 2 && (6 * (4 * q + 3)) % 8 == 2);
}

/// Every six bit group is within six bits.
proof fn lemma_sextet_range(b: Seq<u8>, i: int)
    requires
        0 <= i,
    ensures
        0 <= sextet(b, i) < 64,
{
    lemma_powers();
}

/// Byte strings whose base64url forms are equally long are equally long.
proof fn lemma_base64url_len(m: int, n: int)
    requires
        0 <= m,
        0 <= n,
        (8 * m + 5) / 6 == (8 * n + 5) / 6,
    ensures
        m == n,
{
}

/// The length of a base64url form, and the character of each group.
pub(crate) proof fn lemma_base64url(b: Seq<u8>)
    ensures
        base64url(b).len() == (8 * b.len() + 5) / 6,
        forall|i: int|
            0 <= i < (8 * b.len() + 5) / 6 ==> #[trigger] base64url(b)[i] == base64url_char(
                sextet(b, i),
            ),
{
}

/// Different bytes have different base64url forms.
pub proof fn base64url_injective(a: Seq<u8>, b: Seq<u8>)
    requires
        base64url(a) == base64url(b),
    ensures
        a == b,
{
    lemma_base64url(a);
    lemma_base64url(b);
    lemma_base64url_len(a.len() as int, b.len() as int);
    assert forall|i: int| 0 <= i < (8 * a.len() + 5) as nat / 6 implies #[trigger] sextet(a, i)
        == sextet(b, i) by {
        assert(base64url(a)[i] == base64url_char(sextet(a, i)));
        assert(base64url(b)[i] == base64url_char(sextet(b, i)));
        lemma_sextet_range(a, i);
        lemma_sextet_range(b, i);
        lemma_base64url_char_injective(sextet(a, i), sextet(b, i));
    }
    assert forall|k: int| 0 <= k < a.len() implies a[k] == b[k] by {
        let q = k / 3;
        lemma_sextets(a, q);
        lemma_sextets(b, q);
        let n = (8 * a.len() + 5) as nat / 6;
        if k % 3 == 0 {
            assert(4 * q + 1 < n);
            assert(sextet(a, 4 * q) == sextet(b, 4 * q));
            assert(sextet(a, 4 * q + 1) == sextet(b, 4 * q + 1));
        } else if k % 3 == 1 {
            assert(4 * q + 2 < n);
            assert(sextet(a, 4 * q + 1) == sextet(b, 4 * q + 1));
            assert(sextet(a, 4 * q + 2) == sextet(b, 4 * q + 2));
        } else {
            assert(4 * q + 3 < n);
            assert(sextet(a, 4 * q + 2) == sextet(b, 4 * q + 2));
            assert(sextet(a, 4 * q + 3) == sextet(b, 4 * q + 3));
        }
    }
    assert(a =~= b);
}

/// What was written in base64url reads back as the same bytes.
pub proof fn base64url_reads_back(b: Seq<u8>)
    ensures
        base64url_bytes(base64url(b)) == Some(b),
{
    let c = choose|c: Seq<u8>| #[trigger] base64url(c) == base64url(b);
    base64url_injective(c, b);
}

/// A value within five bits is read back from its base32 character.
proof fn lemma_base32_char_injective(v: int, w: int)
    requires
        0 <= v < 32,
        0 <= w < 32,
        base32_char(v) == base32_char(w),
    ensures
        v == w,
{
    assert(base32_char(v) as u32 == base32_char(w) as u32);
}

/// How five bytes fall into eight groups of five bits.
proof fn lemma_split_in_quintets(b0: u32, b1: u32, b2: u32, b3: u32, b4: u32, b5: u32)
    requires
        b0 < 256,
        b1 < 256,
        b2 < 256,
        b3 < 256,
        b4 < 256,
        b5 < 256,
    ensures
        (b0 * 256 + b1) / 2048 % 32 == b0 / 8,
        (b0 * 256 + b1) / 64 % 32 == (b0 % 8) * 4 + b1 / 64,
        (b1 * 256 + b2) / 512 % 32 == b1 / 2 % 32,
        (b1 * 256 + b2) / 16 % 32 == (b1 % 2) * 16 + b2 / 16,
        (b2 * 256 + b3) / 128 % 32 == (b2 % 16) * 2 + b3 / 128,
        (b3 * 256 + b4) / 1024 % 32 == b3 / 4 % 32,
        (b3 * 256 + b4) / 32 % 32 == (b3 % 4) * 8 + b4 / 32,
        (b4 * 256 + b5) / 256 % 32 == b4 % 32,
{
    assert((b0 * 256 + b1) / 2048 % 32 == b0 / 8 && (b0 * 256 + b1) / 64 % 32 == (b0 % 8) * 4 + b1
        / 64 && (b1 * 256 + b2) / 512 % 32 == b1 / 2 % 32 && (b1 * 256 + b2) / 16 % 32 == (b1 % 2)
        * 16 + b2 / 16 && (b2 * 256 + b3) / 128 % 32 == (b2 % 16) * 2 + b3 / 128 && (b3 * 256 + b4)
        / 1024 % 32 == b3 / 4 % 32 && (b3 * 256 + b4) / 32 % 32 == (b3 % 4) * 8 + b4 / 32 && (b4
        * 256 + b5) / 256 % 32 == b4 % 32) by (bit_vector)
        requires
            b0 < 256,
            b1 < 256,
            b2 < 256,
            b3 < 256,
            b4 < 256,
            b5 < 256,
    ;
}

/// The five bit groups that hold the five bytes from byte `5 * q` on.
proof fn lemma_quintets(b: Seq<u8>, q: int)
    requires
        0 <= q,
    ensures
        quintet(b, 8 * q) == byte_or_zero(b, 5 * q) / 8,
        quintet(b, 8 * q + 1) == (byte_or_zero(b, 5 * q) % 8) * 4 + byte_or_zero(b, 5 * q + 1) / 64,
        quintet(b, 8 * q + 2) == byte_or_zero(b, 5 * q + 1) / 2 % 32,
        quintet(b, 8 * q + 3) == (byte_or_zero(b, 5 * q + 1) % 2) * 16 + byte_or_zero(b, 5 * q + 2)
            / 16,
        quintet(b, 8 * q + 4) == (byte_or_zero(b, 5 * q + 2) % 16) * 2 + byte_or_zero(b, 5 * q + 3)
            / 128,
        quintet(b, 8 * q + 5) == byte_or_zero(b, 5 * q + 3) / 4 % 32,
        quintet(b, 8 * q + 6) == (byte_or_zero(b, 5 * q + 3) % 4) * 8 + byte_or_zero(b, 5 * q + 4)
            / 32,
        quintet(b, 8 * q + 7) == byte_or_zero(b, 5 * q + 4) % 32,
{
    lemma_powers();
    let b0 = byte_or_zero(b, 5 * q);
    let b1 = byte_or_zero(b, 5 * q + 1);
    let b2 = byte_or_zero(b, 5 * q + 2);
    let b3 = byte_or_zero(b, 5 * q + 3);
    let b4 = byte_or_zero(b, 5 * q + 4);
    let b5 = byte_or_zero(b, 5 * q + 5);
    lemma_split_in_quintets(
        b0 as u32,
        b1 as u32,
        b2 as u32,
        b3 as u32,
        b4 as u32,
        b5 as u32,
    );
    assert((5 * (8 * q)) / 8 == 5 * q && (5 * (8 * q)) % 8 == 0);
    assert((5 * (8 * q + 1)) / 8 == 5 * q && (5 * (8 * q + 1)) % 8 == 5);
    assert((5 * (8 * q + 2)) / 8 == 5 * q + 1 && (5 * (8 * q + 2)) % 8 == 2);
    assert((5 * (8 * q + 3)) / 8 == 5 * q + 1 && (5 * (8 * q + 3)) % 8 == 7);
    assert((5 * (8 * q + 4)) / 8 == 5 * q + 2 && (5 * (8 * q + 4)) % 8 == 4);
    assert((5 * (8 * q + 5)) / 8 == 5 * q + 3 && (5 * (8 * q + 5)) % 8 == 1);
    assert((5 * (8 * q + 6)) / 8 == 5 * q + 3 && (5 * (8 * q + 6)) % 8 == 6);
    assert((5 * (8 * q + 7)) / 8 == 5 * q + 4 && (5 * (8 * q + 7)) % 8 == 3);
}

/// Two bytes are equal when the five bit groups that they fall into are, at
/// each of the five places that a byte can have.
proof fn lemma_byte_from_quintets(x0: u32, x: u32, x2: u32, y0: u32, y: u32, y2: u32)
    requires
        x0 < 256,
        x < 256,
        x2 < 256,
        y0 < 256,
        y < 256,
        y2 < 256,
    ensures
        x / 8 == y / 8 && (x % 8) * 4 + x2 / 64 == (y % 8) * 4 + y2 / 64 ==> x == y,
        (x0 % 8) * 4 + x / 64 == (y0 % 8) * 4 + y / 64 && x / 2 % 32 == y / 2 % 32 && (x % 2) * 16
            + x2 / 16 == (y % 2) * 16 + y2 / 16 ==> x == y,
        (x0 % 2) * 16 + x / 16 == (y0 % 2) * 16 + y / 16 && (x % 16) * 2 + x2 / 128 == (y % 16) * 2
            + y2 / 128 ==> x == y,
        (x0 % 16) * 2 + x / 128 == (y0 % 16) * 2 + y / 128 && x / 4 % 32 == y / 4 % 32 && (x % 4)
            * 8 + x2 / 32 == (y % 4) * 8 + y2 / 32 ==> x == y,
        (x0 % 4) * 8 + x / 32 == (y0 % 4) * 8 + y / 32 && x % 32 == y % 32 ==> x == y,
{
    assert((x / 8 == y / 8 && (x % 8) * 4 + x2 / 64 == (y % 8) * 4 + y2 / 64 ==> x == y) && ((x0
        % 8) * 4 + x / 64 == (y0 % 8) * 4 + y / 64 && x / 2 % 32 == y / 2 % 32 && (x % 2) * 16 + x2
        / 16 == (y % 2) * 16 + y2 / 16 ==> x == y) && ((x0 % 2) * 16 + x / 16 == (y0 % 2) * 16 + y
        / 16 && (x % 16) * 2 + x2 / 128 == (y % 16) * 2 + y2 / 128 ==> x == y) && ((x0 % 16) * 2 + x
        / 128 == (y0 % 16) * 2 + y / 128 && x / 4 % 32 == y / 4 % 32 && (x % 4) * 8 + x2 / 32 == (y
        % 4) * 8 + y2 / 32 ==> x == y) && ((x0 % 4) * 8 + x / 32 == (y0 % 4) * 8 + y / 32 && x % 32
        == y % 32 ==> x == y)) by (bit_vector)
        requires
            x0 < 256,
            x < 256,
            x2 < 256,
            y0 < 256,
            y < 256,
            y2 < 256,
    ;
}

/// Byte strings whose base32 forms are equally long are equally long.
proof fn lemma_base32_len(m: int, n: int)
    requires
        0 <= m,
        0 <= n,
        (8 * m + 4) / 5 == (8 * n + 4) / 5,
    ensures
        m == n,
{
}

/// The length of a base32 form, and the character of each group.
proof fn lemma_base32(b: Seq<u8>)
    ensures
        base32(b).len() == (8 * b.len() + 4) / 5,
        forall|i: int|
            0 <= i < (8 * b.len() + 4) / 5 ==> #[trigger] base32(b)[i] == base32_char(
                quintet(b, i),
            ),
        forall|i: int| 0 <= i ==> 0 <= #[trigger] quintet(b, i) < 32,
{
    lemma_powers();
}

/// Different bytes have different base32 forms.
#[verifier::rlimit(40)]
pub proof fn base32_injective(a: Seq<u8>, b: Seq<u8>)
    requires
        base32(a) == base32(b),
    ensures
        a == b,
{
    lemma_base32(a);
    lemma_base32(b);
    lemma_base32_len(a.len() as int, b.len() as int);
    let n = (8 * a.len() + 4) / 5;
    assert forall|i: int| 0 <= i < n implies #[trigger] quintet(a, i) == quintet(b, i) by {
        assert(base32(a)[i] == base32_char(quintet(a, i)));
        assert(base32(b)[i] == base32_char(quintet(b, i)));
        lemma_base32_char_injective(quintet(a, i), quintet(b, i));
    }
    assert forall|k: int| 0 <= k < a.len() implies a[k] == b[k] by {
        let q = k / 5;
        lemma_quintets(a, q);
        lemma_quintets(b, q);
        lemma_byte_from_quintets(
            byte_or_zero(a, k - 1) as u32,
            byte_or_zero(a, k) as u32,
            byte_or_zero(a, k + 1) as u32,
            byte_or_zero(b, k - 1) as u32,
            byte_or_zero(b, k) as u32,
            byte_or_zero(b, k + 1) as u32,
        );
        if k % 5 == 0 {
            assert(8 * q + 1 < n);
            assert(quintet(a, 8 * q) == quintet(b, 8 * q));
            assert(quintet(a, 8 * q + 1) == quintet(b, 8 * q + 1));
        } else if k % 5 == 1 {
            assert(8 * q + 3 < n);
            assert(quintet(a, 8 * q + 1) == quintet(b, 8 * q + 1));
            assert(quintet(a, 8 * q + 2) == quintet(b, 8 * q + 2));
            assert(quintet(a, 8 * q + 3) == quintet(b, 8 * q + 3));
        } else if k % 5 == 2 {
            assert(8 * q + 4 < n);
            assert(quintet(a, 8 * q + 3) == quintet(b, 8 * q + 3));
            assert(quintet(a, 8 * q + 4) == quintet(b, 8 * q + 4));
        } else if k % 5 == 3 {
            assert(8 * q + 6 < n);
            assert(quintet(a, 8 * q + 4) == quintet(b, 8 * q + 4));
            assert(quintet(a, 8 * q + 5) == quintet(b, 8 * q + 5));
            assert(quintet(a, 8 * q + 6) == quintet(b, 8 * q + 6));
        } else {
            assert(8 * q + 7 < n);
            assert(quintet(a, 8 * q + 6) == quintet(b, 8 * q + 6));
            assert(quintet(a, 8 * q + 7) == quintet(b, 8 * q + 7));
        }
    }
    assert(a =~= b);
}

/// What was written in base32 reads back as the same bytes, in small letters as
/// well as in capitals.
pub proof fn base32_reads_back(b: Seq<u8>)
    ensures
        base32_bytes(base32(b)) == Some(b),
        base32_bytes(text::ascii_lowercase(base32(b))) == Some(b),
{
    lemma_base32(b);
    let upper = base32(b);
    let lower = text::ascii_lowercase(upper);
    assert(text::ascii_uppercase(upper) =~= upper);
    assert(text::ascii_uppercase(lower) =~= upper) by {
        assert forall|i: int| 0 <= i < upper.len() implies text::ascii_uppercase(lower)[i]
            == upper[i] by {
            assert(upper[i] == base32_char(quintet(b, i)));
            assert(lower[i] == text::ascii_lower(upper[i]));
        }
    }
    let c = choose|c: Seq<u8>| #[trigger] base32(c) == upper;
    base32_injective(c, b);
}

/// The base64url alphabet holds no slash, no white space and nothing outside
/// ASCII.
pub(crate) proof fn lemma_base64url_alphabet(b: Seq<u8>)
    ensures
        forall|i: int|
            0 <= i < base64url(b).len() ==> {
                let c = #[trigger] base64url(b)[i];
                &&& c != '/'
                &&& (c as u32) < 128
            },
{
    assert forall|i: int| 0 <= i < base64url(b).len() implies {
        let c = #[trigger] base64url(b)[i];
        &&& c != '/'
        &&& (c as u32) < 128
    } by {
        lemma_sextet_range(b, i);
    }
}

/// Different bytes have different hexadecimal forms.
pub proof fn hex_injective(a: Seq<u8>, b: Seq<u8>)
    requires
        hex(a) == hex(b),
    ensures
        a == b,
{
    assert(hex(a).len() == 2 * a.len());
    assert(hex(b).len() == 2 * b.len());
    assert forall|k: int| 0 <= k < a.len() implies a[k] == b[k] by {
        assert(hex(a)[2 * k] == hex_char(a[k] as int / 16));
        assert(hex(b)[2 * k] == hex_char(b[k] as int / 16));
        assert(hex(a)[2 * k + 1] == hex_char(a[k] as int % 16));
        assert(hex(b)[2 * k + 1] == hex_char(b[k] as int % 16));
        assert(hex_char(a[k] as int / 16) as u32 == hex_char(b[k] as int / 16) as u32);
        assert(hex_char(a[k] as int % 16) as u32 == hex_char(b[k] as int % 16) as u32);
    }
    assert(a =~= b);
}

/// The base32 alphabet, in capitals or small, holds nothing but ASCII letters
/// and digits.
pub(crate) proof fn lemma_base32_alphabet(b: Seq<u8>)
    ensures
        base32(b).len() == (8 * b.len() + 4) / 5,
        forall|i: int|
            0 <= i < base32(b).len() ==> {
                let c = #[trigger] base32(b)[i];
                48 < c as u32 <= 90 && c != ':'
            },
        forall|i: int|
            0 <= i < base32(b).len() ==> {
                let c = #[trigger] text::ascii_lowercase(base32(b))[i];
                48 < c as u32 <= 122 && c != ':'
            },
{
    lemma_base32(b);
    assert forall|i: int| 0 <= i < base32(b).len() implies {
        let c = #[trigger] base32(b)[i];
        48 < c as u32 <= 90 && c != ':'
    } by {
        assert(0 <= quintet(b, i) < 32);
        assert(base32(b)[i] == base32_char(quintet(b, i)));
    }
}

/// Each byte is two hexadecimal digits, the more significant one first, and letters are
/// small.
pub proof fn a_byte_is_two_digits(b: Seq<u8>, i: int)
    requires
        0 <= i < b.len(),
    ensures
        hex(b).len() == 2 * b.len(),
        ({
            let value = |c: char|
                if '0' <= c <= '9' {
                    c as u32 - 48
                } else {
                    c as u32 - 87
                };
            &&& '0' <= hex(b)[2 * i] <= '9' || 'a' <= hex(b)[2 * i] <= 'f'
            &&& '0' <= hex(b)[2 * i + 1] <= '9' || 'a' <= hex(b)[2 * i + 1] <= 'f'
            &&& 16 * value(hex(b)[2 * i]) + value(hex(b)[2 * i + 1]) == b[i]
        }),
{
    let (high, low) = (b[i] as int / 16, b[i] as int % 16);
    assert((2 * i) % 2 == 0 && (2 * i) / 2 == i);
    assert((2 * i + 1) % 2 == 1 && (2 * i + 1) / 2 == i);
    assert(0 <= high < 16 && 0 <= low < 16);
    assert(hex(b)[2 * i] == hex_char(high));
    assert(hex(b)[2 * i + 1] == hex_char(low));
}

} // verus!
