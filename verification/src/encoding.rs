//! The identifier builder: structural bit stamps on a 16-byte buffer and
//! its URL-safe, unpadded base64 encoding.
//!
//! `encode_spec` is the mathematical statement of the encoding: character
//! `k` of the output is the URL-safe base64 symbol for the 6-bit group
//! `six_bits(b, k)` of the 128-bit input, the final group padded with four
//! zero bits.  The executable encoding is `base64::encode_config`, trusted
//! to agree with `encode_spec`.

use vstd::prelude::*;

verus! {

/// The URL-safe base64 alphabet: value `v` (0..64) encodes as character
/// `slug_alphabet()[v]`.
pub open spec fn slug_alphabet() -> Seq<char> {
    "ABCDEFGHIJKLMNOPQRSTUVWXYZabcdefghijklmnopqrstuvwxyz0123456789-_"@
}

/// The `k`-th 6-bit group of `b` read as a 128-bit string, most
/// significant bit first; bits past the end of `b` are zero.  Group `k`
/// starts at bit `6k`, i.e. at offset `6k % 8` within byte `6k / 8`.
pub open spec fn six_bits(b: Seq<u8>, k: int) -> u8 {
    let hi: u8 = b[6 * k / 8];
    let lo: u8 = if 6 * k / 8 + 1 < b.len() {
        b[6 * k / 8 + 1]
    } else {
        0u8
    };
    if k % 4 == 0 {
        hi >> 2u8
    } else if k % 4 == 1 {
        ((hi & 0x03u8) << 4u8) | (lo >> 4u8)
    } else if k % 4 == 2 {
        ((hi & 0x0fu8) << 2u8) | (lo >> 6u8)
    } else {
        hi & 0x3fu8
    }
}

/// URL-safe base64 without padding of a 16-byte buffer: 22 characters,
/// character `k` encoding the `k`-th 6-bit group.
pub open spec fn encode_spec(b: Seq<u8>) -> Seq<char> {
    Seq::new(22, |k: int| slug_alphabet()[six_bits(b, k) as int])
}

/// The RFC 4122 stamps: byte 8's two most significant bits become `10`
/// (the variant marker), byte 6's four most significant bits become
/// `0100` (the version-4 marker).
pub open spec fn apply_v4_spec(b: Seq<u8>) -> Seq<u8> {
    b.update(8, (b[8] & 0x3fu8) | 0x80u8).update(6, (b[6] & 0x0fu8) | 0x40u8)
}

/// The "nice" stamps: the RFC 4122 stamps, then byte 0's most
/// significant bit cleared, which constrains the leading character.
pub open spec fn apply_nice_spec(b: Seq<u8>) -> Seq<u8> {
    let v = apply_v4_spec(b);
    v.update(0, v[0] & 0x7fu8)
}

/// The characters the version marker allows at index 8.
pub open spec fn is_version_char(c: char) -> bool {
    c == 'Q' || c == 'R' || c == 'S' || c == 'T'
}

/// The characters the variant marker allows at index 10.
pub open spec fn is_variant_char(c: char) -> bool {
    c == 'C' || c == 'G' || c == 'K' || c == 'O' || c == 'S' || c == 'W'
        || c == 'a' || c == 'e' || c == 'i' || c == 'm' || c == 'q' || c == 'u'
        || c == 'y' || c == '2' || c == '6' || c == '-'
}

/// The characters byte alignment allows at index 21: the final 6-bit
/// group holds only 2 meaningful bits, the rest are zero padding.
pub open spec fn is_trailing_char(c: char) -> bool {
    c == 'A' || c == 'Q' || c == 'g' || c == 'w'
}

/// The characters a "nice" identifier may start with: the 32 symbols
/// whose 6-bit value has its top bit zero, i.e. `A`-`Z` and `a`-`f`.
pub open spec fn is_nice_leading_char(c: char) -> bool {
    c == 'A' || c == 'B' || c == 'C' || c == 'D' || c == 'E' || c == 'F'
        || c == 'G' || c == 'H' || c == 'I' || c == 'J' || c == 'K' || c == 'L'
        || c == 'M' || c == 'N' || c == 'O' || c == 'P' || c == 'Q' || c == 'R'
        || c == 'S' || c == 'T' || c == 'U' || c == 'V' || c == 'W' || c == 'X'
        || c == 'Y' || c == 'Z' || c == 'a' || c == 'b' || c == 'c' || c == 'd'
        || c == 'e' || c == 'f'
}

/// The character constraints every stamped identifier meets: length
/// exactly 22, every character from the URL-safe alphabet, the version
/// characters at index 8, the variant characters at index 10, and the
/// byte-alignment characters at index 21.
pub open spec fn has_v4_shape(s: Seq<char>) -> bool {
    s.len() == 22
        && (forall|i: int| 0 <= i < 22 ==> slug_alphabet().contains(#[trigger] s[i]))
        && is_version_char(s[8])
        && is_variant_char(s[10])
        && is_trailing_char(s[21])
}

/// The character constraints of the "nice" mode: everything of
/// `has_v4_shape`, and a leading character in `A`-`Z`, `a`-`f`.
pub open spec fn has_nice_shape(s: Seq<char>) -> bool {
    has_v4_shape(s) && is_nice_leading_char(s[0])
}

/// Stamp the RFC 4122 version/variant marker bits onto a 16-byte buffer.
pub fn stamp_v4(bytes: &mut Vec<u8>)
    requires
        old(bytes)@.len() == 16,
    ensures
        final(bytes)@ == apply_v4_spec(old(bytes)@),
{
    let b8 = bytes[8];
    bytes.set(8, (b8 & 0x3f) | 0x80);
    let b6 = bytes[6];
    bytes.set(6, (b6 & 0x0f) | 0x40);
    proof {
        assert(bytes@ =~= apply_v4_spec(old(bytes)@));
    }
}

/// Clear the most significant bit of byte 0, the "niceness" stamp.
pub fn stamp_nice(bytes: &mut Vec<u8>)
    requires
        old(bytes)@.len() == 16,
    ensures
        final(bytes)@ == old(bytes)@.update(0, (old(bytes)@[0] & 0x7fu8)),
{
    let b0 = bytes[0];
    bytes.set(0, b0 & 0x7f);
}

/// Relies on `base64::encode_config` with `base64::URL_SAFE_NO_PAD`:
/// RFC 4648 base64 over the URL-safe alphabet (`-` and `_` for values 62
/// and 63) with no `=` padding, so a 16-byte input encodes to exactly the
/// 22 characters that `encode_spec` states.
#[verifier::external_body]
pub(crate) fn base64_url_no_pad_16(bytes: &Vec<u8>) -> (r: String)
    requires
        bytes@.len() == 16,
    ensures
        r@ == encode_spec(bytes@),
{
    base64::encode_config(bytes.as_slice(), base64::URL_SAFE_NO_PAD)
}

/// Every 6-bit group is a valid index into the 64-symbol alphabet.
proof fn lemma_six_bits_bound(b: Seq<u8>, k: int)
    requires
        b.len() == 16,
        0 <= k < 22,
    ensures
        six_bits(b, k) < 64,
{
    let hi: u8 = b[6 * k / 8];
    let lo: u8 = if 6 * k / 8 + 1 < b.len() {
        b[6 * k / 8 + 1]
    } else {
        0u8
    };
    if k % 4 == 0 {
        assert(hi >> 2u8 < 64) by (bit_vector);
    } else if k % 4 == 1 {
        assert(((hi & 0x03u8) << 4u8) | (lo >> 4u8) < 64) by (bit_vector);
    } else if k % 4 == 2 {
        assert(((hi & 0x0fu8) << 2u8) | (lo >> 6u8) < 64) by (bit_vector);
    } else {
        assert(hi & 0x3fu8 < 64) by (bit_vector);
    }
}

/// The character constraints follow from the marker bits alone: any
/// 16-byte buffer whose byte 6 starts with bits `0100` and whose byte 8
/// starts with bits `10` encodes to a 22-character string over the
/// URL-safe alphabet with the version, variant and trailing characters in
/// their fixed places.
proof fn lemma_stamped_encoding_shape(b: Seq<u8>)
    requires
        b.len() == 16,
        b[6] & 0xf0u8 == 0x40u8,
        b[8] & 0xc0u8 == 0x80u8,
    ensures
        has_v4_shape(encode_spec(b)),
{
    reveal_strlit("ABCDEFGHIJKLMNOPQRSTUVWXYZabcdefghijklmnopqrstuvwxyz0123456789-_");
    let s = encode_spec(b);
    assert(slug_alphabet().len() == 64);
    assert forall|i: int| 0 <= i < 22 implies slug_alphabet().contains(s[i]) by {
        lemma_six_bits_bound(b, i);
        let v = six_bits(b, i) as int;
        assert(s[i] == slug_alphabet()[v]);
        assert(slug_alphabet().contains(slug_alphabet()[v]));
    }
    let h6 = b[6];
    let v8 = six_bits(b, 8);
    assert(v8 == h6 >> 2u8);
    assert(v8 == 16 || v8 == 17 || v8 == 18 || v8 == 19) by (bit_vector)
        requires
            v8 == h6 >> 2u8,
            h6 & 0xf0u8 == 0x40u8,
    ;
    assert(s[8] == slug_alphabet()[v8 as int]);
    assert(is_version_char(s[8]));
    let h7 = b[7];
    let h8 = b[8];
    let v10 = six_bits(b, 10);
    assert(v10 == ((h7 & 0x0fu8) << 2u8) | (h8 >> 6u8));
    assert(v10 == 2 || v10 == 6 || v10 == 10 || v10 == 14 || v10 == 18 || v10 == 22 || v10 == 26
        || v10 == 30 || v10 == 34 || v10 == 38 || v10 == 42 || v10 == 46 || v10 == 50 || v10 == 54
        || v10 == 58 || v10 == 62) by (bit_vector)
        requires
            v10 == ((h7 & 0x0fu8) << 2u8) | (h8 >> 6u8),
            h8 & 0xc0u8 == 0x80u8,
    ;
    assert(s[10] == slug_alphabet()[v10 as int]);
    assert(is_variant_char(s[10]));
    let h15 = b[15];
    let v21 = six_bits(b, 21);
    assert(v21 == ((h15 & 0x03u8) << 4u8) | (0u8 >> 4u8));
    assert(v21 == 0 || v21 == 16 || v21 == 32 || v21 == 48) by (bit_vector)
        requires
            v21 == ((h15 & 0x03u8) << 4u8) | (0u8 >> 4u8),
    ;
    assert(s[21] == slug_alphabet()[v21 as int]);
    assert(is_trailing_char(s[21]));
}

/// Law: the encoding of any RFC 4122-stamped 16-byte buffer has length
/// 22, draws every character from the URL-safe alphabet, and carries the
/// fixed version, variant and trailing characters at indices 8, 10
/// and 21.
pub proof fn lemma_v4_encoding_shape(b: Seq<u8>)
    requires
        b.len() == 16,
    ensures
        has_v4_shape(encode_spec(apply_v4_spec(b))),
{
    let f = apply_v4_spec(b);
    let x = b[6];
    let y = b[8];
    assert(f[6] == (x & 0x0fu8) | 0x40u8);
    assert(f[8] == (y & 0x3fu8) | 0x80u8);
    assert(((x & 0x0fu8) | 0x40u8) & 0xf0u8 == 0x40u8) by (bit_vector);
    assert(((y & 0x3fu8) | 0x80u8) & 0xc0u8 == 0x80u8) by (bit_vector);
    lemma_stamped_encoding_shape(f);
}

/// Law: the encoding of any nice-stamped 16-byte buffer meets every
/// constraint of the random mode, and its leading character lies in
/// `A`-`Z`, `a`-`f`.
pub proof fn lemma_nice_encoding_shape(b: Seq<u8>)
    requires
        b.len() == 16,
    ensures
        has_nice_shape(encode_spec(apply_nice_spec(b))),
{
    let f = apply_nice_spec(b);
    let x = b[6];
    let y = b[8];
    assert(f[6] == (x & 0x0fu8) | 0x40u8);
    assert(f[8] == (y & 0x3fu8) | 0x80u8);
    assert(((x & 0x0fu8) | 0x40u8) & 0xf0u8 == 0x40u8) by (bit_vector);
    assert(((y & 0x3fu8) | 0x80u8) & 0xc0u8 == 0x80u8) by (bit_vector);
    lemma_stamped_encoding_shape(f);
    reveal_strlit("ABCDEFGHIJKLMNOPQRSTUVWXYZabcdefghijklmnopqrstuvwxyz0123456789-_");
    let z = b[0];
    assert(f[0] == z & 0x7fu8);
    let v0 = six_bits(f, 0);
    assert(v0 == f[0] >> 2u8);
    assert(v0 < 32) by (bit_vector)
        requires
            v0 == (z & 0x7fu8) >> 2u8,
    ;
    assert(v0 == 0 || v0 == 1 || v0 == 2 || v0 == 3 || v0 == 4 || v0 == 5 || v0 == 6 || v0 == 7
        || v0 == 8 || v0 == 9 || v0 == 10 || v0 == 11 || v0 == 12 || v0 == 13 || v0 == 14
        || v0 == 15 || v0 == 16 || v0 == 17 || v0 == 18 || v0 == 19 || v0 == 20 || v0 == 21
        || v0 == 22 || v0 == 23 || v0 == 24 || v0 == 25 || v0 == 26 || v0 == 27 || v0 == 28
        || v0 == 29 || v0 == 30 || v0 == 31);
    assert(encode_spec(f)[0] == slug_alphabet()[v0 as int]);
    assert(is_nice_leading_char(encode_spec(f)[0]));
}

/// Law: the two modes differ only in the stamp applied to byte 0 — the
/// nice stamps leave every other byte exactly as the RFC 4122 stamps do,
/// and byte 0 keeps its low seven bits.
pub proof fn lemma_modes_differ_only_in_byte0(b: Seq<u8>)
    requires
        b.len() == 16,
    ensures
        apply_v4_spec(b).len() == 16,
        apply_nice_spec(b).len() == 16,
        apply_nice_spec(b)[0] == apply_v4_spec(b)[0] & 0x7fu8,
        forall|i: int| 1 <= i < 16 ==> apply_nice_spec(b)[i] == apply_v4_spec(b)[i],
{
}

/// Law: the identifiers of the two modes for the same 16 input bytes
/// agree at every character but the leading one — only character 0
/// encodes the bit the niceness stamp clears.
pub proof fn lemma_modes_agree_past_leading_char(b: Seq<u8>)
    requires
        b.len() == 16,
    ensures
        forall|i: int| 1 <= i < 22 ==> encode_spec(apply_nice_spec(b))[i] == encode_spec(
            apply_v4_spec(b),
        )[i],
{
    let s1 = apply_v4_spec(b);
    let s2 = apply_nice_spec(b);
    assert(s2 == s1.update(0, s1[0] & 0x7fu8));
    assert forall|i: int| 1 <= i < 22 implies encode_spec(s2)[i] == encode_spec(s1)[i] by {
        if i == 1 {
            let hi = s1[0];
            let lo = s1[1];
            assert(six_bits(s1, 1) == ((hi & 0x03u8) << 4u8) | (lo >> 4u8));
            assert(six_bits(s2, 1) == (((hi & 0x7fu8) & 0x03u8) << 4u8) | (lo >> 4u8));
            assert((((hi & 0x7fu8) & 0x03u8) << 4u8) | (lo >> 4u8) == ((hi & 0x03u8) << 4u8) | (lo
                >> 4u8)) by (bit_vector);
        } else {
            assert(6 * i / 8 >= 1);
            assert(six_bits(s2, i) == six_bits(s1, i));
        }
    }
}

/// Within one 4-character block, the 6-bit groups determine the three
/// bytes they encode.
proof fn lemma_block_bytes_from_groups(a0: u8, a1: u8, a2: u8, b0: u8, b1: u8, b2: u8)
    by (bit_vector)
    requires
        a0 >> 2u8 == b0 >> 2u8,
        ((a0 & 0x03u8) << 4u8) | (a1 >> 4u8) == ((b0 & 0x03u8) << 4u8) | (b1 >> 4u8),
        ((a1 & 0x0fu8) << 2u8) | (a2 >> 6u8) == ((b1 & 0x0fu8) << 2u8) | (b2 >> 6u8),
        a2 & 0x3fu8 == b2 & 0x3fu8,
    ensures
        a0 == b0,
        a1 == b1,
        a2 == b2,
{
}

/// The 22 six-bit groups of a 16-byte buffer determine the buffer.
proof fn lemma_groups_determine_bytes(a: Seq<u8>, b: Seq<u8>)
    requires
        a.len() == 16,
        b.len() == 16,
        forall|k: int| 0 <= k < 22 ==> six_bits(a, k) == six_bits(b, k),
    ensures
        a == b,
{
    assert(six_bits(a, 0) == a[0] >> 2u8);
    assert(six_bits(a, 1) == ((a[0] & 0x03u8) << 4u8) | (a[1] >> 4u8));
    assert(six_bits(a, 2) == ((a[1] & 0x0fu8) << 2u8) | (a[2] >> 6u8));
    assert(six_bits(a, 3) == a[2] & 0x3fu8);
    assert(six_bits(b, 0) == b[0] >> 2u8);
    assert(six_bits(b, 1) == ((b[0] & 0x03u8) << 4u8) | (b[1] >> 4u8));
    assert(six_bits(b, 2) == ((b[1] & 0x0fu8) << 2u8) | (b[2] >> 6u8));
    assert(six_bits(b, 3) == b[2] & 0x3fu8);
    lemma_block_bytes_from_groups(a[0], a[1], a[2], b[0], b[1], b[2]);
    assert(six_bits(a, 4) == a[3] >> 2u8);
    assert(six_bits(a, 5) == ((a[3] & 0x03u8) << 4u8) | (a[4] >> 4u8));
    assert(six_bits(a, 6) == ((a[4] & 0x0fu8) << 2u8) | (a[5] >> 6u8));
    assert(six_bits(a, 7) == a[5] & 0x3fu8);
    assert(six_bits(b, 4) == b[3] >> 2u8);
    assert(six_bits(b, 5) == ((b[3] & 0x03u8) << 4u8) | (b[4] >> 4u8));
    assert(six_bits(b, 6) == ((b[4] & 0x0fu8) << 2u8) | (b[5] >> 6u8));
    assert(six_bits(b, 7) == b[5] & 0x3fu8);
    lemma_block_bytes_from_groups(a[3], a[4], a[5], b[3], b[4], b[5]);
    assert(six_bits(a, 8) == a[6] >> 2u8);
    assert(six_bits(a, 9) == ((a[6] & 0x03u8) << 4u8) | (a[7] >> 4u8));
    assert(six_bits(a, 10) == ((a[7] & 0x0fu8) << 2u8) | (a[8] >> 6u8));
    assert(six_bits(a, 11) == a[8] & 0x3fu8);
    assert(six_bits(b, 8) == b[6] >> 2u8);
    assert(six_bits(b, 9) == ((b[6] & 0x03u8) << 4u8) | (b[7] >> 4u8));
    assert(six_bits(b, 10) == ((b[7] & 0x0fu8) << 2u8) | (b[8] >> 6u8));
    assert(six_bits(b, 11) == b[8] & 0x3fu8);
    lemma_block_bytes_from_groups(a[6], a[7], a[8], b[6], b[7], b[8]);
    assert(six_bits(a, 12) == a[9] >> 2u8);
    assert(six_bits(a, 13) == ((a[9] & 0x03u8) << 4u8) | (a[10] >> 4u8));
    assert(six_bits(a, 14) == ((a[10] & 0x0fu8) << 2u8) | (a[11] >> 6u8));
    assert(six_bits(a, 15) == a[11] & 0x3fu8);
    assert(six_bits(b, 12) == b[9] >> 2u8);
    assert(six_bits(b, 13) == ((b[9] & 0x03u8) << 4u8) | (b[10] >> 4u8));
    assert(six_bits(b, 14) == ((b[10] & 0x0fu8) << 2u8) | (b[11] >> 6u8));
    assert(six_bits(b, 15) == b[11] & 0x3fu8);
    lemma_block_bytes_from_groups(a[9], a[10], a[11], b[9], b[10], b[11]);
    assert(six_bits(a, 16) == a[12] >> 2u8);
    assert(six_bits(a, 17) == ((a[12] & 0x03u8) << 4u8) | (a[13] >> 4u8));
    assert(six_bits(a, 18) == ((a[13] & 0x0fu8) << 2u8) | (a[14] >> 6u8));
    assert(six_bits(a, 19) == a[14] & 0x3fu8);
    assert(six_bits(b, 16) == b[12] >> 2u8);
    assert(six_bits(b, 17) == ((b[12] & 0x03u8) << 4u8) | (b[13] >> 4u8));
    assert(six_bits(b, 18) == ((b[13] & 0x0fu8) << 2u8) | (b[14] >> 6u8));
    assert(six_bits(b, 19) == b[14] & 0x3fu8);
    lemma_block_bytes_from_groups(a[12], a[13], a[14], b[12], b[13], b[14]);
    let a15 = a[15];
    let b15 = b[15];
    assert(six_bits(a, 20) == a15 >> 2u8);
    assert(six_bits(a, 21) == ((a15 & 0x03u8) << 4u8) | (0u8 >> 4u8));
    assert(six_bits(b, 20) == b15 >> 2u8);
    assert(six_bits(b, 21) == ((b15 & 0x03u8) << 4u8) | (0u8 >> 4u8));
    assert(a15 == b15) by (bit_vector)
        requires
            a15 >> 2u8 == b15 >> 2u8,
            ((a15 & 0x03u8) << 4u8) | (0u8 >> 4u8) == ((b15 & 0x03u8) << 4u8) | (0u8 >> 4u8),
    ;
    assert(a =~= b);
}

/// No two values share an alphabet symbol.
proof fn lemma_alphabet_distinct(u: int, w: int)
    requires
        0 <= u < 64,
        0 <= w < 64,
        slug_alphabet()[u] == slug_alphabet()[w],
    ensures
        u == w,
{
    reveal_strlit("ABCDEFGHIJKLMNOPQRSTUVWXYZabcdefghijklmnopqrstuvwxyz0123456789-_");
    assert(u == 0 || u == 1 || u == 2 || u == 3 || u == 4 || u == 5 || u == 6 || u == 7 || u == 8
        || u == 9 || u == 10 || u == 11 || u == 12 || u == 13 || u == 14 || u == 15 || u == 16
        || u == 17 || u == 18 || u == 19 || u == 20 || u == 21 || u == 22 || u == 23 || u == 24
        || u == 25 || u == 26 || u == 27 || u == 28 || u == 29 || u == 30 || u == 31 || u == 32
        || u == 33 || u == 34 || u == 35 || u == 36 || u == 37 || u == 38 || u == 39 || u == 40
        || u == 41 || u == 42 || u == 43 || u == 44 || u == 45 || u == 46 || u == 47 || u == 48
        || u == 49 || u == 50 || u == 51 || u == 52 || u == 53 || u == 54 || u == 55 || u == 56
        || u == 57 || u == 58 || u == 59 || u == 60 || u == 61 || u == 62 || u == 63);
    assert(w == 0 || w == 1 || w == 2 || w == 3 || w == 4 || w == 5 || w == 6 || w == 7 || w == 8
        || w == 9 || w == 10 || w == 11 || w == 12 || w == 13 || w == 14 || w == 15 || w == 16
        || w == 17 || w == 18 || w == 19 || w == 20 || w == 21 || w == 22 || w == 23 || w == 24
        || w == 25 || w == 26 || w == 27 || w == 28 || w == 29 || w == 30 || w == 31 || w == 32
        || w == 33 || w == 34 || w == 35 || w == 36 || w == 37 || w == 38 || w == 39 || w == 40
        || w == 41 || w == 42 || w == 43 || w == 44 || w == 45 || w == 46 || w == 47 || w == 48
        || w == 49 || w == 50 || w == 51 || w == 52 || w == 53 || w == 54 || w == 55 || w == 56
        || w == 57 || w == 58 || w == 59 || w == 60 || w == 61 || w == 62 || w == 63);
}

/// Law: the encoding is injective on 16-byte buffers — together with its
/// totality, a bijection between buffers and their identifiers.  Two
/// buffers with the same identifier are the same buffer.
pub proof fn lemma_encoding_injective(a: Seq<u8>, b: Seq<u8>)
    requires
        a.len() == 16,
        b.len() == 16,
        encode_spec(a) == encode_spec(b),
    ensures
        a == b,
{
    assert forall|k: int| 0 <= k < 22 implies six_bits(a, k) == six_bits(b, k) by {
        lemma_six_bits_bound(a, k);
        lemma_six_bits_bound(b, k);
        assert(encode_spec(a)[k] == slug_alphabet()[six_bits(a, k) as int]);
        assert(encode_spec(b)[k] == slug_alphabet()[six_bits(b, k) as int]);
        assert(encode_spec(a)[k] == encode_spec(b)[k]);
        lemma_alphabet_distinct(six_bits(a, k) as int, six_bits(b, k) as int);
    }
    lemma_groups_determine_bytes(a, b);
}

/// Any 6-bit value can appear in any unconstrained group: for every
/// group index `i` other than 8, 10 and 21 and every value `v`, some
/// 16-byte buffer reads exactly `v` at group `i` after the RFC 4122
/// stamps.
pub(crate) proof fn lemma_v4_group_attains(i: int, v: u8)
    requires
        0 <= i < 22,
        i != 8,
        i != 10,
        i != 21,
        v < 64,
    ensures
        exists|b: Seq<u8>| b.len() == 16 && six_bits(apply_v4_spec(b), i) == v,
{
    let base = Seq::new(16, |j: int| 0u8);
    let p = 6 * i / 8;
    if i % 4 == 0 {
        assert(i == 0 || i == 4 || i == 12 || i == 16 || i == 20);
        let b = base.update(p, (v << 2u8));
        let f = apply_v4_spec(b);
        assert(f[p] == (v << 2u8));
        assert(six_bits(f, i) == f[p] >> 2u8);
        assert((v << 2u8) >> 2u8 == v) by (bit_vector)
            requires
                v < 64,
        ;
        assert(b.len() == 16 && six_bits(apply_v4_spec(b), i) == v);
    } else if i % 4 == 1 {
        assert(i == 1 || i == 5 || i == 9 || i == 13 || i == 17);
        let b = base.update(p, v >> 4u8).update(p + 1, ((v & 0x0fu8) << 4u8));
        let f = apply_v4_spec(b);
        assert(f[p + 1] == ((v & 0x0fu8) << 4u8));
        if i == 9 {
            assert(f[6] == ((v >> 4u8) & 0x0fu8) | 0x40u8);
            assert(six_bits(f, i) == ((f[6] & 0x03u8) << 4u8) | (f[7] >> 4u8));
            assert(((((((v >> 4u8) & 0x0fu8) | 0x40u8)) & 0x03u8) << 4u8) | (((v & 0x0fu8) << 4u8)
                >> 4u8) == v) by (bit_vector)
                requires
                    v < 64,
            ;
        } else {
            assert(f[p] == v >> 4u8);
            assert(six_bits(f, i) == ((f[p] & 0x03u8) << 4u8) | (f[p + 1] >> 4u8));
            assert((((v >> 4u8) & 0x03u8) << 4u8) | (((v & 0x0fu8) << 4u8) >> 4u8) == v) by (bit_vector)
                requires
                    v < 64,
            ;
        }
        assert(b.len() == 16 && six_bits(apply_v4_spec(b), i) == v);
    } else if i % 4 == 2 {
        assert(i == 2 || i == 6 || i == 14 || i == 18);
        let b = base.update(p, v >> 2u8).update(p + 1, ((v & 0x03u8) << 6u8));
        let f = apply_v4_spec(b);
        assert(f[p] == v >> 2u8);
        assert(f[p + 1] == ((v & 0x03u8) << 6u8));
        assert(six_bits(f, i) == ((f[p] & 0x0fu8) << 2u8) | (f[p + 1] >> 6u8));
        assert((((v >> 2u8) & 0x0fu8) << 2u8) | (((v & 0x03u8) << 6u8) >> 6u8) == v) by (bit_vector)
            requires
                v < 64,
        ;
        assert(b.len() == 16 && six_bits(apply_v4_spec(b), i) == v);
    } else {
        assert(i == 3 || i == 7 || i == 11 || i == 15 || i == 19);
        let b = base.update(p, v);
        let f = apply_v4_spec(b);
        if i == 11 {
            assert(f[8] == (v & 0x3fu8) | 0x80u8);
            assert(six_bits(f, i) == f[8] & 0x3fu8);
            assert(((v & 0x3fu8) | 0x80u8) & 0x3fu8 == v) by (bit_vector)
                requires
                    v < 64,
            ;
        } else {
            assert(f[p] == v);
            assert(six_bits(f, i) == f[p] & 0x3fu8);
            assert(v & 0x3fu8 == v) by (bit_vector)
                requires
                    v < 64,
            ;
        }
        assert(b.len() == 16 && six_bits(apply_v4_spec(b), i) == v);
    }
}

/// As `lemma_v4_group_attains`, for the nice stamps, at every group the
/// niceness bit does not reach.
pub(crate) proof fn lemma_nice_group_attains(i: int, v: u8)
    requires
        1 <= i < 22,
        i != 8,
        i != 10,
        i != 21,
        v < 64,
    ensures
        exists|b: Seq<u8>| b.len() == 16 && six_bits(apply_nice_spec(b), i) == v,
{
    lemma_v4_group_attains(i, v);
    let b = choose|b: Seq<u8>| b.len() == 16 && six_bits(apply_v4_spec(b), i) == v;
    let f1 = apply_v4_spec(b);
    let f2 = apply_nice_spec(b);
    assert(f2 == f1.update(0, f1[0] & 0x7fu8));
    if i == 1 {
        let hi = f1[0];
        let lo = f1[1];
        assert(six_bits(f1, 1) == ((hi & 0x03u8) << 4u8) | (lo >> 4u8));
        assert(six_bits(f2, 1) == (((hi & 0x7fu8) & 0x03u8) << 4u8) | (lo >> 4u8));
        assert((((hi & 0x7fu8) & 0x03u8) << 4u8) | (lo >> 4u8) == ((hi & 0x03u8) << 4u8) | (lo
            >> 4u8)) by (bit_vector);
    } else {
        assert(6 * i / 8 >= 1);
        assert(six_bits(f2, i) == six_bits(f1, i));
    }
    assert(b.len() == 16 && six_bits(apply_nice_spec(b), i) == v);
}

/// Any 5-bit value can appear in the leading group of a nice-stamped
/// buffer.
pub(crate) proof fn lemma_nice_leading_group_attains(v: u8)
    requires
        v < 32,
    ensures
        exists|b: Seq<u8>| b.len() == 16 && six_bits(apply_nice_spec(b), 0) == v,
{
    let base = Seq::new(16, |j: int| 0u8);
    let b = base.update(0, (v << 2u8));
    let f = apply_nice_spec(b);
    assert(f[0] == ((v << 2u8) & 0x7fu8));
    assert(six_bits(f, 0) == f[0] >> 2u8);
    assert(((v << 2u8) & 0x7fu8) >> 2u8 == v) by (bit_vector)
        requires
            v < 32,
    ;
    assert(b.len() == 16 && six_bits(apply_nice_spec(b), 0) == v);
}

} // verus!

