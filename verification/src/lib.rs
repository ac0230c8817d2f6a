//! Slugids: fixed-length (22 characters), URL-safe random identifiers.
//!
//! A slugid is the URL-safe, unpadded base64 encoding of 16 random bytes
//! stamped with the RFC 4122 version-4/variant marker bits.  The "nice"
//! mode additionally clears the top bit of the first byte so that the
//! identifier never starts with `-`, `_`, a digit, or a letter past `f`.

use vstd::prelude::*;

pub mod encoding;
pub mod random;

verus! {

use crate::encoding::{apply_v4_spec, apply_nice_spec, encode_spec, has_v4_shape, has_nice_shape};
use crate::random::{RandomSource, RandomnessFailure, SystemRandomSource};

/// A 22-character identifier obtained by stamping some 16 random bytes
/// with the RFC 4122 markers and base64-encoding them.
pub open spec fn is_v4_slugid(s: Seq<char>) -> bool {
    exists|b: Seq<u8>| b.len() == 16 && s == encode_spec(apply_v4_spec(b))
}

/// A 22-character identifier obtained by stamping some 16 random bytes
/// with the RFC 4122 markers and the niceness stamp, then base64-encoding
/// them.
pub open spec fn is_nice_slugid(s: Seq<char>) -> bool {
    exists|b: Seq<u8>| b.len() == 16 && s == encode_spec(apply_nice_spec(b))
}

/// Build a slugid from 16 already-random bytes: stamp the RFC 4122
/// version/variant bits, then encode.
pub fn v4_from_bytes(bytes: Vec<u8>) -> (s: String)
    requires
        bytes@.len() == 16,
    ensures
        s@ == encode_spec(apply_v4_spec(bytes@)),
        is_v4_slugid(s@),
        has_v4_shape(s@),
{
    proof {
        crate::encoding::lemma_v4_encoding_shape(bytes@);
    }
    let mut b = bytes;
    crate::encoding::stamp_v4(&mut b);
    crate::encoding::base64_url_no_pad_16(&b)
}

/// Build a "nice" slugid from 16 already-random bytes: stamp the RFC 4122
/// version/variant bits and the niceness bit, then encode.
pub fn nice_from_bytes(bytes: Vec<u8>) -> (s: String)
    requires
        bytes@.len() == 16,
    ensures
        s@ == encode_spec(apply_nice_spec(bytes@)),
        is_nice_slugid(s@),
        has_nice_shape(s@),
{
    proof {
        crate::encoding::lemma_nice_encoding_shape(bytes@);
    }
    let mut b = bytes;
    crate::encoding::stamp_v4(&mut b);
    crate::encoding::stamp_nice(&mut b);
    crate::encoding::base64_url_no_pad_16(&b)
}

/// Like `v4`, but drawing the 16 random bytes from a caller-supplied
/// source.  Returns an identifier exactly when the source filled the
/// buffer; a source failure is surfaced, never masked.
pub fn v4_rng<R: RandomSource>(rng: &R) -> (r: Result<String, RandomnessFailure>)
    ensures
        r is Ok ==> is_v4_slugid((r->Ok_0)@),
        r is Ok ==> has_v4_shape((r->Ok_0)@),
{
    let mut buf: Vec<u8> = fresh_buffer();
    match rng.fill(&mut buf) {
        Ok(()) => Ok(v4_from_bytes(buf)),
        Err(e) => Err(e),
    }
}

/// Like `nice`, but drawing the 16 random bytes from a caller-supplied
/// source.  Returns an identifier exactly when the source filled the
/// buffer; a source failure is surfaced, never masked.
pub fn nice_rng<R: RandomSource>(rng: &R) -> (r: Result<String, RandomnessFailure>)
    ensures
        r is Ok ==> is_nice_slugid((r->Ok_0)@),
        r is Ok ==> has_nice_shape((r->Ok_0)@),
{
    let mut buf: Vec<u8> = fresh_buffer();
    match rng.fill(&mut buf) {
        Ok(()) => Ok(nice_from_bytes(buf)),
        Err(e) => Err(e),
    }
}

/// Return a randomly-generated slugid, drawn from the platform CSPRNG.
pub fn v4() -> (r: Result<String, RandomnessFailure>)
    ensures
        r is Ok ==> is_v4_slugid((r->Ok_0)@),
        r is Ok ==> has_v4_shape((r->Ok_0)@),
{
    let rng = SystemRandomSource::new();
    v4_rng(&rng)
}

/// Return a randomly-generated slugid that never begins with `-`, `_`, a
/// digit, or a letter past `f` — "nicer" on a command line.
pub fn nice() -> (r: Result<String, RandomnessFailure>)
    ensures
        r is Ok ==> is_nice_slugid((r->Ok_0)@),
        r is Ok ==> has_nice_shape((r->Ok_0)@),
{
    let rng = SystemRandomSource::new();
    nice_rng(&rng)
}

/// Law: every v4 slugid is 22 characters long, drawn from the URL-safe
/// alphabet, with the version characters at index 8, the variant
/// characters at index 10, and one of `A`, `Q`, `g`, `w` at index 21.
pub proof fn lemma_v4_slugid_shape(s: Seq<char>)
    requires
        is_v4_slugid(s),
    ensures
        crate::encoding::has_v4_shape(s),
{
    let b = choose|b: Seq<u8>| b.len() == 16 && s == encode_spec(apply_v4_spec(b));
    crate::encoding::lemma_v4_encoding_shape(b);
}

/// Law: every nice slugid meets every character constraint of the random
/// mode, and additionally starts with a character in `A`-`Z`, `a`-`f`.
pub proof fn lemma_nice_slugid_shape(s: Seq<char>)
    requires
        is_nice_slugid(s),
    ensures
        crate::encoding::has_nice_shape(s),
{
    let b = choose|b: Seq<u8>| b.len() == 16 && s == encode_spec(apply_nice_spec(b));
    crate::encoding::lemma_nice_encoding_shape(b);
}

/// Law: every nice slugid is also a v4 slugid — the niceness stamp only
/// narrows the bytes the random mode could have drawn.
pub proof fn lemma_nice_slugid_is_v4(s: Seq<char>)
    requires
        is_nice_slugid(s),
    ensures
        is_v4_slugid(s),
{
    let b = choose|b: Seq<u8>| b.len() == 16 && s == encode_spec(apply_nice_spec(b));
    let b2 = b.update(0, b[0] & 0x7fu8);
    assert(apply_v4_spec(b2) =~= apply_nice_spec(b));
    assert(b2.len() == 16 && s == encode_spec(apply_v4_spec(b2)));
}

/// Law: at every position the fixed bits do not constrain (all but 8, 10
/// and 21), every symbol of the URL-safe alphabet appears on some v4
/// slugid — no position carries accidental bias beyond the stamps.
pub proof fn lemma_v4_attains_every_symbol(i: int, v: u8)
    requires
        0 <= i < 22,
        i != 8,
        i != 10,
        i != 21,
        v < 64,
    ensures
        exists|s: Seq<char>|
            is_v4_slugid(s) && s[i] == crate::encoding::slug_alphabet()[v as int],
{
    crate::encoding::lemma_v4_group_attains(i, v);
    let b = choose|b: Seq<u8>|
        b.len() == 16 && crate::encoding::six_bits(apply_v4_spec(b), i) == v;
    let s = encode_spec(apply_v4_spec(b));
    assert(s[i] == crate::encoding::slug_alphabet()[v as int]);
    assert(is_v4_slugid(s));
}

/// Law: at every position the stamps do not constrain (all but 0, 8, 10
/// and 21), every symbol of the URL-safe alphabet appears on some nice
/// slugid.
pub proof fn lemma_nice_attains_every_symbol(i: int, v: u8)
    requires
        1 <= i < 22,
        i != 8,
        i != 10,
        i != 21,
        v < 64,
    ensures
        exists|s: Seq<char>|
            is_nice_slugid(s) && s[i] == crate::encoding::slug_alphabet()[v as int],
{
    crate::encoding::lemma_nice_group_attains(i, v);
    let b = choose|b: Seq<u8>|
        b.len() == 16 && crate::encoding::six_bits(apply_nice_spec(b), i) == v;
    let s = encode_spec(apply_nice_spec(b));
    assert(s[i] == crate::encoding::slug_alphabet()[v as int]);
    assert(is_nice_slugid(s));
}

/// Law: every one of the 32 allowed leading symbols (`A`-`Z`, `a`-`f`)
/// appears on some nice slugid.
pub proof fn lemma_nice_leading_attains_every_symbol(v: u8)
    requires
        v < 32,
    ensures
        exists|s: Seq<char>|
            is_nice_slugid(s) && s[0] == crate::encoding::slug_alphabet()[v as int],
{
    crate::encoding::lemma_nice_leading_group_attains(v);
    let b = choose|b: Seq<u8>|
        b.len() == 16 && crate::encoding::six_bits(apply_nice_spec(b), 0) == v;
    let s = encode_spec(apply_nice_spec(b));
    assert(s[0] == crate::encoding::slug_alphabet()[v as int]);
    assert(is_nice_slugid(s));
}

/// A freshly allocated 16-byte buffer, to be filled by a random source.
fn fresh_buffer() -> (buf: Vec<u8>)
    ensures
        buf@.len() == 16,
{
    let mut buf: Vec<u8> = Vec::new();
    let mut i: usize = 0;
    while i < 16
        invariant
            buf@.len() == i,
            i <= 16,
        decreases 16 - i,
    {
        buf.push(0u8);
        i = i + 1;
    }
    buf
}

} // verus!
