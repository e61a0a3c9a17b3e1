//! Content hashing: the deterministic fingerprint used as the identity of
//! clipboard content for deduplication and content addressing.
//!
//! The digest is the SHA-256 of the canonical bytes, rendered as 64 lowercase
//! hexadecimal characters.

use vstd::prelude::*;
use sha2::Digest;
use crate::text::chars_to_string;

verus! {

/// What SHA-256 returns for a byte sequence. The digest is a function of the
/// input bytes alone, so it bears a name rather than a definition.
pub uninterp spec fn sha256_of(bytes: Seq<u8>) -> Seq<u8>;

/// Relies on `sha2::Sha256` (`new`, `update`, `finalize`): the 32-byte SHA-256
/// digest, a function of the input bytes alone.
#[verifier::external_body]
fn sha256_digest(bytes: &[u8]) -> (r: Vec<u8>)
    ensures
        r@ == sha256_of(bytes@),
        r@.len() == 32,
{
    let mut hasher = sha2::Sha256::new();
    hasher.update(bytes);
    hasher.finalize().to_vec()
}

/// The lowercase hexadecimal digit for a nibble.
pub open spec fn hex_digit(n: u8) -> char
    recommends
        n < 16,
{
    if n == 0 { '0' } else if n == 1 { '1' } else if n == 2 { '2' } else if n == 3 { '3' }
    else if n == 4 { '4' } else if n == 5 { '5' } else if n == 6 { '6' } else if n == 7 { '7' }
    else if n == 8 { '8' } else if n == 9 { '9' } else if n == 10 { 'a' } else if n == 11 { 'b' }
    else if n == 12 { 'c' } else if n == 13 { 'd' } else if n == 14 { 'e' } else { 'f' }
}

/// Lowercase hexadecimal rendering of a byte sequence: two digits per byte,
/// high nibble first.
pub open spec fn hex_of(bytes: Seq<u8>) -> Seq<char> {
    Seq::new(
        bytes.len() * 2,
        |i: int| if i % 2 == 0 { hex_digit(bytes[i / 2] >> 4) } else { hex_digit(bytes[i / 2] & 0xf) },
    )
}

/// The content digest of a byte sequence: SHA-256 in lowercase hexadecimal.
pub open spec fn digest_of(bytes: Seq<u8>) -> Seq<char> {
    hex_of(sha256_of(bytes))
}

/// The content digest of a text value: the digest of its UTF-8 bytes.
pub open spec fn text_digest_of(s: Seq<char>) -> Seq<char> {
    digest_of(vstd::utf8::encode_utf8(s))
}

fn hex_digit_char(n: u8) -> (c: char)
    requires
        n < 16,
    ensures
        c == hex_digit(n),
{
    if n == 0 { '0' } else if n == 1 { '1' } else if n == 2 { '2' } else if n == 3 { '3' }
    else if n == 4 { '4' } else if n == 5 { '5' } else if n == 6 { '6' } else if n == 7 { '7' }
    else if n == 8 { '8' } else if n == 9 { '9' } else if n == 10 { 'a' } else if n == 11 { 'b' }
    else if n == 12 { 'c' } else if n == 13 { 'd' } else if n == 14 { 'e' } else { 'f' }
}

/// Hexadecimal rendering of a byte vector.
fn to_hex(bytes: &Vec<u8>) -> (r: String)
    requires
        bytes@.len() <= usize::MAX / 2,
    ensures
        r@ == hex_of(bytes@),
{
    let mut chars: Vec<char> = Vec::new();
    let mut i: usize = 0;
    while i < bytes.len()
        invariant
            i <= bytes@.len(),
            bytes@.len() <= usize::MAX / 2,
            chars@ == hex_of(bytes@.subrange(0, i as int)),
        decreases bytes@.len() - i,
    {
        let b = bytes[i];
        proof {
            assert(b >> 4 < 16) by (bit_vector);
            assert(b & 0xf < 16) by (bit_vector);
        }
        chars.push(hex_digit_char(b >> 4));
        chars.push(hex_digit_char(b & 0xf));
        i = i + 1;
        proof {
            assert(chars@ =~= hex_of(bytes@.subrange(0, i as int)));
        }
    }
    proof {
        assert(bytes@.subrange(0, bytes@.len() as int) =~= bytes@);
    }
    chars_to_string(&chars)
}

/// The content digest of raw bytes: 64 lowercase hexadecimal characters.
pub fn hash_bytes(bytes: &[u8]) -> (r: String)
    ensures
        r@ == digest_of(bytes@),
        r@.len() == 64,
{
    let digest = sha256_digest(bytes);
    to_hex(&digest)
}

/// The content digest of a text value, taken over its UTF-8 bytes.
pub fn hash_string(s: &str) -> (r: String)
    ensures
        r@ == text_digest_of(s@),
        r@.len() == 64,
{
    hash_bytes(s.as_bytes())
}

/// Hashing is deterministic: equal inputs always carry equal digests, in this
/// process or any other.
pub proof fn lemma_hash_deterministic(a: Seq<u8>, b: Seq<u8>)
    requires
        a == b,
    ensures
        digest_of(a) == digest_of(b),
{
}

} // verus!
