//! Content hashes (`sha256:` and the lowercase hex SHA-256 digest) and UTF-8
//! decoding of file bytes.

use sha2::{Digest, Sha256};
use vstd::prelude::*;
use vstd::utf8::{decode_utf8, valid_utf8};

use crate::text::push_str;

verus! {

/// The SHA-256 digest of a byte sequence.
pub uninterp spec fn sha256_of(bytes: Seq<u8>) -> Seq<u8>;

/// Computes the SHA-256 digest with `sha2::Sha256::digest`; it is 32 bytes long.
#[verifier::external_body]
fn sha256_digest(bytes: &[u8]) -> (digest: Vec<u8>)
    ensures
        digest@ == sha256_of(bytes@),
        digest@.len() == 32,
{
    Sha256::digest(bytes).to_vec()
}

/// The lowercase hexadecimal digit of a value below 16.
pub open spec fn hex_digit(v: u8) -> char {
    if v < 10 {
        ('0' as u8 + v) as char
    } else {
        ('a' as u8 + (v - 10)) as char
    }
}

/// Two lowercase hex digits per byte, high nibble first.
pub open spec fn hex_spec(bytes: Seq<u8>) -> Seq<char>
    decreases bytes.len(),
{
    if bytes.len() == 0 {
        Seq::empty()
    } else {
        hex_spec(bytes.drop_last()).push(hex_digit(bytes.last() / 16)).push(
            hex_digit(bytes.last() % 16),
        )
    }
}

/// Encodes bytes as lowercase hexadecimal with `hex::encode`.
#[verifier::external_body]
fn hex_encode(bytes: &[u8]) -> (text: String)
    ensures
        text@ == hex_spec(bytes@),
{
    hex::encode(bytes)
}

/// The hex form is two characters per byte.
pub proof fn lemma_hex_len(bytes: Seq<u8>)
    ensures
        hex_spec(bytes).len() == 2 * bytes.len(),
    decreases bytes.len(),
{
    if bytes.len() > 0 {
        lemma_hex_len(bytes.drop_last());
    }
}

/// A lowercase hexadecimal digit.
pub open spec fn is_lower_hex(c: char) -> bool {
    ('0' <= c && c <= '9') || ('a' <= c && c <= 'f')
}

/// `sha256:` followed by exactly 64 lowercase hexadecimal digits.
pub open spec fn is_sha256_hash(s: Seq<char>) -> bool {
    &&& s.len() == 71
    &&& s.take(7) == "sha256:"@
    &&& forall|i: int| 7 <= i < 71 ==> is_lower_hex(#[trigger] s[i])
}

/// Every character of the hex form is a lowercase hex digit.
pub proof fn lemma_hex_digits(bytes: Seq<u8>)
    ensures
        forall|i: int| 0 <= i < hex_spec(bytes).len() ==> is_lower_hex(#[trigger] hex_spec(bytes)[i]),
    decreases bytes.len(),
{
    if bytes.len() > 0 {
        lemma_hex_digits(bytes.drop_last());
        lemma_hex_len(bytes.drop_last());
        let b = bytes.last();
        assert(b / 16 < 16 && b % 16 < 16);
        assert(is_lower_hex(hex_digit(b / 16)));
        assert(is_lower_hex(hex_digit(b % 16)));
    }
}

/// The content hash of a byte sequence: `sha256:` and the hex digest.
pub open spec fn content_hash_spec(bytes: Seq<u8>) -> Seq<char> {
    "sha256:"@ + hex_spec(sha256_of(bytes))
}

/// `sha256:` followed by the lowercase hex SHA-256 digest of `bytes`.
pub fn content_hash(bytes: &[u8]) -> (hash: String)
    ensures
        hash@ == content_hash_spec(bytes@),
        is_sha256_hash(hash@),
{
    let digest = sha256_digest(bytes);
    let hex = hex_encode(digest.as_slice());
    let mut hash = String::new();
    push_str(&mut hash, "sha256:");
    push_str(&mut hash, hex.as_str());
    proof {
        reveal_strlit("sha256:");
        lemma_hex_len(digest@);
        lemma_hex_digits(digest@);
        assert(hash@ =~= "sha256:"@ + hex@);
        assert(hash@.take(7) =~= "sha256:"@);
        assert forall|i: int| 7 <= i < 71 implies is_lower_hex(#[trigger] hash@[i]) by {
            assert(hash@[i] == hex@[i - 7]);
        }
    }
    hash
}

/// Decodes bytes as UTF-8 with `String::from_utf8`: text exactly when the
/// bytes are valid UTF-8.
#[verifier::external_body]
pub(crate) fn decode_text(bytes: Vec<u8>) -> (text: Option<String>)
    ensures
        match text {
            Some(t) => valid_utf8(bytes@) && t@ == decode_utf8(bytes@),
            None => !valid_utf8(bytes@),
        },
{
    String::from_utf8(bytes).ok()
}

} // verus!
