//! Input normalization and the entry points: text is lowercased, its UTF-8
//! bytes are checked for length, and the bytes are hashed.

use crate::digest::{
    digest_of, lemma_digest_len, lemma_tail_irrelevant, safe_hash, DIGEST_LEN, SEED_LEN,
};
use crate::hex::{hex_of, is_lower_hex, lemma_hex_shape, to_hex};
use crate::scratch::BUFFER_LEN;
use std::io::ErrorKind;
use std::str::Utf8Error;
use vstd::prelude::*;
use vstd::string::StringSliceAdditionalSpecFns;
use vstd::utf8::{decode_utf8, encode_utf8, encode_utf8_decode_utf8, valid_utf8};

verus! {

/// `std::io::ErrorKind`, the error type of the entry points. It is declared
/// with its variants, so that contracts can name `InvalidData`, the only one
/// that is ever returned.
#[verifier::external_type_specification]
pub struct ExErrorKind(ErrorKind);

/// `std::str::Utf8Error`, what `std::str::from_utf8` reports for bytes that
/// are not UTF-8. Nothing is read from it.
#[verifier::external_type_specification]
#[verifier::external_body]
pub struct ExUtf8Error(Utf8Error);

/// The lowercase form that `str::to_lowercase` of std gives a text. It
/// follows the Unicode case tables and may differ in length from the text.
pub uninterp spec fn lowercase_of(text: Seq<char>) -> Seq<char>;

/// `str::to_lowercase` of std: a new string that holds the lowercase form of
/// the text.
pub assume_specification[ str::to_lowercase ](text: &str) -> (lower: String)
    ensures
        lower@ == lowercase_of(text@),
;

/// `std::str::from_utf8`: succeeds exactly on well-formed UTF-8, and then
/// hands back the same bytes as text.
pub assume_specification[ core::str::from_utf8 ](bytes: &[u8]) -> (r: Result<&str, Utf8Error>)
    ensures
        r is Ok <==> valid_utf8(bytes@),
        r matches Ok(text) ==> text.spec_bytes() == bytes@,
;

/// The bytes that are hashed for a text: the UTF-8 encoding of its lowercase
/// form.
pub open spec fn normalized(text: Seq<char>) -> Seq<u8> {
    encode_utf8(lowercase_of(text))
}

/// Normalized bytes are hashed if there is at least one of them and no more
/// than the buffer holds.
pub open spec fn acceptable(bytes: Seq<u8>) -> bool {
    0 < bytes.len() <= BUFFER_LEN
}

/// The digest owed for normalized bytes, if any.
pub open spec fn hash_of_normalized(bytes: Seq<u8>) -> Option<Seq<u8>> {
    if acceptable(bytes) {
        Some(digest_of(bytes))
    } else {
        None
    }
}

/// The digest owed for a text, if any.
pub open spec fn hash_of_text(text: Seq<char>) -> Option<Seq<u8>> {
    hash_of_normalized(normalized(text))
}

/// The digest owed for raw bytes, if any: they have to be UTF-8 first.
pub open spec fn hash_of_bytes(bytes: Seq<u8>) -> Option<Seq<u8>> {
    if valid_utf8(bytes) {
        hash_of_text(decode_utf8(bytes))
    } else {
        None
    }
}

/// Whether `r` reports `owed`: the digest where one is owed, and
/// `InvalidData` where none is.
pub open spec fn reports(r: Result<Vec<u8>, ErrorKind>, owed: Option<Seq<u8>>) -> bool {
    match r {
        Ok(digest) => owed == Some(digest@),
        Err(kind) => owed is None && kind == ErrorKind::InvalidData,
    }
}

/// Whether `r` reports `owed` in hex.
pub open spec fn reports_hex(r: Result<String, ErrorKind>, owed: Option<Seq<u8>>) -> bool {
    match r {
        Ok(text) => owed matches Some(digest) && text@ == hex_of(digest),
        Err(kind) => owed is None && kind == ErrorKind::InvalidData,
    }
}

/// Hashes bytes that are already normalized, or rejects them for their
/// length.
pub fn hash_normalized(bytes: &[u8]) -> (r: Result<Vec<u8>, ErrorKind>)
    ensures
        reports(r, hash_of_normalized(bytes@)),
        r matches Ok(digest) ==> digest@.len() == DIGEST_LEN,
{
    if bytes.len() > BUFFER_LEN || bytes.len() == 0 {
        return Err(ErrorKind::InvalidData);
    }
    Ok(safe_hash(bytes))
}

/// Hashes a text: lowercases it and hashes the UTF-8 bytes of the result.
pub fn calculate_hash(data: &str) -> (r: Result<Vec<u8>, ErrorKind>)
    ensures
        reports(r, hash_of_text(data@)),
        r matches Ok(digest) ==> digest@.len() == DIGEST_LEN,
{
    let lower = data.to_lowercase();
    hash_normalized(lower.as_str().as_bytes())
}

/// The digest of a secret given as raw bytes, which have to be UTF-8.
pub fn get_hash_bytes(password: Vec<u8>) -> (r: Result<Vec<u8>, ErrorKind>)
    ensures
        reports(r, hash_of_bytes(password@)),
        r matches Ok(digest) ==> digest@.len() == DIGEST_LEN,
{
    match std::str::from_utf8(password.as_slice()) {
        Ok(text) => {
            proof {
                encode_utf8_decode_utf8(text@);
            }
            calculate_hash(text)
        },
        Err(_) => Err(ErrorKind::InvalidData),
    }
}

/// The digest of a secret given as text, as 40 lowercase hex digits.
pub fn get_hash_string(password: &str) -> (r: Result<String, ErrorKind>)
    ensures
        reports_hex(r, hash_of_text(password@)),
        r matches Ok(text) ==> text@.len() == 2 * DIGEST_LEN && forall|i: int|
            0 <= i < text@.len() ==> is_lower_hex(#[trigger] text@[i]),
{
    match calculate_hash(password) {
        Ok(digest) => {
            proof {
                lemma_hex_shape(digest@);
            }
            Ok(to_hex(digest.as_slice()))
        },
        Err(_) => Err(ErrorKind::InvalidData),
    }
}

/// Texts with the same lowercase form are hashed alike: they are owed the
/// same digest, or both none.
pub proof fn lemma_case_insensitive(x: Seq<char>, y: Seq<char>)
    requires
        lowercase_of(x) == lowercase_of(y),
    ensures
        hash_of_text(x) == hash_of_text(y),
{
}

/// Normalized bytes behind a head of at most 64 bytes do not reach the
/// digest, as long as those that land before offset 64 are zero.
pub proof fn lemma_hash_ignores_tail(head: Seq<u8>, tail: Seq<u8>)
    requires
        0 < head.len() <= SEED_LEN,
        head.len() + tail.len() <= BUFFER_LEN,
        forall|j: int| 0 <= j < tail.len() && head.len() + j < SEED_LEN ==> tail[j] == 0u8,
    ensures
        hash_of_normalized(head) is Some,
        hash_of_normalized(head + tail) == hash_of_normalized(head),
{
    lemma_tail_irrelevant(head, tail);
}

/// Two results for the same input are the same: both the same digest, byte
/// for byte, or both the same error.
pub proof fn lemma_deterministic(
    first: Result<Vec<u8>, ErrorKind>,
    second: Result<Vec<u8>, ErrorKind>,
    owed: Option<Seq<u8>>,
)
    requires
        reports(first, owed),
        reports(second, owed),
    ensures
        first is Ok <==> second is Ok,
        first matches Ok(a) ==> second matches Ok(b) && a@ == b@,
        first matches Err(a) ==> second matches Err(b) && a == b,
{
}

/// A text is rejected exactly when its normalized form is empty or longer
/// than 1024 bytes; any other text is owed a digest of 20 bytes.
pub proof fn lemma_boundaries(text: Seq<char>)
    ensures
        hash_of_text(text) is None <==> normalized(text).len() == 0 || normalized(text).len()
            > 1024,
        hash_of_text(text) matches Some(digest) ==> digest.len() == 20,
{
    lemma_digest_len(normalized(text));
}

} // verus!
