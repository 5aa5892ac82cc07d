//! Hashing, randomness, encodings and password hashing from outside crates.

use argon2::{PasswordHasher, PasswordVerifier};
use base64::Engine;
use rand::{Rng, RngCore};
use sha2::Digest;
use subtle::ConstantTimeEq;
use vstd::prelude::*;

verus! {

/// The SHA-256 digest of `data` (sha2).
pub uninterp spec fn sha256_of(data: Seq<u8>) -> Seq<u8>;

/// `Sha256::digest(data)`: a 32-byte digest, a function of `data` alone.
#[verifier::external_body]
pub(crate) fn sha256_digest(data: &[u8]) -> (r: Vec<u8>)
    ensures
        r@ == sha256_of(data@),
        r@.len() == 32,
{
    sha2::Sha256::digest(data).to_vec()
}

/// `len` bytes from the thread-local CSPRNG (`rand::rng().fill_bytes`). Only
/// the length is known: the bytes are random.
#[verifier::external_body]
pub(crate) fn random_bytes(len: usize) -> (r: Vec<u8>)
    ensures
        r@.len() == len,
{
    let mut buf = vec![0u8; len];
    rand::rng().fill_bytes(&mut buf);
    buf
}

/// URL-safe base64 without padding of `data` (base64's `URL_SAFE_NO_PAD`).
pub uninterp spec fn base64_url_of(data: Seq<u8>) -> Seq<char>;

/// The URL-safe base64 alphabet.
pub open spec fn is_url_safe_char(c: char) -> bool {
    ('A' <= c && c <= 'Z') || ('a' <= c && c <= 'z') || ('0' <= c && c <= '9') || c == '-'
        || c == '_'
}

/// `URL_SAFE_NO_PAD.encode(data)`. The output alphabet is `A-Z a-z 0-9 - _`
/// and its length is `ceil(4n / 3)`, as the crate documents.
#[verifier::external_body]
pub(crate) fn base64_url_encode(data: &[u8]) -> (r: String)
    ensures
        r@ == base64_url_of(data@),
        r@.len() == (4 * data@.len() + 2) / 3,
        forall|i: int| 0 <= i < r@.len() ==> is_url_safe_char(#[trigger] r@[i]),
{
    base64::engine::general_purpose::URL_SAFE_NO_PAD.encode(data)
}

/// What `URL_SAFE_NO_PAD.decode(text)` yields.
pub uninterp spec fn base64_url_decoded(text: Seq<u8>) -> Option<Seq<u8>>;

/// `URL_SAFE_NO_PAD.decode(text)`, `None` when it is not valid.
#[verifier::external_body]
pub(crate) fn base64_url_decode(text: &[u8]) -> (r: Option<Vec<u8>>)
    ensures
        match r {
            Some(v) => base64_url_decoded(text@) == Some(v@),
            None => base64_url_decoded(text@) is None,
        },
{
    base64::engine::general_purpose::URL_SAFE_NO_PAD.decode(text).ok()
}

/// What `STANDARD.decode(text)` (padded standard base64) yields.
pub uninterp spec fn base64_std_decoded(text: Seq<u8>) -> Option<Seq<u8>>;

/// `STANDARD.decode(text)`, `None` when it is not valid.
#[verifier::external_body]
pub(crate) fn base64_std_decode(text: &[u8]) -> (r: Option<Vec<u8>>)
    ensures
        match r {
            Some(v) => base64_std_decoded(text@) == Some(v@),
            None => base64_std_decoded(text@) is None,
        },
{
    base64::engine::general_purpose::STANDARD.decode(text).ok()
}

/// What `STANDARD_NO_PAD.decode(text)` yields.
pub uninterp spec fn base64_std_nopad_decoded(text: Seq<u8>) -> Option<Seq<u8>>;

/// `STANDARD_NO_PAD.decode(text)`, `None` when it is not valid.
#[verifier::external_body]
pub(crate) fn base64_std_nopad_decode(text: &[u8]) -> (r: Option<Vec<u8>>)
    ensures
        match r {
            Some(v) => base64_std_nopad_decoded(text@) == Some(v@),
            None => base64_std_nopad_decoded(text@) is None,
        },
{
    base64::engine::general_purpose::STANDARD_NO_PAD.decode(text).ok()
}

/// `a.ct_eq(b)` (subtle): a constant-time comparison that is true exactly when
/// the two byte strings are equal.
#[verifier::external_body]
pub(crate) fn constant_time_eq(a: &[u8], b: &[u8]) -> (r: bool)
    ensures
        r == (a@ == b@),
{
    a.ct_eq(b).into()
}

/// The PHC string Argon2id (default parameters) produces for a password and
/// a salt.
pub uninterp spec fn argon2_phc(password: Seq<u8>, salt: Seq<u8>) -> Option<Seq<char>>;

/// Hash `password` with Argon2id at its default parameters under `salt`
/// (`SaltString::encode_b64` then `Argon2::default().hash_password`), `None`
/// when the crate refuses. The result is a PHC string, which starts with the
/// algorithm identifier `$argon2id$`. The salt must be at least 3 bytes:
/// shorter ones encode to fewer than the 4 base64 characters `Salt` accepts,
/// and `SaltString::as_salt` then panics. A salt of 8 to 48 bytes always
/// hashes: it encodes to at most the 64 characters a `SaltString` holds, and
/// Argon2 then refuses only a salt under 8 bytes or a password or salt over
/// 0xFFFFFFFF bytes.
#[verifier::external_body]
pub(crate) fn argon2_hash(password: &[u8], salt: &[u8]) -> (r: Option<String>)
    requires
        salt@.len() >= 3,
    ensures
        8 <= salt@.len() <= 48 && password@.len() <= 0xFFFF_FFFF ==> r is Some,
        match r {
            Some(s) => argon2_phc(password@, salt@) == Some(s@) && crate::text::starts_with(
                s@,
                "$argon2id$"@,
            ),
            None => argon2_phc(password@, salt@) is None,
        },
{
    let salt = argon2::password_hash::SaltString::encode_b64(salt).ok()?;
    argon2::Argon2::default().hash_password(password, &salt).ok().map(|h| h.to_string())
}

/// Whether `password` matches the PHC string `encoded` under Argon2.
pub uninterp spec fn argon2_matches(password: Seq<u8>, encoded: Seq<char>) -> bool;

/// `PasswordHash::new(encoded)` then `Argon2::default().verify_password`:
/// false for an unparsable hash or a wrong password.
#[verifier::external_body]
pub(crate) fn argon2_verify(password: &[u8], encoded: &str) -> (r: bool)
    ensures
        r == argon2_matches(password@, encoded@),
{
    match argon2::PasswordHash::new(encoded) {
        Ok(hash) => argon2::Argon2::default().verify_password(password, &hash).is_ok(),
        Err(_) => false,
    }
}

/// A random integer in `0..=max` from the thread-local generator
/// (`rand::rng().random_range(0..=max)`); only the range is known.
#[verifier::external_body]
pub(crate) fn random_at_most(max: i64) -> (r: i64)
    requires
        max >= 0,
    ensures
        0 <= r <= max,
{
    rand::rng().random_range(0..=max)
}

} // verus!
