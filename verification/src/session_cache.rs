//! The optional session cache: the keys sessions are stored under, how long
//! an entry lives, and when a cached session may be served. The cache server
//! itself is reached outside the library; the store stays the source of
//! truth.

use vstd::prelude::*;

use crate::text::{append_chars, append_str, chars_of, decimal_int, i64_decimal, string_of};

verus! {

/// The cache key of a session, by the hash of its token.
pub open spec fn session_key_of(token_hash: Seq<char>) -> Seq<char> {
    "qdrust:session:"@ + token_hash
}

/// The key of a session.
pub fn session_key(token_hash: &str) -> (r: String)
    ensures
        r@ == session_key_of(token_hash@),
{
    let mut out = chars_of("qdrust:session:");
    append_str(&mut out, token_hash);
    string_of(out.as_slice())
}

/// The key of the index of a user's cached sessions.
pub open spec fn user_index_key_of(user_id: i64) -> Seq<char> {
    "qdrust:session:user:"@ + decimal_int(user_id as int)
}

/// The index key of a user.
pub fn user_index_key(user_id: i64) -> (r: String)
    ensures
        r@ == user_index_key_of(user_id),
{
    let mut out = chars_of("qdrust:session:user:");
    let digits = i64_decimal(user_id);
    append_chars(&mut out, digits.as_slice());
    string_of(out.as_slice())
}

/// A lowercase hexadecimal digit, the alphabet token hashes are written in.
pub open spec fn is_hex_digit(c: char) -> bool {
    ('0' <= c && c <= '9') || ('a' <= c && c <= 'f')
}

/// A session entry and a user index never share a key: token hashes are
/// hexadecimal, and no index key has a hex digit where a session key starts
/// its hash. Dropping an index therefore never drops a session, nor the
/// other way round.
pub proof fn law_session_and_index_keys_differ(token_hash: Seq<char>, user_id: i64)
    requires
        token_hash.len() > 0,
        is_hex_digit(token_hash[0]),
    ensures
        session_key_of(token_hash) != user_index_key_of(user_id),
{
    reveal_strlit("qdrust:session:");
    reveal_strlit("qdrust:session:user:");
    let s = session_key_of(token_hash);
    let u = user_index_key_of(user_id);
    assert(s[15] == token_hash[0]);
    assert(u[15] == 'u');
}

/// The lifetime an entry is stored with: the session's, at least a second.
pub fn cache_ttl(ttl_seconds: i64) -> (r: i64)
    ensures
        r == if ttl_seconds < 1 {
            1
        } else {
            ttl_seconds
        },
{
    if ttl_seconds < 1 {
        1
    } else {
        ttl_seconds
    }
}

/// Whether a cached session may be served at `now` (Unix seconds): only
/// while it has not expired.
pub fn cached_session_live(expires_at: i64, now: i64) -> (r: bool)
    ensures
        r == (expires_at > now),
{
    expires_at > now
}

/// The cache is used when `REDIS_URL` is set to a non-empty value.
pub fn cache_configured(redis_url: Option<&str>) -> (r: bool)
    ensures
        r == match redis_url {
            Some(u) => u@.len() > 0,
            None => false,
        },
{
    match redis_url {
        Some(u) => !u.is_empty(),
        None => false,
    }
}

/// The session keys of the token hashes a user's index holds, in order.
pub fn indexed_session_keys(hashes: &Vec<String>) -> (r: Vec<String>)
    ensures
        r@.len() == hashes@.len(),
        forall|i: int| 0 <= i < r@.len() ==> #[trigger] r@[i]@ == session_key_of(hashes@[i]@),
{
    let mut out: Vec<String> = Vec::new();
    let mut i: usize = 0;
    while i < hashes.len()
        invariant
            i <= hashes.len(),
            out@.len() == i,
            forall|k: int| 0 <= k < i ==> #[trigger] out@[k]@ == session_key_of(hashes@[k]@),
        decreases hashes.len() - i,
    {
        out.push(session_key(hashes[i].as_str()));
        i = i + 1;
    }
    out
}

} // verus!
