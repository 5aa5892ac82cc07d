//! OpenID Connect authorization-code + PKCE helpers: the state, verifier and
//! nonce derivation, the username a login ends up with, and the callback's
//! checks.
//!
//! The PKCE verifier and the nonce are derived from the random `state` and the
//! server-only client secret, so the stored row only needs their hashes.

use vstd::prelude::*;

use crate::auth::{hex, hex_lower, token_digest};
use crate::config::OidcConfig;
use crate::crypto::{
    base64_url_decode, base64_url_decoded, base64_url_encode, base64_url_of, is_url_safe_char,
    random_bytes, sha256_digest, sha256_of,
};
use crate::json::{JsonValue, field_lookup, json_str, string_items, strings_in};
use crate::model::OidcLoginState;
use crate::api::secure_suffix;
use crate::text::{
    append_chars, append_str, chars_eq, chars_lower, chars_of, lower, lower_char, chars_trim_end_char, find_chars_from,
    find_from, is_digit, nonempty_trimmed, push_char, split, split_chars, split_trim_nonempty,
    str_eq, string_of, string_views, sub_chars, trim, trim_chars, trim_end_char, trimmed_nonblank,
    views,
};
use vstd::string::StringSliceAdditionalSpecFns;
use vstd::utf8::encode_utf8;

verus! {

/// Cookie carrying the raw `state` back from the identity provider.
pub const OIDC_STATE_COOKIE: &'static str = "qd_oidc_state";

/// The callback path, appended to the base path.
pub const OIDC_CALLBACK_PATH: &'static str = "/api/v1/auth/oidc/callback";

/// Seconds a login state stays valid.
pub const OIDC_STATE_TTL_SECS: i64 = 300;

/// A fresh high-entropy `state`: 32 random bytes in URL-safe base64 (43
/// characters).
pub fn generate_state() -> (r: String)
    ensures
        r@.len() == 43,
        forall|i: int| 0 <= i < r@.len() ==> is_url_safe_char(#[trigger] r@[i]),
        exists|bytes: Seq<u8>| bytes.len() == 32 && r@ == base64_url_of(bytes),
{
    let bytes = random_bytes(32);
    base64_url_encode(bytes.as_slice())
}

fn concat_bytes(a: &[u8], b: &[u8]) -> (r: Vec<u8>)
    ensures
        r@ == a@ + b@,
{
    let mut r: Vec<u8> = Vec::new();
    let mut i: usize = 0;
    while i < a.len()
        invariant
            i <= a.len(),
            r@ == a@.take(i as int),
        decreases a.len() - i,
    {
        r.push(a[i]);
        assert(a@.take(i as int).push(a@[i as int]) =~= a@.take(i + 1));
        i = i + 1;
    }
    let mut j: usize = 0;
    while j < b.len()
        invariant
            j <= b.len(),
            i == a.len(),
            r@ == a@ + b@.take(j as int),
        decreases b.len() - j,
    {
        r.push(b[j]);
        assert(b@.take(j as int).push(b@[j as int]) =~= b@.take(j + 1));
        j = j + 1;
    }
    assert(a@.take(a.len() as int) =~= a@);
    assert(b@.take(b.len() as int) =~= b@);
    r
}

/// The PKCE verifier of a login: URL-safe base64 of SHA-256 over the state
/// then the client secret.
pub open spec fn pkce_verifier_of(state: Seq<char>, client_secret: Seq<char>) -> Seq<char> {
    base64_url_of(sha256_of(encode_utf8(state) + encode_utf8(client_secret)))
}

/// The OIDC nonce of a login: URL-safe base64 of SHA-256 over `nonce`, the
/// state, then the client secret.
pub open spec fn nonce_of(state: Seq<char>, client_secret: Seq<char>) -> Seq<char> {
    base64_url_of(
        sha256_of(encode_utf8("nonce"@) + encode_utf8(state) + encode_utf8(client_secret)),
    )
}

/// Derive the PKCE verifier (43 characters) from the state and the secret.
pub fn derive_pkce_verifier(state: &str, client_secret: &str) -> (r: String)
    ensures
        r@ == pkce_verifier_of(state@, client_secret@),
        r@.len() == 43,
{
    let data = concat_bytes(state.as_bytes(), client_secret.as_bytes());
    let digest = sha256_digest(data.as_slice());
    base64_url_encode(digest.as_slice())
}

/// Derive the nonce (43 characters) from the state and the secret.
pub fn derive_nonce(state: &str, client_secret: &str) -> (r: String)
    ensures
        r@ == nonce_of(state@, client_secret@),
        r@.len() == 43,
{
    let prefix = concat_bytes("nonce".as_bytes(), state.as_bytes());
    let data = concat_bytes(prefix.as_slice(), client_secret.as_bytes());
    let digest = sha256_digest(data.as_slice());
    base64_url_encode(digest.as_slice())
}

/// SHA-256 hex of the raw state: the key of the stored login row.
pub fn state_hash(state: &str) -> (r: String)
    ensures
        r@ == token_digest(state@),
        r@.len() == 64,
{
    crate::auth::token_hash(state)
}

/// SHA-256 hex of the derived nonce, stored for the integrity check.
pub fn nonce_hash(nonce: &str) -> (r: String)
    ensures
        r@ == token_digest(nonce@),
        r@.len() == 64,
{
    crate::auth::token_hash(nonce)
}

/// SHA-256 hex of the derived verifier, stored for the integrity check.
pub fn verifier_hash(verifier: &str) -> (r: String)
    ensures
        r@ == token_digest(verifier@),
        r@.len() == 64,
{
    crate::auth::token_hash(verifier)
}

/// The characters scope lists are split on: whitespace, `,` and `;`.
pub open spec fn is_scope_sep(c: char) -> bool {
    crate::text::is_ws(c) || c == ',' || c == ';'
}

/// Scanning state for `scope_tokens`: finished tokens and the open one.
pub open spec fn scope_scan(s: Seq<char>) -> (Seq<Seq<char>>, Seq<char>)
    decreases s.len(),
{
    if s.len() == 0 {
        (Seq::empty(), Seq::empty())
    } else {
        let (done, cur) = scope_scan(s.drop_last());
        if is_scope_sep(s.last()) {
            if cur.len() > 0 {
                (done.push(cur), Seq::empty())
            } else {
                (done, Seq::empty())
            }
        } else {
            (done, cur.push(s.last()))
        }
    }
}

/// The non-empty runs between separators, in order.
pub open spec fn scope_tokens(s: Seq<char>) -> Seq<Seq<char>> {
    let (done, cur) = scope_scan(s);
    if cur.len() > 0 {
        done.push(cur)
    } else {
        done
    }
}

/// Split a configured scope list on whitespace, commas and semicolons.
pub fn parse_scopes(scopes: &str) -> (r: Vec<String>)
    ensures
        string_views(r@) == scope_tokens(scopes@),
{
    let v = chars_of(scopes);
    let mut done: Vec<String> = Vec::new();
    let mut cur: Vec<char> = Vec::new();
    let mut i: usize = 0;
    while i < v.len()
        invariant
            i <= v.len(),
            (string_views(done@), cur@) == scope_scan(v@.take(i as int)),
        decreases v.len() - i,
    {
        let c = v[i];
        assert(v@.take(i + 1).drop_last() =~= v@.take(i as int));
        if crate::text::char_is_ws(c) || c == ',' || c == ';' {
            if cur.len() > 0 {
                let ghost old_done = done@;
                done.push(string_of(cur.as_slice()));
                assert(string_views(done@) =~= string_views(old_done).push(cur@));
                cur = Vec::new();
            } else {
                cur = Vec::new();
            }
            assert(cur@ =~= Seq::<char>::empty());
        } else {
            cur.push(c);
        }
        i = i + 1;
    }
    assert(v@.take(v.len() as int) =~= v@);
    if cur.len() > 0 {
        let ghost old_done = done@;
        done.push(string_of(cur.as_slice()));
        assert(string_views(done@) =~= string_views(old_done).push(cur@));
    }
    done
}

/// The scopes added to an authorization URL: `openid` is dropped (the client
/// always requests it) and repeats are dropped, first occurrence kept.
pub open spec fn extra_scopes(scopes: Seq<Seq<char>>) -> Seq<Seq<char>>
    decreases scopes.len(),
{
    if scopes.len() == 0 {
        Seq::empty()
    } else {
        let rest = extra_scopes(scopes.drop_last());
        let s = scopes.last();
        if s == "openid"@ || rest.contains(s) {
            rest
        } else {
            rest.push(s)
        }
    }
}

/// The scopes an authorization request adds are exactly the configured
/// scopes other than `openid`, each once: a scope is added if and only if it
/// is configured and is not `openid`, and none is added twice.
pub proof fn law_every_extra_scope_is_requested_once(scopes: Seq<Seq<char>>)
    ensures
        forall|s: Seq<char>|
            #[trigger] extra_scopes(scopes).contains(s) <==> (scopes.contains(s) && s != "openid"@),
        extra_scopes(scopes).no_duplicates(),
    decreases scopes.len(),
{
    if scopes.len() > 0 {
        let init = scopes.drop_last();
        let last = scopes.last();
        law_every_extra_scope_is_requested_once(init);
        let rest = extra_scopes(init);
        assert forall|s: Seq<char>|
            #[trigger] extra_scopes(scopes).contains(s) <==> (scopes.contains(s) && s != "openid"@) by {
            if scopes.contains(s) && s != "openid"@ {
                let k = choose|k: int| 0 <= k < scopes.len() && scopes[k] == s;
                if k < scopes.len() - 1 {
                    assert(init[k] == s);
                    assert(init.contains(s));
                }
            }
            if init.contains(s) {
                let k = choose|k: int| 0 <= k < init.len() && init[k] == s;
                assert(scopes[k] == s);
            }
            if s == last {
                assert(scopes[scopes.len() - 1] == s);
            }
            if rest.push(last).contains(s) && s != last {
                let k = choose|k: int| 0 <= k < rest.push(last).len() && rest.push(last)[k] == s;
                assert(rest[k] == s);
            }
            if rest.contains(s) {
                let k = choose|k: int| 0 <= k < rest.len() && rest[k] == s;
                assert(rest.push(last)[k] == s);
            }
            if s == last {
                assert(rest.push(last)[rest.len() as int] == s);
            }
        }
        if !(last == "openid"@ || rest.contains(last)) {
            assert forall|i: int, j: int|
                0 <= i < rest.push(last).len() && 0 <= j < rest.push(last).len() && i != j implies
                rest.push(last)[i] != rest.push(last)[j] by {
                if i == rest.len() {
                    assert(rest[j] == rest.push(last)[j]);
                } else if j == rest.len() {
                    assert(rest[i] == rest.push(last)[i]);
                }
            }
        }
    }
}

/// The scopes to add to the authorization request.
pub fn authorize_scopes(scopes: &Vec<String>) -> (r: Vec<String>)
    ensures
        string_views(r@) == extra_scopes(string_views(scopes@)),
{
    let openid = chars_of("openid");
    let mut seen: Vec<Vec<char>> = Vec::new();
    let mut r: Vec<String> = Vec::new();
    let ghost sv = string_views(scopes@);
    let mut i: usize = 0;
    while i < scopes.len()
        invariant
            i <= scopes.len(),
            sv == string_views(scopes@),
            openid@ == "openid"@,
            views(seen@) == string_views(r@),
            string_views(r@) == extra_scopes(sv.take(i as int)),
        decreases scopes.len() - i,
    {
        let s = chars_of(scopes[i].as_str());
        assert(sv.take(i + 1).drop_last() =~= sv.take(i as int));
        assert(sv.take(i + 1).last() == s@);
        let mut found = false;
        let mut j: usize = 0;
        while j < seen.len()
            invariant
                j <= seen.len(),
                found == (exists|k: int| 0 <= k < j && views(seen@)[k] == s@),
            decreases seen.len() - j,
        {
            assert(views(seen@)[j as int] == seen@[j as int]@);
            if chars_eq(seen[j].as_slice(), s.as_slice()) {
                found = true;
            }
            assert(found == (exists|k: int| 0 <= k < j + 1 && views(seen@)[k] == s@)) by {
                if found && !(exists|k: int| 0 <= k < j && views(seen@)[k] == s@) {
                    assert(views(seen@)[j as int] == s@);
                }
            }
            j = j + 1;
        }
        proof {
            assert(found == views(seen@).contains(s@));
        }
        if !chars_eq(s.as_slice(), openid.as_slice()) && !found {
            let ghost old_r = r@;
            let ghost old_seen = seen@;
            r.push(string_of(s.as_slice()));
            seen.push(s);
            assert(string_views(r@) =~= string_views(old_r).push(s@));
            assert(views(seen@) =~= views(old_seen).push(s@));
        }
        i = i + 1;
    }
    assert(sv.take(scopes.len() as int) =~= sv);
    r
}


/// An ASCII hex digit.
pub open spec fn is_hex_char(c: char) -> bool {
    is_digit(c) || ('a' <= c && c <= 'f') || ('A' <= c && c <= 'F')
}

pub open spec fn all_hex(s: Seq<char>) -> bool {
    forall|i: int| 0 <= i < s.len() ==> is_hex_char(#[trigger] s[i])
}

/// The length of group `i` of a canonical UUID: 8-4-4-4-12.
pub open spec fn uuid_group_len(i: int) -> nat {
    if i == 0 {
        8
    } else if i == 4 {
        12
    } else {
        4
    }
}

/// Canonical UUID form: five hex groups of 8, 4, 4, 4 and 12 digits joined by
/// `-` (36 characters).
pub open spec fn uuid_form(t: Seq<char>) -> bool {
    let parts = split(t, "-"@);
    &&& parts.len() == 5
    &&& forall|i: int| 0 <= i < 5 ==> #[trigger] parts[i].len() == uuid_group_len(i) && all_hex(parts[i])
    &&& t.len() == 36
}

/// Whether a value looks like an identifier an IdP assigned rather than a
/// handle a person chose: blank, a hex blob of 16+ characters, a UUID, or a
/// run of 8+ digits.
pub open spec fn opaque_id(s: Seq<char>) -> bool {
    let t = trim(s);
    ||| t.len() == 0
    ||| (t.len() >= 16 && all_hex(t))
    ||| uuid_form(t)
    ||| (t.len() >= 8 && crate::text::all_digits(t))
}

fn chars_all_hex(v: &[char]) -> (r: bool)
    ensures
        r == all_hex(v@),
{
    let mut i: usize = 0;
    while i < v.len()
        invariant
            i <= v.len(),
            forall|j: int| 0 <= j < i ==> is_hex_char(#[trigger] v@[j]),
        decreases v.len() - i,
    {
        let c = v[i];
        if !(('0' <= c && c <= '9') || ('a' <= c && c <= 'f') || ('A' <= c && c <= 'F')) {
            assert(!is_hex_char(v@[i as int]));
            return false;
        }
        i = i + 1;
    }
    true
}

fn chars_all_digits(v: &[char]) -> (r: bool)
    ensures
        r == crate::text::all_digits(v@),
{
    let mut i: usize = 0;
    while i < v.len()
        invariant
            i <= v.len(),
            forall|j: int| 0 <= j < i ==> is_digit(#[trigger] v@[j]),
        decreases v.len() - i,
    {
        let c = v[i];
        if !('0' <= c && c <= '9') {
            assert(!is_digit(v@[i as int]));
            return false;
        }
        i = i + 1;
    }
    true
}

fn chars_opaque(t: &[char]) -> (r: bool)
    requires
        t@ == trim(t@),
    ensures
        r == opaque_id(t@),
{
    if t.len() == 0 {
        return true;
    }
    if t.len() >= 16 && chars_all_hex(t) {
        return true;
    }
    let dash = chars_of("-");
    let parts = split_chars(t, dash.as_slice());
    let mut uuid = parts.len() == 5 && t.len() == 36;
    if uuid {
        let mut i: usize = 0;
        while i < 5
            invariant
                i <= 5,
                parts@.len() == 5,
                uuid ==> forall|j: int|
                    0 <= j < i ==> #[trigger] views(parts@)[j].len() == uuid_group_len(j)
                        && all_hex(views(parts@)[j]),
                !uuid ==> exists|j: int|
                    0 <= j < i && !(#[trigger] views(parts@)[j].len() == uuid_group_len(j)
                        && all_hex(views(parts@)[j])),
            decreases 5 - i,
        {
            assert(views(parts@)[i as int] == parts@[i as int]@);
            let want: usize = if i == 0 {
                8
            } else if i == 4 {
                12
            } else {
                4
            };
            if !(parts[i].len() == want && chars_all_hex(parts[i].as_slice())) {
                uuid = false;
            }
            i = i + 1;
        }
    }
    if uuid {
        return true;
    }
    t.len() >= 8 && chars_all_digits(t)
}

/// Whether `s` looks like an opaque IdP-assigned identifier.
pub fn looks_like_opaque_id(s: &str) -> (r: bool)
    ensures
        r == opaque_id(s@),
{
    let v = chars_of(s);
    let t = trim_chars(v.as_slice());
    proof {
        crate::text::lemma_trim_idempotent(v@);
    }
    chars_opaque(t.as_slice())
}

/// A candidate, trimmed, when it is a usable readable handle.
pub open spec fn usable_handle(v: Option<Seq<char>>) -> Option<Seq<char>> {
    match v {
        Some(x) => if trim(x).len() > 0 && !opaque_id(trim(x)) {
            Some(trim(x))
        } else {
            None
        },
        None => None,
    }
}

/// What precedes the first `@` (all of it when there is none).
pub open spec fn before_at(e: Seq<char>) -> Seq<char> {
    let i = find_from(e, "@"@, 0);
    if i < 0 {
        e
    } else {
        e.take(i)
    }
}

/// The first usable handle among the preferred username, the nickname, the
/// name, and the local part of the email.
pub open spec fn hint_from_candidates(
    preferred_username: Option<Seq<char>>,
    nickname: Option<Seq<char>>,
    name: Option<Seq<char>>,
    email: Option<Seq<char>>,
) -> Option<Seq<char>> {
    if usable_handle(preferred_username) is Some {
        usable_handle(preferred_username)
    } else if usable_handle(nickname) is Some {
        usable_handle(nickname)
    } else if usable_handle(name) is Some {
        usable_handle(name)
    } else {
        match email {
            Some(e) => usable_handle(Some(before_at(e))),
            None => None,
        }
    }
}

pub open spec fn opt_view(o: Option<&str>) -> Option<Seq<char>> {
    match o {
        Some(s) => Some(s@),
        None => None,
    }
}

fn usable(v: Option<&str>) -> (r: Option<String>)
    ensures
        match r {
            Some(s) => usable_handle(opt_view(v)) == Some(s@),
            None => usable_handle(opt_view(v)) is None,
        },
{
    match v {
        Some(x) => {
            let c = chars_of(x);
            let t = trim_chars(c.as_slice());
            proof {
                crate::text::lemma_trim_idempotent(c@);
            }
            if t.len() > 0 && !chars_opaque(t.as_slice()) {
                Some(string_of(t.as_slice()))
            } else {
                None
            }
        },
        None => None,
    }
}

/// Pick a readable local username from candidate claims, skipping blank and
/// opaque values; `None` when nothing qualifies.
pub fn username_hint_from_candidates(
    preferred_username: Option<&str>,
    nickname: Option<&str>,
    name: Option<&str>,
    email: Option<&str>,
) -> (r: Option<String>)
    ensures
        match r {
            Some(s) => hint_from_candidates(
                opt_view(preferred_username),
                opt_view(nickname),
                opt_view(name),
                opt_view(email),
            ) == Some(s@),
            None => hint_from_candidates(
                opt_view(preferred_username),
                opt_view(nickname),
                opt_view(name),
                opt_view(email),
            ) is None,
        },
{
    if let Some(v) = usable(preferred_username) {
        return Some(v);
    }
    if let Some(v) = usable(nickname) {
        return Some(v);
    }
    if let Some(v) = usable(name) {
        return Some(v);
    }
    match email {
        Some(e) => {
            let c = chars_of(e);
            let at = chars_of("@");
            let local = match find_chars_from(c.as_slice(), at.as_slice(), 0) {
                Some(i) => {
                    proof {
                        crate::text::lemma_find_from(c@, at@, 0);
                    }
                    sub_chars(c.as_slice(), 0, i)
                },
                None => c,
            };
            assert(local@ =~= before_at(e@));
            let ls = string_of(local.as_slice());
            usable(Some(ls.as_str()))
        },
        None => None,
    }
}

/// ASCII letters and digits.
pub open spec fn is_ascii_alnum(c: char) -> bool {
    is_digit(c) || ('a' <= c && c <= 'z') || ('A' <= c && c <= 'Z')
}

/// The ASCII letters and digits of `s`, in order.
pub open spec fn alnum_only(s: Seq<char>) -> Seq<char>
    decreases s.len(),
{
    if s.len() == 0 {
        Seq::empty()
    } else if is_ascii_alnum(s.last()) {
        alnum_only(s.drop_last()).push(s.last())
    } else {
        alnum_only(s.drop_last())
    }
}

/// The last-resort handle for a subject with no readable profile:
/// `user-` and the first eight letters or digits of the subject in
/// lowercase, or `user` when it has none.
pub open spec fn subject_handle(subject: Seq<char>) -> Seq<char> {
    let cleaned = alnum_only(trim(subject));
    if cleaned.len() == 0 {
        "user"@
    } else {
        "user-"@ + lower(cleaned.take(if cleaned.len() < 8 {
            cleaned.len() as int
        } else {
            8
        }))
    }
}

/// A short, stable, readable handle derived from an opaque subject.
pub fn username_fallback_from_subject(subject: &str) -> (r: String)
    ensures
        r@ == subject_handle(subject@),
{
    let v = chars_of(subject);
    let t = trim_chars(v.as_slice());
    let mut cleaned: Vec<char> = Vec::new();
    let mut i: usize = 0;
    while i < t.len()
        invariant
            i <= t.len(),
            cleaned@ == alnum_only(t@.take(i as int)),
        decreases t.len() - i,
    {
        let c = t[i];
        assert(t@.take(i + 1).drop_last() =~= t@.take(i as int));
        if ('0' <= c && c <= '9') || ('a' <= c && c <= 'z') || ('A' <= c && c <= 'Z') {
            cleaned.push(c);
        }
        i = i + 1;
    }
    assert(t@.take(t.len() as int) =~= t@);
    if cleaned.len() == 0 {
        return String::from_str("user");
    }
    let n: usize = if cleaned.len() < 8 {
        cleaned.len()
    } else {
        8
    };
    let mut out = chars_of("user-");
    let head = sub_chars(cleaned.as_slice(), 0, n);
    assert(head@ =~= cleaned@.take(n as int));
    let low = chars_lower(head.as_slice());
    append_chars(&mut out, low.as_slice());
    string_of(out.as_slice())
}

/// Profile fields read from a provider's UserInfo endpoint.
#[derive(Clone, Debug, Default)]
pub struct UserInfoProfile {
    pub preferred_username: Option<String>,
    pub nickname: Option<String>,
    pub name: Option<String>,
    pub email: Option<String>,
}

impl UserInfoProfile {
    /// The profile a UserInfo response yields: each claim trimmed, and left
    /// out when blank.
    pub fn from_claims(
        preferred_username: Option<&str>,
        nickname: Option<&str>,
        name: Option<&str>,
        email: Option<&str>,
    ) -> (r: Self)
        ensures
            opt_string_view(r.preferred_username) == opt_nonblank(opt_view(preferred_username)),
            opt_string_view(r.nickname) == opt_nonblank(opt_view(nickname)),
            opt_string_view(r.name) == opt_nonblank(opt_view(name)),
            opt_string_view(r.email) == opt_nonblank(opt_view(email)),
    {
        UserInfoProfile {
            preferred_username: nonblank_str(preferred_username),
            nickname: nonblank_str(nickname),
            name: nonblank_str(name),
            email: nonblank_str(email),
        }
    }

    /// True when the profile carries no identity field at all.
    pub fn is_empty(&self) -> (r: bool)
        ensures
            r == (self.preferred_username is None && self.nickname is None && self.name is None
                && self.email is None),
    {
        self.preferred_username.is_none() && self.nickname.is_none() && self.name.is_none()
            && self.email.is_none()
    }
}

/// The payload bytes of a compact JWT: the middle of exactly three
/// dot-separated parts, decoded as URL-safe base64 without padding.
pub open spec fn id_token_payload_of(token: Seq<char>) -> Option<Seq<u8>> {
    let parts = split(token, "."@);
    if parts.len() == 3 {
        base64_url_decoded(encode_utf8(parts[1]))
    } else {
        None
    }
}

/// The raw payload bytes of a compact ID token, `None` when the token does
/// not have three parts or the payload is not valid base64.
pub fn id_token_payload(id_token: &str) -> (r: Option<Vec<u8>>)
    ensures
        match r {
            Some(b) => id_token_payload_of(id_token@) == Some(b@),
            None => id_token_payload_of(id_token@) is None,
        },
{
    let v = chars_of(id_token);
    let dot = chars_of(".");
    let parts = split_chars(v.as_slice(), dot.as_slice());
    if parts.len() != 3 {
        return None;
    }
    let payload = string_of(parts[1].as_slice());
    assert(views(parts@)[1] == parts@[1]@);
    base64_url_decode(payload.as_str().as_bytes())
}

/// The groups a token payload grants under `claim`: the trimmed, non-blank
/// strings of an array, or the trimmed, non-blank comma-separated pieces of a
/// string; nothing for an absent claim or any other shape.
pub open spec fn claim_groups(payload: Option<JsonValue>, claim: Seq<char>) -> Seq<Seq<char>> {
    match payload {
        Some(p) => match p.spec_get(claim) {
            Some(JsonValue::Array(items)) => nonempty_trimmed(string_items(items@)),
            Some(JsonValue::Str(s)) => nonempty_trimmed(split(s@, ","@)),
            _ => Seq::empty(),
        },
        None => Seq::empty(),
    }
}

/// Read the group-membership claim from a verified token's decoded payload
/// (`None` when the payload could not be decoded).
pub fn groups_from_claims(payload: Option<&JsonValue>, claim: &str) -> (r: Vec<String>)
    ensures
        string_views(r@) == claim_groups(
            match payload {
                Some(p) => Some(*p),
                None => None,
            },
            claim@,
        ),
{
    match payload {
        Some(p) => match p.get(claim) {
            Some(JsonValue::Array(items)) => {
                let all = strings_in(items);
                trimmed_nonblank(&all)
            },
            Some(JsonValue::Str(s)) => split_trim_nonempty(s.as_str(), ","),
            _ => Vec::new(),
        },
        None => Vec::new(),
    }
}

/// A trimmed non-blank string, or `None`.
pub open spec fn nonblank(s: Seq<char>) -> Option<Seq<char>> {
    if trim(s).len() > 0 {
        Some(trim(s))
    } else {
        None
    }
}

/// An optional value, trimmed, and `None` when blank.
pub open spec fn opt_nonblank(o: Option<Seq<char>>) -> Option<Seq<char>> {
    match o {
        Some(s) => nonblank(s),
        None => None,
    }
}

fn nonblank_str(o: Option<&str>) -> (r: Option<String>)
    ensures
        opt_string_view(r) == opt_nonblank(opt_view(o)),
{
    match o {
        Some(s) => {
            let c = chars_of(s);
            let t = trim_chars(c.as_slice());
            if t.len() > 0 {
                Some(string_of(t.as_slice()))
            } else {
                None
            }
        },
        None => None,
    }
}

/// A profile claim of the payload: a non-blank string, or the non-blank
/// string `value` of a localized object, trimmed.
pub open spec fn claim_pick(payload: Option<JsonValue>, key: Seq<char>) -> Option<Seq<char>> {
    match payload {
        Some(p) => match p.spec_get(key) {
            Some(JsonValue::Str(s)) => nonblank(s@),
            Some(JsonValue::Object(fields)) => match field_lookup(fields@, "value"@) {
                Some(JsonValue::Str(s)) => nonblank(s@),
                _ => None,
            },
            _ => None,
        },
        None => None,
    }
}

fn nonblank_of(s: &String) -> (r: Option<String>)
    ensures
        match r {
            Some(t) => nonblank(s@) == Some(t@),
            None => nonblank(s@) is None,
        },
{
    let c = chars_of(s.as_str());
    let t = trim_chars(c.as_slice());
    if t.len() > 0 {
        Some(string_of(t.as_slice()))
    } else {
        None
    }
}

fn pick_claim(payload: Option<&JsonValue>, key: &str) -> (r: Option<String>)
    ensures
        opt_string_view(r) == claim_pick(
            match payload {
                Some(p) => Some(*p),
                None => None,
            },
            key@,
        ),
{
    match payload {
        Some(p) => match p.get(key) {
            Some(v) => match v {
                JsonValue::Str(s) => nonblank_of(s),
                JsonValue::Object(_) => match v.get("value") {
                    Some(JsonValue::Str(s)) => nonblank_of(s),
                    _ => None,
                },
                _ => None,
            },
            None => None,
        },
        None => None,
    }
}

/// The view of an optional owned string.
pub open spec fn opt_string_view(o: Option<String>) -> Option<Seq<char>> {
    match o {
        Some(s) => Some(s@),
        None => None,
    }
}

/// The username hint of a verified ID token: the typed preferred username
/// when the client library decoded one, else the payload's own, then the
/// nickname, the name and the email, chosen as in
/// [`username_hint_from_candidates`].
pub open spec fn claims_hint(typed: Option<Seq<char>>, payload: Option<JsonValue>) -> Option<
    Seq<char>,
> {
    hint_from_candidates(
        match typed {
            Some(t) => Some(t),
            None => claim_pick(payload, "preferred_username"@),
        },
        claim_pick(payload, "nickname"@),
        claim_pick(payload, "name"@),
        claim_pick(payload, "email"@),
    )
}

/// Pick a readable username hint from a verified token's decoded payload and
/// the preferred username the client library decoded.
pub fn username_hint_from_claims(
    typed_preferred_username: Option<&str>,
    payload: Option<&JsonValue>,
) -> (r: Option<String>)
    ensures
        opt_string_view(r) == claims_hint(
            opt_view(typed_preferred_username),
            match payload {
                Some(p) => Some(*p),
                None => None,
            },
        ),
{
    let raw_preferred = pick_claim(payload, "preferred_username");
    let nickname = pick_claim(payload, "nickname");
    let name = pick_claim(payload, "name");
    let email = pick_claim(payload, "email");
    let preferred: Option<&str> = match typed_preferred_username {
        Some(t) => Some(t),
        None => match &raw_preferred {
            Some(s) => Some(s.as_str()),
            None => None,
        },
    };
    username_hint_from_candidates(
        preferred,
        match &nickname {
            Some(s) => Some(s.as_str()),
            None => None,
        },
        match &name {
            Some(s) => Some(s.as_str()),
            None => None,
        },
        match &email {
            Some(s) => Some(s.as_str()),
            None => None,
        },
    )
}

/// The redirect URI derived from the request: the forwarded protocol (when
/// non-empty) or the request's scheme or `https`; the forwarded host (when
/// non-empty) or the request's authority or `localhost`; then the base path
/// without trailing slashes and the callback path.
pub open spec fn derived_redirect(
    base_path: Seq<char>,
    forwarded_proto: Option<Seq<char>>,
    forwarded_host: Option<Seq<char>>,
    uri_scheme: Option<Seq<char>>,
    uri_authority: Option<Seq<char>>,
) -> Seq<char> {
    let scheme = match forwarded_proto {
        Some(p) if p.len() > 0 => p,
        _ => match uri_scheme {
            Some(s) => s,
            None => "https"@,
        },
    };
    let host = match forwarded_host {
        Some(h) if h.len() > 0 => h,
        _ => match uri_authority {
            Some(a) => a,
            None => "localhost"@,
        },
    };
    scheme + "://"@ + host + trim_end_char(base_path, '/') + OIDC_CALLBACK_PATH@
}

/// Compute the redirect URI handed to the identity provider from the
/// `X-Forwarded-Proto` / `X-Forwarded-Host` header values and the request
/// URI's scheme and authority.
pub fn derive_redirect_uri(
    base_path: &str,
    forwarded_proto: Option<&str>,
    forwarded_host: Option<&str>,
    uri_scheme: Option<&str>,
    uri_authority: Option<&str>,
) -> (r: String)
    ensures
        r@ == derived_redirect(
            base_path@,
            opt_view(forwarded_proto),
            opt_view(forwarded_host),
            opt_view(uri_scheme),
            opt_view(uri_authority),
        ),
{
    let scheme: &str = match forwarded_proto {
        Some(p) if !p.is_empty() => p,
        _ => match uri_scheme {
            Some(s) => s,
            None => "https",
        },
    };
    let host: &str = match forwarded_host {
        Some(h) if !h.is_empty() => h,
        _ => match uri_authority {
            Some(a) => a,
            None => "localhost",
        },
    };
    let mut out: Vec<char> = Vec::new();
    append_str(&mut out, scheme);
    append_str(&mut out, "://");
    append_str(&mut out, host);
    let bp = chars_of(base_path);
    let base = chars_trim_end_char(bp.as_slice(), '/');
    append_chars(&mut out, base.as_slice());
    append_str(&mut out, OIDC_CALLBACK_PATH);
    string_of(out.as_slice())
}

/// The redirect URI a request uses: the configured one, trimmed, when it is
/// not blank; otherwise the derived one.
pub open spec fn effective_redirect(
    configured: Seq<char>,
    base_path: Seq<char>,
    forwarded_proto: Option<Seq<char>>,
    forwarded_host: Option<Seq<char>>,
    uri_scheme: Option<Seq<char>>,
    uri_authority: Option<Seq<char>>,
) -> Seq<char> {
    if trim(configured).len() > 0 {
        trim(configured)
    } else {
        derived_redirect(base_path, forwarded_proto, forwarded_host, uri_scheme, uri_authority)
    }
}

/// Resolve the redirect URI for a request; the start and the callback both
/// call this so they agree.
pub fn effective_redirect_uri(
    oidc: &OidcConfig,
    base_path: &str,
    forwarded_proto: Option<&str>,
    forwarded_host: Option<&str>,
    uri_scheme: Option<&str>,
    uri_authority: Option<&str>,
) -> (r: String)
    ensures
        r@ == effective_redirect(
            oidc.redirect_uri@,
            base_path@,
            opt_view(forwarded_proto),
            opt_view(forwarded_host),
            opt_view(uri_scheme),
            opt_view(uri_authority),
        ),
{
    let c = chars_of(oidc.redirect_uri.as_str());
    let t = trim_chars(c.as_slice());
    if t.len() > 0 {
        string_of(t.as_slice())
    } else {
        derive_redirect_uri(base_path, forwarded_proto, forwarded_host, uri_scheme, uri_authority)
    }
}

/// The `Set-Cookie` value that carries the raw state to the callback: lax
/// same-site so it survives the provider's redirect, living as long as the
/// login state.
pub fn state_cookie(raw_state: &str, secure: bool) -> (r: String)
    ensures
        r@ == OIDC_STATE_COOKIE@ + "="@ + raw_state@ + "; Path=/; HttpOnly; SameSite=Lax; Max-Age=300"@
            + secure_suffix(secure),
{
    let mut out: Vec<char> = Vec::new();
    append_str(&mut out, OIDC_STATE_COOKIE);
    append_str(&mut out, "=");
    append_str(&mut out, raw_state);
    append_str(&mut out, "; Path=/; HttpOnly; SameSite=Lax; Max-Age=300");
    if secure {
        append_str(&mut out, "; Secure");
    } else {
        assert(out@ + Seq::<char>::empty() =~= out@);
    }
    string_of(out.as_slice())
}

/// The `Set-Cookie` value that clears the state cookie.
pub fn clear_oidc_cookie(secure: bool) -> (r: String)
    ensures
        r@ == OIDC_STATE_COOKIE@ + "=; Path=/; HttpOnly; SameSite=Lax; Max-Age=0"@ + secure_suffix(
            secure,
        ),
{
    let mut out: Vec<char> = Vec::new();
    append_str(&mut out, OIDC_STATE_COOKIE);
    append_str(&mut out, "=; Path=/; HttpOnly; SameSite=Lax; Max-Age=0");
    if secure {
        append_str(&mut out, "; Secure");
    } else {
        assert(out@ + Seq::<char>::empty() =~= out@);
    }
    string_of(out.as_slice())
}

/// When a login state created at `now` (Unix seconds) expires.
pub fn login_state_expires_at(now: i64) -> (r: i64)
    requires
        now <= i64::MAX - OIDC_STATE_TTL_SECS,
    ensures
        r == now + OIDC_STATE_TTL_SECS,
{
    now + OIDC_STATE_TTL_SECS
}

/// Why a callback ends on the failure page, without a session.
#[derive(Clone, Copy, Debug, PartialEq, Eq, Structural)]
pub enum CallbackFailure {
    ProviderError,
    MissingCode,
    MissingState,
    StateMismatch,
    StateCookieMissing,
    StateInvalid,
    IntegrityFailed,
    RedirectMismatch,
}

impl CallbackFailure {
    /// The `login_error` code the failure page shows.
    pub open spec fn spec_code(self) -> Seq<char> {
        match self {
            CallbackFailure::ProviderError => "oidc_provider_error"@,
            CallbackFailure::MissingCode => "oidc_missing_code"@,
            CallbackFailure::MissingState => "oidc_missing_state"@,
            CallbackFailure::StateMismatch => "oidc_state_mismatch"@,
            CallbackFailure::StateCookieMissing => "oidc_state_cookie_missing"@,
            CallbackFailure::StateInvalid => "oidc_state_invalid"@,
            CallbackFailure::IntegrityFailed => "oidc_integrity_failed"@,
            CallbackFailure::RedirectMismatch => "oidc_redirect_mismatch"@,
        }
    }

    pub fn code(&self) -> (r: &'static str)
        ensures
            r@ == self.spec_code(),
    {
        match self {
            CallbackFailure::ProviderError => "oidc_provider_error",
            CallbackFailure::MissingCode => "oidc_missing_code",
            CallbackFailure::MissingState => "oidc_missing_state",
            CallbackFailure::StateMismatch => "oidc_state_mismatch",
            CallbackFailure::StateCookieMissing => "oidc_state_cookie_missing",
            CallbackFailure::StateInvalid => "oidc_state_invalid",
            CallbackFailure::IntegrityFailed => "oidc_integrity_failed",
            CallbackFailure::RedirectMismatch => "oidc_redirect_mismatch",
        }
    }
}

/// The first check of a callback's query and state cookie that fails, in
/// the order the callback makes them.
pub open spec fn params_failure(
    error: Option<Seq<char>>,
    code: Option<Seq<char>>,
    state: Option<Seq<char>>,
    cookie_state: Option<Seq<char>>,
) -> Option<CallbackFailure> {
    if error is Some {
        Some(CallbackFailure::ProviderError)
    } else if code is None {
        Some(CallbackFailure::MissingCode)
    } else if state is None {
        Some(CallbackFailure::MissingState)
    } else {
        match cookie_state {
            None => Some(CallbackFailure::StateCookieMissing),
            Some(c) => if c == state.unwrap() {
                None
            } else {
                Some(CallbackFailure::StateMismatch)
            },
        }
    }
}

/// Check the callback's `error`, `code` and `state` parameters and the state
/// cookie: the provider's error, a missing code or state, a missing cookie or
/// one that differs from the state each end the login.
pub fn check_callback_params(
    error: Option<&str>,
    code: Option<&str>,
    state: Option<&str>,
    cookie_state: Option<&str>,
) -> (r: Result<(), CallbackFailure>)
    ensures
        match r {
            Ok(()) => params_failure(
                opt_view(error),
                opt_view(code),
                opt_view(state),
                opt_view(cookie_state),
            ) is None,
            Err(f) => params_failure(
                opt_view(error),
                opt_view(code),
                opt_view(state),
                opt_view(cookie_state),
            ) == Some(f),
        },
{
    if error.is_some() {
        return Err(CallbackFailure::ProviderError);
    }
    if code.is_none() {
        return Err(CallbackFailure::MissingCode);
    }
    let s = match state {
        Some(s) => s,
        None => {
            return Err(CallbackFailure::MissingState);
        },
    };
    match cookie_state {
        None => Err(CallbackFailure::StateCookieMissing),
        Some(c) => if str_eq(c, s) {
            Ok(())
        } else {
            Err(CallbackFailure::StateMismatch)
        },
    }
}

/// The verifier and nonce a callback recomputes, or why the stored login
/// state does not vouch for them: no live row for the state, hashes that do
/// not match the row, or a redirect URI other than the one the login began
/// with.
pub open spec fn login_state_check(
    state: Seq<char>,
    client_secret: Seq<char>,
    stored: Option<OidcLoginState>,
    redirect_uri: Seq<char>,
) -> Result<(Seq<char>, Seq<char>), CallbackFailure> {
    let verifier = pkce_verifier_of(state, client_secret);
    let nonce = nonce_of(state, client_secret);
    match stored {
        None => Err(CallbackFailure::StateInvalid),
        Some(row) => if token_digest(verifier) != row.pkce_verifier_encrypted@ || token_digest(
            nonce,
        ) != row.nonce_hash@ {
            Err(CallbackFailure::IntegrityFailed)
        } else if redirect_uri != row.redirect_uri@ {
            Err(CallbackFailure::RedirectMismatch)
        } else {
            Ok((verifier, nonce))
        },
    }
}

/// Check the stored login state taken for the callback's `state` and return
/// the recomputed PKCE verifier and nonce.
pub fn check_login_state(
    state: &str,
    client_secret: &str,
    stored: Option<&OidcLoginState>,
    redirect_uri: &str,
) -> (r: Result<(String, String), CallbackFailure>)
    ensures
        match r {
            Ok((v, n)) => login_state_check(
                state@,
                client_secret@,
                match stored {
                    Some(s) => Some(*s),
                    None => None,
                },
                redirect_uri@,
            ) == Ok::<(Seq<char>, Seq<char>), CallbackFailure>((v@, n@)),
            Err(f) => login_state_check(
                state@,
                client_secret@,
                match stored {
                    Some(s) => Some(*s),
                    None => None,
                },
                redirect_uri@,
            ) == Err::<(Seq<char>, Seq<char>), CallbackFailure>(f),
        },
{
    let row = match stored {
        Some(row) => row,
        None => {
            return Err(CallbackFailure::StateInvalid);
        },
    };
    let verifier = derive_pkce_verifier(state, client_secret);
    let nonce = derive_nonce(state, client_secret);
    let vh = verifier_hash(verifier.as_str());
    let nh = nonce_hash(nonce.as_str());
    if !str_eq(vh.as_str(), row.pkce_verifier_encrypted.as_str()) || !str_eq(
        nh.as_str(),
        row.nonce_hash.as_str(),
    ) {
        return Err(CallbackFailure::IntegrityFailed);
    }
    if !str_eq(redirect_uri, row.redirect_uri.as_str()) {
        return Err(CallbackFailure::RedirectMismatch);
    }
    Ok((verifier, nonce))
}

/// Whether the callback still asks the UserInfo endpoint: the token gave no
/// username hint or no email.
pub fn needs_user_info(username_hint: &Option<String>, email: &Option<String>) -> (r: bool)
    ensures
        r == (username_hint is None || email is None),
{
    username_hint.is_none() || email.is_none()
}

/// The username and email a login ends with: the token's hint and email
/// first, then the UserInfo profile's email and its candidates, and the
/// handle derived from the subject as the last resort.
pub open spec fn settled_identity(
    username_hint: Option<Seq<char>>,
    email: Option<Seq<char>>,
    profile: Option<UserInfoProfile>,
    subject: Seq<char>,
) -> (Seq<char>, Option<Seq<char>>) {
    let email2 = match email {
        Some(e) => Some(e),
        None => match profile {
            Some(p) => opt_string_view(p.email),
            None => None,
        },
    };
    let hint2 = match username_hint {
        Some(h) => Some(h),
        None => match profile {
            Some(p) => hint_from_candidates(
                opt_string_view(p.preferred_username),
                opt_string_view(p.nickname),
                opt_string_view(p.name),
                opt_string_view(p.email),
            ),
            None => None,
        },
    };
    (
        match hint2 {
            Some(h) => h,
            None => subject_handle(subject),
        },
        email2,
    )
}

fn as_opt_str(o: &Option<String>) -> (r: Option<&str>)
    ensures
        opt_view(r) == opt_string_view(*o),
{
    match o {
        Some(s) => Some(s.as_str()),
        None => None,
    }
}

/// Settle the username and email of a verified login from the token's hint
/// and email, the UserInfo profile when one was fetched, and the subject.
pub fn settle_identity(
    username_hint: Option<String>,
    email: Option<String>,
    profile: Option<&UserInfoProfile>,
    subject: &str,
) -> (r: (String, Option<String>))
    ensures
        (r.0@, opt_string_view(r.1)) == settled_identity(
            opt_string_view(username_hint),
            opt_string_view(email),
            match profile {
                Some(p) => Some(*p),
                None => None,
            },
            subject@,
        ),
{
    let email2: Option<String> = match email {
        Some(e) => Some(e),
        None => match profile {
            Some(p) => p.email.clone(),
            None => None,
        },
    };
    let hint2: Option<String> = match username_hint {
        Some(h) => Some(h),
        None => match profile {
            Some(p) => username_hint_from_candidates(
                as_opt_str(&p.preferred_username),
                as_opt_str(&p.nickname),
                as_opt_str(&p.name),
                as_opt_str(&p.email),
            ),
            None => None,
        },
    };
    let name = match hint2 {
        Some(h) => h,
        None => username_fallback_from_subject(subject),
    };
    (name, email2)
}

/// A lowercase ASCII letter or digit, or `-`.
pub open spec fn is_handle_char(c: char) -> bool {
    is_digit(c) || ('a' <= c && c <= 'z') || c == '-'
}

proof fn lemma_lower_alnum(c: char)
    requires
        is_ascii_alnum(c),
    ensures
        is_handle_char(lower_char(c)),
        !crate::text::is_ws(lower_char(c)),
{
    if 'A' <= c && c <= 'Z' {
        assert((((c as u32) + 32) as char) as u32 == (c as u32) + 32);
    }
}

/// The handle derived from a subject is made of lowercase letters, digits
/// and `-` only, and never looks like an opaque id.
pub proof fn law_fallback_handle_is_readable(subject: Seq<char>)
    ensures
        !opaque_id(subject_handle(subject)),
        forall|i: int| 0 <= i < subject_handle(subject).len() ==> is_handle_char(
            #[trigger] subject_handle(subject)[i],
        ),
{
    reveal_strlit("user");
    reveal_strlit("user-");
    let h = subject_handle(subject);
    let cleaned = alnum_only(trim(subject));
    lemma_alnum_only(trim(subject));
    assert(h[0] == 'u');
    assert(h.len() <= 13);
    if cleaned.len() > 0 {
        let n = if cleaned.len() < 8 {
            cleaned.len() as int
        } else {
            8
        };
        let low = lower(cleaned.take(n));
        assert(h =~= "user-"@ + low);
        assert forall|i: int| 0 <= i < h.len() implies is_handle_char(#[trigger] h[i]) by {
            if i >= 5 {
                assert(h[i] == low[i - 5]);
                assert(low[i - 5] == lower_char(cleaned[i - 5]));
                lemma_lower_alnum(cleaned[i - 5]);
            }
        }
        assert(h.last() == low[n - 1]);
        lemma_lower_alnum(cleaned[n - 1]);
    }
    assert(!crate::text::is_ws(h.last()));
    crate::text::lemma_trim_unchanged(h);
    assert(!crate::text::is_digit(h[0]));
    assert(!is_hex_char(h[0]));
}

proof fn lemma_alnum_only(s: Seq<char>)
    ensures
        forall|i: int| 0 <= i < alnum_only(s).len() ==> is_ascii_alnum(#[trigger] alnum_only(s)[i]),
    decreases s.len(),
{
    if s.len() > 0 {
        lemma_alnum_only(s.drop_last());
        let prev = alnum_only(s.drop_last());
        if is_ascii_alnum(s.last()) {
            assert forall|i: int| 0 <= i < alnum_only(s).len() implies is_ascii_alnum(
                #[trigger] alnum_only(s)[i],
            ) by {
                if i < prev.len() {
                    assert(alnum_only(s)[i] == prev[i]);
                }
            }
        }
    }
}

/// A username hint, when there is one, is not blank and does not look like
/// an opaque id.
pub proof fn law_hint_is_readable(
    preferred_username: Option<Seq<char>>,
    nickname: Option<Seq<char>>,
    name: Option<Seq<char>>,
    email: Option<Seq<char>>,
)
    ensures
        match hint_from_candidates(preferred_username, nickname, name, email) {
            Some(h) => h.len() > 0 && !opaque_id(h),
            None => true,
        },
{
    match preferred_username {
        Some(v) => crate::text::lemma_trim_idempotent(v),
        None => {},
    }
    match nickname {
        Some(v) => crate::text::lemma_trim_idempotent(v),
        None => {},
    }
    match name {
        Some(v) => crate::text::lemma_trim_idempotent(v),
        None => {},
    }
    match email {
        Some(v) => crate::text::lemma_trim_idempotent(before_at(v)),
        None => {},
    }
}

/// A login state written at the start of a login vouches, at the callback,
/// for the verifier and nonce the state derives: the callback accepts the
/// row the start stored when it comes back with the same redirect URI.
pub proof fn law_login_state_round_trip(
    state: Seq<char>,
    client_secret: Seq<char>,
    row: OidcLoginState,
    redirect_uri: Seq<char>,
)
    requires
        row.pkce_verifier_encrypted@ == token_digest(pkce_verifier_of(state, client_secret)),
        row.nonce_hash@ == token_digest(nonce_of(state, client_secret)),
        row.redirect_uri@ == redirect_uri,
    ensures
        login_state_check(state, client_secret, Some(row), redirect_uri) == Ok::<
            (Seq<char>, Seq<char>),
            CallbackFailure,
        >((pkce_verifier_of(state, client_secret), nonce_of(state, client_secret))),
{
}

/// A callback whose query carries a code and a state passes the parameter
/// checks exactly when the state cookie holds that state.
pub proof fn law_state_cookie_must_match(code: Seq<char>, state: Seq<char>, cookie: Seq<char>)
    ensures
        params_failure(None, Some(code), Some(state), Some(cookie)) is None <==> cookie == state,
{
}

} // verus!
