//! Trusted reverse-proxy header authentication: reading the identity headers,
//! deciding whether their source is trusted, and what the request does next.
//!
//! Headers are given as `(name, value)` pairs the way an HTTP header map holds
//! them (names in lowercase, values that are visible ASCII); a name is looked
//! up ignoring ASCII case.

use vstd::prelude::*;

use crate::api::ApiError;
use crate::config::{HeaderAuthConfig, IpAddress, ip_eq};
use crate::oidc::opt_string_view;
use crate::text::{
    chars_eq, chars_lower, chars_of, chars_starts_with, lower, nonempty_trimmed, split,
    split_trim_nonempty, starts_with, string_of, string_views, trim, trim_chars,
};

verus! {

/// Identity read from the configured headers.
#[derive(Clone, Debug, PartialEq, Eq)]
pub struct HeaderIdentity {
    /// The authenticated username (the mandatory part).
    pub username: String,
    pub email: Option<String>,
    pub groups: Vec<String>,
}

/// Split a groups header on `separator` into trimmed, non-empty parts.
pub fn parse_groups(value: &str, separator: &str) -> (r: Vec<String>)
    ensures
        string_views(r@) == nonempty_trimmed(split(value@, separator@)),
{
    split_trim_nonempty(value, separator)
}

/// Whether `remote` is one of the trusted proxy addresses.
pub fn source_is_trusted(remote: IpAddress, trusted: &[IpAddress]) -> (r: bool)
    ensures
        r == trusted@.contains(remote),
{
    let mut i: usize = 0;
    while i < trusted.len()
        invariant
            i <= trusted.len(),
            forall|k: int| 0 <= k < i ==> trusted@[k] != remote,
        decreases trusted.len() - i,
    {
        if ip_eq(trusted[i], remote) {
            assert(trusted@[i as int] == remote);
            return true;
        }
        i = i + 1;
    }
    false
}

/// Whether a stored header name is `name`, ignoring ASCII case.
pub open spec fn same_header(stored: Seq<char>, name: Seq<char>) -> bool {
    lower(stored) == lower(name)
}

/// The first value of header `name`.
pub open spec fn header_of(headers: Seq<(String, String)>, name: Seq<char>) -> Option<Seq<char>>
    decreases headers.len(),
{
    if headers.len() == 0 {
        None
    } else if same_header(headers[0].0@, name) {
        Some(headers[0].1@)
    } else {
        header_of(headers.drop_first(), name)
    }
}

fn header_matches(stored: &str, wanted: &[char]) -> (r: bool)
    ensures
        r == (lower(stored@) == wanted@),
{
    let c = chars_of(stored);
    let l = chars_lower(c.as_slice());
    chars_eq(l.as_slice(), wanted)
}

/// The first value of header `name`, cloned.
pub fn header_value(headers: &Vec<(String, String)>, name: &str) -> (r: Option<String>)
    ensures
        opt_string_view(r) == header_of(headers@, name@),
{
    let n = chars_of(name);
    let wanted = chars_lower(n.as_slice());
    let mut i: usize = 0;
    assert(headers@.skip(0) =~= headers@);
    while i < headers.len()
        invariant
            i <= headers.len(),
            wanted@ == lower(name@),
            header_of(headers@, name@) == header_of(headers@.skip(i as int), name@),
        decreases headers.len() - i,
    {
        assert(headers@.skip(i as int)[0] == headers@[i as int]);
        if header_matches(headers[i].0.as_str(), wanted.as_slice()) {
            return Some(headers[i].1.clone());
        }
        assert(headers@.skip(i as int).drop_first() =~= headers@.skip(i + 1));
        i = i + 1;
    }
    None
}

/// The identity the headers carry: a non-blank user header (trimmed), a
/// non-blank email header (trimmed), and the parsed groups header.
pub open spec fn identity_of(headers: Seq<(String, String)>, cfg: HeaderAuthConfig) -> Option<
    (Seq<char>, Option<Seq<char>>, Seq<Seq<char>>),
> {
    match header_of(headers, cfg.user_header@) {
        None => None,
        Some(u) => if trim(u).len() == 0 {
            None
        } else {
            Some(
                (
                    trim(u),
                    match header_of(headers, cfg.email_header@) {
                        Some(e) => if trim(e).len() > 0 {
                            Some(trim(e))
                        } else {
                            None
                        },
                        None => None,
                    },
                    match header_of(headers, cfg.groups_header@) {
                        Some(g) => nonempty_trimmed(split(g, cfg.groups_separator@)),
                        None => Seq::empty(),
                    },
                ),
            )
        },
    }
}

/// The view of an identity.
pub open spec fn identity_view(id: HeaderIdentity) -> (Seq<char>, Option<Seq<char>>, Seq<Seq<char>>) {
    (id.username@, opt_string_view(id.email), string_views(id.groups@))
}

/// Read the identity from the headers when the user header is present and
/// not blank; `None` leaves the request to the ordinary cookie session.
pub fn extract_header_identity(headers: &Vec<(String, String)>, cfg: &HeaderAuthConfig) -> (r:
    Option<HeaderIdentity>)
    ensures
        match r {
            Some(id) => identity_of(headers@, *cfg) == Some(identity_view(id)),
            None => identity_of(headers@, *cfg) is None,
        },
{
    let user = match header_value(headers, cfg.user_header.as_str()) {
        Some(u) => u,
        None => {
            return None;
        },
    };
    let uc = chars_of(user.as_str());
    let ut = trim_chars(uc.as_slice());
    if ut.len() == 0 {
        return None;
    }
    let email = match header_value(headers, cfg.email_header.as_str()) {
        Some(e) => {
            let ec = chars_of(e.as_str());
            let et = trim_chars(ec.as_slice());
            if et.len() > 0 {
                Some(string_of(et.as_slice()))
            } else {
                None
            }
        },
        None => None,
    };
    let groups = match header_value(headers, cfg.groups_header.as_str()) {
        Some(g) => parse_groups(g.as_str(), cfg.groups_separator.as_str()),
        None => Vec::new(),
    };
    proof {
        if header_of(headers@, cfg.groups_header@) is None {
            assert(string_views(groups@) =~= Seq::<Seq<char>>::empty());
        }
    }
    Some(HeaderIdentity { username: string_of(ut.as_slice()), email, groups })
}

/// Whether a header is one of the three identity headers.
pub open spec fn is_identity_header(name: Seq<char>, cfg: HeaderAuthConfig) -> bool {
    same_header(name, cfg.user_header@) || same_header(name, cfg.email_header@) || same_header(
        name,
        cfg.groups_header@,
    )
}

/// The headers without any identity header.
pub open spec fn without_identity(headers: Seq<(String, String)>, cfg: HeaderAuthConfig) -> Seq<
    (String, String),
> {
    headers.filter(|p: (String, String)| !is_identity_header(p.0@, cfg))
}

/// Remove every client-supplied copy of the identity headers, so a spoofed
/// `Remote-User` never reaches the application; other headers stay.
pub fn strip_identity_headers(headers: &mut Vec<(String, String)>, cfg: &HeaderAuthConfig)
    ensures
        final(headers)@ == without_identity(old(headers)@, *cfg),
{
    let uc = chars_of(cfg.user_header.as_str());
    let u = chars_lower(uc.as_slice());
    let ec = chars_of(cfg.email_header.as_str());
    let e = chars_lower(ec.as_slice());
    let gc = chars_of(cfg.groups_header.as_str());
    let g = chars_lower(gc.as_slice());
    let ghost start = headers@;
    let ghost mut j: int = 0;
    let mut i: usize = 0;
    while i < headers.len()
        invariant
            0 <= j <= start.len(),
            i == without_identity(start.take(j), *cfg).len(),
            u@ == lower(cfg.user_header@),
            e@ == lower(cfg.email_header@),
            g@ == lower(cfg.groups_header@),
            headers@ == without_identity(start.take(j), *cfg) + start.skip(j),
        decreases start.len() - j,
    {
        let ghost kept = without_identity(start.take(j), *cfg);
        assert(headers@[i as int] == start[j]);
        let name = headers[i].0.as_str();
        let hit = header_matches(name, u.as_slice()) || header_matches(name, e.as_slice())
            || header_matches(name, g.as_slice());
        proof {
            reveal(Seq::filter);
            assert(start.take(j + 1).drop_last() =~= start.take(j));
            assert(start.take(j + 1).last() == start[j]);
        }
        if hit {
            headers.remove(i);
            assert(headers@ =~= kept + start.skip(j + 1));
        } else {
            assert(without_identity(start.take(j + 1), *cfg) == kept.push(start[j]));
            assert(headers@ =~= kept.push(start[j]) + start.skip(j + 1));
            i = i + 1;
        }
        proof {
            j = j + 1;
        }
    }
    proof {
        if j < start.len() {
            assert(headers@.len() == i + start.len() - j);
        }
        assert(start.take(start.len() as int) =~= start);
        assert(start.skip(start.len() as int) =~= Seq::<(String, String)>::empty());
    }
}

/// What the header-auth middleware does with a request before resolving
/// anyone.
#[derive(Clone, Debug)]
pub enum HeaderGate {
    /// Header auth off, an auth-management path, or no identity headers: the
    /// request goes on untouched.
    PassThrough,
    /// Identity headers from an untrusted source while a trusted proxy is
    /// required: strip them and answer 403 `untrusted_proxy_header`.
    RefuseUntrusted(HeaderIdentity),
    /// Identity headers from an untrusted source, not required: strip them
    /// and go on.
    StripAndContinue,
    /// Identity headers from a trusted proxy: resolve this identity.
    Resolve(HeaderIdentity),
}

impl HeaderGate {
    /// The answer the decision gives without going on to the handler: identity
    /// headers from an untrusted source while a trusted proxy is required are
    /// refused with 403 `untrusted_proxy_header` (and recorded as refused for
    /// `untrusted_source`); every other decision lets the request go on.
    pub fn refusal(&self) -> (r: Option<ApiError>)
        ensures
            match *self {
                HeaderGate::RefuseUntrusted(_) => r == Some(
                    ApiError::Forbidden(
                        "untrusted_proxy_header",
                        "Identity headers from an untrusted source are not accepted",
                    ),
                ),
                _ => r is None,
            },
    {
        match self {
            HeaderGate::RefuseUntrusted(_) => Some(
                ApiError::Forbidden(
                    "untrusted_proxy_header",
                    "Identity headers from an untrusted source are not accepted",
                ),
            ),
            _ => None,
        }
    }
}

/// The kinds of [`HeaderGate`], without the identity they carry.
pub enum GateKind {
    PassThrough,
    RefuseUntrusted,
    StripAndContinue,
    Resolve,
}

/// The kind of a header-auth decision.
pub open spec fn kind_of(g: HeaderGate) -> GateKind {
    match g {
        HeaderGate::PassThrough => GateKind::PassThrough,
        HeaderGate::RefuseUntrusted(_) => GateKind::RefuseUntrusted,
        HeaderGate::StripAndContinue => GateKind::StripAndContinue,
        HeaderGate::Resolve(_) => GateKind::Resolve,
    }
}

/// What the header-auth step does with a request; `source` is the client's
/// address, `None` when unknown, and an unknown client counts as untrusted.
pub open spec fn gate_of(
    cfg: Option<HeaderAuthConfig>,
    path: Seq<char>,
    headers: Seq<(String, String)>,
    source: Option<IpAddress>,
) -> GateKind {
    match cfg {
        None => GateKind::PassThrough,
        Some(c) => if starts_with(path, "/api/v1/auth"@) || identity_of(headers, c) is None {
            GateKind::PassThrough
        } else {
            let trusted = match source {
                Some(ip) => c.trusted_proxies@.contains(ip),
                None => false,
            };
            if trusted {
                GateKind::Resolve
            } else if c.trusted_proxy_required {
                GateKind::RefuseUntrusted
            } else {
                GateKind::StripAndContinue
            }
        },
    }
}

/// Identity headers are honoured only from a configured trusted proxy: a
/// request whose identity is resolved has a known client address that is on
/// the trusted list.
pub proof fn law_only_trusted_proxies_resolve(
    cfg: Option<HeaderAuthConfig>,
    path: Seq<char>,
    headers: Seq<(String, String)>,
    source: Option<IpAddress>,
)
    requires
        gate_of(cfg, path, headers, source) == GateKind::Resolve,
    ensures
        cfg is Some,
        source is Some,
        cfg.unwrap().trusted_proxies@.contains(source.unwrap()),
{
}

/// Decide what happens to a request under header auth (`cfg` is `None` when
/// it is off). The identity a refusal or a resolution carries is the one the
/// headers hold.
pub fn header_gate(
    cfg: Option<&HeaderAuthConfig>,
    path: &str,
    headers: &Vec<(String, String)>,
    source: Option<IpAddress>,
) -> (r: HeaderGate)
    ensures
        kind_of(r) == gate_of(
            match cfg {
                Some(c) => Some(*c),
                None => None,
            },
            path@,
            headers@,
            source,
        ),
        match r {
            HeaderGate::RefuseUntrusted(id) => identity_of(headers@, *cfg.unwrap()) == Some(
                identity_view(id),
            ),
            HeaderGate::Resolve(id) => identity_of(headers@, *cfg.unwrap()) == Some(
                identity_view(id),
            ),
            _ => true,
        },
{
    let c = match cfg {
        Some(c) => c,
        None => {
            return HeaderGate::PassThrough;
        },
    };
    let p = chars_of(path);
    let prefix = chars_of("/api/v1/auth");
    if chars_starts_with(p.as_slice(), prefix.as_slice()) {
        return HeaderGate::PassThrough;
    }
    let identity = match extract_header_identity(headers, c) {
        Some(id) => id,
        None => {
            return HeaderGate::PassThrough;
        },
    };
    let trusted = match source {
        Some(ip) => source_is_trusted(ip, c.trusted_proxies.as_slice()),
        None => false,
    };
    if trusted {
        HeaderGate::Resolve(identity)
    } else if c.trusted_proxy_required {
        HeaderGate::RefuseUntrusted(identity)
    } else {
        HeaderGate::StripAndContinue
    }
}

/// What follows the resolution of a trusted identity.
#[derive(Clone, Debug, PartialEq, Eq)]
pub enum HeaderOutcome {
    /// Let the request through on the session it already has.
    Continue,
    /// Mint a session for the resolved user, revoking the request's old
    /// session first when it belonged to someone else.
    Establish { revoke_old: bool },
    /// Refuse with 403 `header_identity_refused`, recording this reason.
    Refuse(String),
}

impl HeaderOutcome {
    /// The answer the outcome gives without going on to the handler: a
    /// refused identity is answered with 403 `header_identity_refused` (its
    /// reason is what gets recorded); the other outcomes go on.
    pub fn refusal(&self) -> (r: Option<ApiError>)
        ensures
            match *self {
                HeaderOutcome::Refuse(_) => r == Some(
                    ApiError::Forbidden(
                        "header_identity_refused",
                        "Header identity could not be resolved to a local user",
                    ),
                ),
                _ => r is None,
            },
    {
        match self {
            HeaderOutcome::Refuse(_) => Some(
                ApiError::Forbidden(
                    "header_identity_refused",
                    "Header identity could not be resolved to a local user",
                ),
            ),
            _ => None,
        }
    }
}

/// Decide after resolving: `resolved_user` is the local user's id (`None`
/// when refused, with `refusal` the store's reason) and `session_user` the
/// id behind the request's valid session, if any. A session of the same user
/// is reused; a refused identity keeps an existing session rather than lock
/// its user out.
pub fn header_outcome(
    resolved_user: Option<i64>,
    session_user: Option<i64>,
    refusal: Option<&str>,
) -> (r: HeaderOutcome)
    ensures
        match resolved_user {
            Some(u) => if session_user == Some(u) {
                r == HeaderOutcome::Continue
            } else {
                r == (HeaderOutcome::Establish { revoke_old: session_user is Some })
            },
            None => if session_user is Some {
                r == HeaderOutcome::Continue
            } else {
                r is Refuse && r->Refuse_0@ == match refusal {
                    Some(reason) => reason@,
                    None => "header_identity_refused"@,
                }
            },
        },
{
    match resolved_user {
        Some(u) => match session_user {
            Some(s) => if s == u {
                HeaderOutcome::Continue
            } else {
                HeaderOutcome::Establish { revoke_old: true }
            },
            None => HeaderOutcome::Establish { revoke_old: false },
        },
        None => if session_user.is_some() {
            HeaderOutcome::Continue
        } else {
            HeaderOutcome::Refuse(
                String::from_str(
                    match refusal {
                        Some(reason) => reason,
                        None => "header_identity_refused",
                    },
                ),
            )
        },
    }
}

proof fn lemma_header_absent(headers: Seq<(String, String)>, name: Seq<char>)
    requires
        forall|i: int| 0 <= i < headers.len() ==> !same_header(#[trigger] headers[i].0@, name),
    ensures
        header_of(headers, name) is None,
    decreases headers.len(),
{
    if headers.len() > 0 {
        assert(!same_header(headers[0].0@, name));
        let rest = headers.drop_first();
        assert forall|i: int| 0 <= i < rest.len() implies !same_header(#[trigger] rest[i].0@, name) by {
            assert(rest[i] == headers[i + 1]);
        }
        lemma_header_absent(rest, name);
    }
}

/// Stripping is the injection guarantee: what is left carries no identity,
/// whatever the client sent.
pub proof fn law_stripped_headers_carry_no_identity(headers: Seq<(String, String)>, cfg: HeaderAuthConfig)
    ensures
        identity_of(without_identity(headers, cfg), cfg) is None,
        header_of(without_identity(headers, cfg), cfg.email_header@) is None,
        header_of(without_identity(headers, cfg), cfg.groups_header@) is None,
{
    let f = without_identity(headers, cfg);
    assert forall|i: int| 0 <= i < f.len() implies !is_identity_header(#[trigger] f[i].0@, cfg) by {
        let pred = |p: (String, String)| !is_identity_header(p.0@, cfg);
        assert(pred(f[i]));
    }
    lemma_header_absent(f, cfg.user_header@);
    lemma_header_absent(f, cfg.email_header@);
    lemma_header_absent(f, cfg.groups_header@);
}

} // verus!
