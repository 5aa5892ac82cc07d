//! The SMTP settings, the mail a notification sends, and recipient
//! addresses. Sending itself happens outside the library.

use vstd::prelude::*;

use crate::environment::{env_lookup, env_value};
use crate::oidc::opt_string_view;
use crate::text::{
    chars_of, chars_parse_u64, chars_trim_end_char, parse_u64, str_eq, string_of, sub_chars, trim,
    trim_chars, trim_end_char,
};

verus! {

/// Whether lettre's `Address::from_str` accepts `s` as an email address.
pub uninterp spec fn lettre_address_ok(s: Seq<char>) -> bool;

/// `s.parse::<lettre::Address>().is_ok()`: lettre's syntax check of a bare
/// address (`user@domain`), which depends on the text alone.
#[verifier::external_body]
fn address_parses(s: &str) -> (r: bool)
    ensures
        r == lettre_address_ok(s@),
{
    s.parse::<lettre::Address>().is_ok()
}

/// The index of the last `c` in `s`, or -1.
pub open spec fn last_index_of(s: Seq<char>, c: char) -> int
    decreases s.len(),
{
    if s.len() == 0 {
        -1
    } else if s.last() == c {
        s.len() - 1
    } else {
        last_index_of(s.drop_last(), c)
    }
}

pub proof fn lemma_last_index_of(s: Seq<char>, c: char)
    ensures
        -1 <= last_index_of(s, c) < s.len(),
        last_index_of(s, c) >= 0 ==> s[last_index_of(s, c)] == c,
    decreases s.len(),
{
    if s.len() > 0 && s.last() != c {
        lemma_last_index_of(s.drop_last(), c);
    }
}

/// The recipient an address normalizes to: the trimmed text when it is an
/// address, else the trimmed part after the last `<` without its trailing
/// `>`s, when that is one; `None` otherwise.
pub open spec fn recipient_of(value: Seq<char>) -> Option<Seq<char>> {
    let v = trim(value);
    if v.len() == 0 {
        None
    } else if lettre_address_ok(v) {
        Some(v)
    } else {
        let i = last_index_of(v, '<');
        if i < 0 {
            None
        } else {
            let addr = trim(trim_end_char(v.subrange(i + 1, v.len() as int), '>'));
            if lettre_address_ok(addr) {
                Some(addr)
            } else {
                None
            }
        }
    }
}

fn last_lt(v: &[char]) -> (r: Option<usize>)
    ensures
        match r {
            Some(i) => last_index_of(v@, '<') == i,
            None => last_index_of(v@, '<') < 0,
        },
{
    let mut k: usize = v.len();
    assert(v@.take(k as int) =~= v@);
    while k > 0
        invariant
            k <= v.len(),
            last_index_of(v@, '<') == last_index_of(v@.take(k as int), '<'),
        decreases k,
    {
        assert(v@.take(k as int).drop_last() =~= v@.take(k - 1));
        if v[k - 1] == '<' {
            return Some(k - 1);
        }
        k = k - 1;
    }
    None
}

/// Normalize a recipient, accepting `Name <a@b.c>` as well as a bare
/// `a@b.c`; `None` when neither form holds an address.
pub fn normalize_recipient(value: &str) -> (r: Option<String>)
    ensures
        opt_string_view(r) == recipient_of(value@),
{
    let c = chars_of(value);
    let v = trim_chars(c.as_slice());
    if v.len() == 0 {
        return None;
    }
    let vs = string_of(v.as_slice());
    if address_parses(vs.as_str()) {
        return Some(vs);
    }
    proof {
        assert(v@.take(v.len() as int) =~= v@);
    }
    match last_lt(v.as_slice()) {
        Some(i) => {
            proof {
                lemma_last_index_of(v@, '<');
            }
            let tail = sub_chars(v.as_slice(), i + 1, v.len());
            let stripped = chars_trim_end_char(tail.as_slice(), '>');
            let addr = trim_chars(stripped.as_slice());
            let a = string_of(addr.as_slice());
            if address_parses(a.as_str()) {
                Some(a)
            } else {
                None
            }
        },
        None => None,
    }
}

/// SMTP sender settings.
#[derive(Clone, Debug)]
pub struct EmailConfig {
    pub host: Option<String>,
    pub port: Option<u16>,
    pub username: Option<String>,
    pub password: Option<String>,
    pub from: Option<String>,
    pub starttls: bool,
}

/// A variable that counts only when it is set and not empty.
pub open spec fn env_nonempty(vars: Seq<(String, String)>, name: Seq<char>) -> Option<Seq<char>> {
    match env_value(vars, name) {
        Some(v) => if v.len() > 0 {
            Some(v)
        } else {
            None
        },
        None => None,
    }
}

fn read_nonempty(vars: &Vec<(String, String)>, name: &str) -> (r: Option<String>)
    ensures
        opt_string_view(r) == env_nonempty(vars@, name@),
{
    match env_lookup(vars, name) {
        Some(v) => if v.as_str().is_empty() {
            None
        } else {
            Some(v.clone())
        },
        None => None,
    }
}

impl EmailConfig {
    /// The settings the `QDRUST_SMTP_*` variables give: empty values count as
    /// unset, a port that does not parse is ignored, and STARTTLS is on unless
    /// the variable reads exactly `false`.
    pub fn from_env(vars: &Vec<(String, String)>) -> (r: Self)
        ensures
            opt_string_view(r.host) == env_nonempty(vars@, "QDRUST_SMTP_HOST"@),
            r.port == match env_value(vars@, "QDRUST_SMTP_PORT"@) {
                Some(v) => match parse_u64(v) {
                    Some(n) => if n <= 65535 {
                        Some(n as u16)
                    } else {
                        None::<u16>
                    },
                    None => None,
                },
                None => None,
            },
            opt_string_view(r.username) == env_nonempty(vars@, "QDRUST_SMTP_USERNAME"@),
            opt_string_view(r.password) == env_nonempty(vars@, "QDRUST_SMTP_PASSWORD"@),
            opt_string_view(r.from) == env_nonempty(vars@, "QDRUST_SMTP_FROM"@),
            r.starttls == (env_value(vars@, "QDRUST_SMTP_STARTTLS"@) != Some("false"@)),
    {
        let port = match env_lookup(vars, "QDRUST_SMTP_PORT") {
            Some(v) => {
                let c = chars_of(v.as_str());
                match chars_parse_u64(c.as_slice()) {
                    Some(n) => if n <= 65535 {
                        Some(n as u16)
                    } else {
                        None
                    },
                    None => None,
                }
            },
            None => None,
        };
        let starttls = match env_lookup(vars, "QDRUST_SMTP_STARTTLS") {
            Some(v) => !str_eq(v.as_str(), "false"),
            None => true,
        };
        EmailConfig {
            host: read_nonempty(vars, "QDRUST_SMTP_HOST"),
            port,
            username: read_nonempty(vars, "QDRUST_SMTP_USERNAME"),
            password: read_nonempty(vars, "QDRUST_SMTP_PASSWORD"),
            from: read_nonempty(vars, "QDRUST_SMTP_FROM"),
            starttls,
        }
    }

    /// Mail is on when a host is configured.
    pub fn enabled(&self) -> (r: bool)
        ensures
            r == self.host is Some,
    {
        self.host.is_some()
    }
}

/// Why the mail client cannot be built.
#[derive(Clone, Copy, Debug, PartialEq, Eq, Structural)]
pub enum EmailError {
    /// SMTP is enabled but `QDRUST_SMTP_FROM` is not set.
    MissingFrom,
}

impl EmailError {
    /// The message the error reads as.
    pub fn message(&self) -> (r: &'static str)
        ensures
            r@ == "email requires QDRUST_SMTP_FROM when SMTP is enabled"@,
    {
        "email requires QDRUST_SMTP_FROM when SMTP is enabled"
    }
}

/// A mail client; a configured host always comes with a sender.
pub struct EmailClient {
    config: EmailConfig,
}

/// One mail to send, with the transport to send it through.
#[derive(Clone, Debug)]
pub struct MailPlan {
    pub host: String,
    /// The SMTP port, 587 unless configured.
    pub port: u16,
    /// Login, when both a username and a password are configured.
    pub credentials: Option<(String, String)>,
    pub from: String,
    pub to: String,
    pub subject: String,
    pub body: String,
}

impl EmailClient {
    #[verifier::type_invariant]
    spec fn sender_known(self) -> bool {
        self.config.host is Some ==> self.config.from is Some
    }

    /// The settings the client was built with.
    pub closed spec fn settings(self) -> EmailConfig {
        self.config
    }

    /// Build a client; refused when SMTP is enabled without a sender.
    pub fn new(config: EmailConfig) -> (r: Result<EmailClient, EmailError>)
        ensures
            match r {
                Ok(c) => c.settings() == config && (config.host is Some ==> config.from is Some),
                Err(e) => e == EmailError::MissingFrom && config.host is Some && config.from is None,
            },
    {
        if config.host.is_some() && config.from.is_none() {
            return Err(EmailError::MissingFrom);
        }
        Ok(EmailClient { config })
    }

    /// Whether mail is on.
    pub fn enabled(&self) -> (r: bool)
        ensures
            r == self.settings().host is Some,
    {
        self.config.host.is_some()
    }

    /// The mail `send` delivers: `None` when mail is off (nothing is sent);
    /// otherwise from `from` or the configured sender, through the configured
    /// host and port (587 by default), logging in when a username and a
    /// password are both set.
    pub fn plan(&self, to: &str, from: Option<&str>, subject: &str, body: &str) -> (r: Option<MailPlan>)
        ensures
            match r {
                None => self.settings().host is None,
                Some(p) => {
                    &&& self.settings().host is Some
                    &&& p.host@ == self.settings().host.unwrap()@
                    &&& p.port == match self.settings().port {
                        Some(n) => n,
                        None => 587u16,
                    }
                    &&& match p.credentials {
                        Some((u, w)) => self.settings().username is Some && self.settings().password is Some
                            && u@ == self.settings().username.unwrap()@ && w@ == self.settings().password.unwrap()@,
                        None => self.settings().username is None || self.settings().password is None,
                    }
                    &&& p.from@ == match from {
                        Some(f) => f@,
                        None => self.settings().from.unwrap()@,
                    }
                    &&& p.to@ == to@
                    &&& p.subject@ == subject@
                    &&& p.body@ == body@
                },
            },
    {
        proof {
            use_type_invariant(self);
        }
        let host = match &self.config.host {
            Some(h) => h.clone(),
            None => {
                return None;
            },
        };
        let sender = match from {
            Some(f) => String::from_str(f),
            None => match &self.config.from {
                Some(f) => f.clone(),
                None => {
                    return None;
                },
            },
        };
        let credentials = match (&self.config.username, &self.config.password) {
            (Some(u), Some(w)) => Some((u.clone(), w.clone())),
            _ => None,
        };
        Some(
            MailPlan {
                host,
                port: match self.config.port {
                    Some(n) => n,
                    None => 587,
                },
                credentials,
                from: sender,
                to: String::from_str(to),
                subject: String::from_str(subject),
                body: String::from_str(body),
            },
        )
    }
}

} // verus!
