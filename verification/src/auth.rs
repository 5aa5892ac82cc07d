//! Password hashing, session tokens and the login rate limiter.

use vstd::prelude::*;

use crate::crypto::{argon2_hash, argon2_matches, argon2_phc, argon2_verify, random_bytes, sha256_digest, sha256_of};
use crate::text::{push_char, starts_with};
use vstd::string::StringSliceAdditionalSpecFns;

verus! {

/// Bytes of randomness in a session token.
pub const TOKEN_BYTES: usize = 32;

/// Bytes of randomness in a password salt.
pub const SALT_BYTES: usize = 16;

/// The lowercase hex digit for `d < 16`.
pub open spec fn hex_digit(d: u8) -> char {
    if d < 10 {
        ((d + 48) as u8) as char
    } else {
        ((d + 87) as u8) as char
    }
}

/// Lowercase hex encoding, two digits per byte, high nibble first.
pub open spec fn hex_lower(bytes: Seq<u8>) -> Seq<char>
    decreases bytes.len(),
{
    if bytes.len() == 0 {
        Seq::empty()
    } else {
        hex_lower(bytes.drop_last()) + seq![
            hex_digit(bytes.last() / 16),
            hex_digit(bytes.last() % 16),
        ]
    }
}

pub(crate) fn hex_char(d: u8) -> (c: char)
    requires
        d < 16,
    ensures
        c == hex_digit(d),
{
    if d < 10 {
        (d + 48) as char
    } else {
        (d + 87) as char
    }
}

/// Lowercase hex of `bytes`.
pub fn hex(bytes: &[u8]) -> (r: String)
    ensures
        r@ == hex_lower(bytes@),
        r@.len() == 2 * bytes@.len(),
{
    let mut out = String::new();
    let mut i: usize = 0;
    while i < bytes.len()
        invariant
            i <= bytes.len(),
            out@ == hex_lower(bytes@.take(i as int)),
            out@.len() == 2 * i,
        decreases bytes.len() - i,
    {
        let b = bytes[i];
        push_char(&mut out, hex_char(b / 16));
        push_char(&mut out, hex_char(b % 16));
        proof {
            let t = bytes@.take(i + 1);
            assert(t.drop_last() =~= bytes@.take(i as int));
            assert(t.last() == b);
            assert(out@ =~= hex_lower(t));
        }
        i = i + 1;
    }
    assert(bytes@.take(bytes.len() as int) =~= bytes@);
    out
}

/// The stored hash of a session or CSRF token: hex of SHA-256 of its UTF-8
/// bytes.
pub open spec fn token_digest(token: Seq<char>) -> Seq<char> {
    hex_lower(sha256_of(vstd::utf8::encode_utf8(token)))
}

/// Hash a token for storage.
pub fn token_hash(token: &str) -> (r: String)
    ensures
        r@ == token_digest(token@),
        r@.len() == 64,
{
    let digest = sha256_digest(token.as_bytes());
    hex(digest.as_slice())
}

/// A fresh session token: 32 random bytes in lowercase hex.
pub fn new_token() -> (r: String)
    ensures
        r@.len() == 2 * TOKEN_BYTES,
        exists|bytes: Seq<u8>| bytes.len() == TOKEN_BYTES && r@ == hex_lower(bytes),
{
    let bytes = random_bytes(TOKEN_BYTES);
    hex(bytes.as_slice())
}

/// Why a password was refused.
#[derive(Clone, Debug, PartialEq, Eq)]
pub enum PasswordError {
    /// Fewer than 12 bytes.
    TooShort,
    /// More than 1024 bytes.
    TooLong,
    /// The hasher refused the input.
    HashFailed,
}

/// The length rule on passwords, in UTF-8 bytes.
pub open spec fn password_violation(password: &str) -> Option<PasswordError> {
    if password.len() < 12 {
        Some(PasswordError::TooShort)
    } else if password.len() > 1024 {
        Some(PasswordError::TooLong)
    } else {
        None
    }
}

/// Check the password length rule: 12 to 1024 bytes.
pub fn validate_password(password: &str) -> (r: Result<(), PasswordError>)
    ensures
        match r {
            Ok(_) => password_violation(password) is None,
            Err(e) => password_violation(password) == Some(e),
        },
{
    if password.len() < 12 {
        return Err(PasswordError::TooShort);
    }
    if password.len() > 1024 {
        return Err(PasswordError::TooLong);
    }
    Ok(())
}

/// Hash a password with Argon2id under a fresh random 16-byte salt, after the
/// length rule: every password the rule accepts is hashed. The salt is
/// random, so of the hash only its shape and that it is Argon2's for some
/// such salt are known.
pub fn hash_password(password: &str) -> (r: Result<String, PasswordError>)
    ensures
        match r {
            Ok(h) => password_violation(password) is None && starts_with(h@, "$argon2id$"@)
                && exists|salt: Seq<u8>|
                salt.len() == SALT_BYTES && argon2_phc(password.spec_bytes(), salt) == Some(h@),
            Err(e) => password_violation(password) == Some(e),
        },
{
    validate_password(password)?;
    let salt = random_bytes(SALT_BYTES);
    let bytes = password.as_bytes();
    // A slice's length is a `usize`, so the byte count the length rule bounded is this one.
    let byte_len: usize = bytes.len();
    assert(byte_len <= 1024);
    match argon2_hash(bytes, salt.as_slice()) {
        Some(h) => Ok(h),
        None => Err(PasswordError::HashFailed),
    }
}

/// Whether `password` matches a stored PHC hash; false for a malformed hash.
pub fn verify_password(password: &str, encoded_hash: &str) -> (r: bool)
    ensures
        r == argon2_matches(password.spec_bytes(), encoded_hash@),
{
    argon2_verify(password.as_bytes(), encoded_hash)
}


/// Failed attempts of one login key since `started_ms`.
#[derive(Clone, Copy, Debug, PartialEq, Eq, Structural)]
pub struct AttemptWindow {
    pub started_ms: u64,
    pub failures: u32,
}

/// The window recorded for `key` (first entry with that key).
pub open spec fn window_lookup(entries: Seq<(String, AttemptWindow)>, key: Seq<char>) -> Option<
    AttemptWindow,
>
    decreases entries.len(),
{
    if entries.len() == 0 {
        None
    } else if entries[0].0@ == key {
        Some(entries[0].1)
    } else {
        window_lookup(entries.drop_first(), key)
    }
}

proof fn lemma_lookup_push(e: Seq<(String, AttemptWindow)>, x: (String, AttemptWindow), k: Seq<char>)
    ensures
        window_lookup(e.push(x), k) == (if window_lookup(e, k) is Some {
            window_lookup(e, k)
        } else if x.0@ == k {
            Some(x.1)
        } else {
            None
        }),
    decreases e.len(),
{
    if e.len() > 0 {
        assert(e.push(x).drop_first() =~= e.drop_first().push(x));
        assert(e.push(x)[0] == e[0]);
        lemma_lookup_push(e.drop_first(), x, k);
        if e[0].0@ != k {
            assert(window_lookup(e.push(x), k) == window_lookup(e.push(x).drop_first(), k));
            assert(window_lookup(e, k) == window_lookup(e.drop_first(), k));
        }
    } else {
        assert(e.push(x)[0] == x);
        assert(e.push(x).drop_first() =~= Seq::<(String, AttemptWindow)>::empty());
        assert(window_lookup(e.push(x).drop_first(), k) is None);
        assert(window_lookup(e, k) is None);
    }
}

proof fn lemma_lookup_update(
    e: Seq<(String, AttemptWindow)>,
    i: int,
    key: Seq<char>,
    w: AttemptWindow,
    x: (String, AttemptWindow),
    k: Seq<char>,
)
    requires
        0 <= i < e.len(),
        e[i].0@ == key,
        x.0@ == key,
        x.1 == w,
        forall|j: int| 0 <= j < i ==> e[j].0@ != key,
    ensures
        window_lookup(e.update(i, x), k) == (if k == key {
            Some(w)
        } else {
            window_lookup(e, k)
        }),
    decreases e.len(),
{
    if i > 0 {
        assert(e.update(i, x).drop_first() =~= e.drop_first().update(i - 1, x));
        assert(e.update(i, x)[0] == e[0]);
        lemma_lookup_update(e.drop_first(), i - 1, key, w, x, k);
    } else {
        assert(e.update(0, x)[0] == x);
        assert(e.update(0, x).drop_first() =~= e.drop_first());
    }
}

proof fn lemma_lookup_absent(e: Seq<(String, AttemptWindow)>, key: Seq<char>)
    requires
        forall|j: int| 0 <= j < e.len() ==> e[j].0@ != key,
    ensures
        window_lookup(e, key) is None,
    decreases e.len(),
{
    if e.len() > 0 {
        lemma_lookup_absent(e.drop_first(), key);
    }
}

proof fn lemma_lookup_found(e: Seq<(String, AttemptWindow)>, i: int, key: Seq<char>)
    requires
        0 <= i < e.len(),
        e[i].0@ == key,
        forall|j: int| 0 <= j < i ==> e[j].0@ != key,
    ensures
        window_lookup(e, key) == Some(e[i].1),
    decreases e.len(),
{
    if i > 0 {
        lemma_lookup_found(e.drop_first(), i - 1, key);
    }
}

/// Whether a window has run its course at `now_ms` (time never runs
/// backwards: an earlier `now_ms` counts as no time passed).
pub open spec fn window_expired(w: AttemptWindow, now_ms: u64, window_ms: u64) -> bool {
    (if now_ms >= w.started_ms {
        now_ms - w.started_ms
    } else {
        0
    }) >= window_ms
}

/// Whether a key with window `w` may try at `now_ms`: no window, an expired
/// one, or fewer failures than allowed.
pub open spec fn permits(w: Option<AttemptWindow>, now_ms: u64, window_ms: u64, max_attempts: u32) -> bool {
    match w {
        None => true,
        Some(w) => window_expired(w, now_ms, window_ms) || w.failures < max_attempts,
    }
}

/// The window after a failure at `now_ms`: a fresh one when there was none
/// or it had expired, with one more failure (saturating).
pub open spec fn failure_window(w: Option<AttemptWindow>, now_ms: u64, window_ms: u64) -> AttemptWindow {
    let base = match w {
        Some(w) => if window_expired(w, now_ms, window_ms) {
            AttemptWindow { started_ms: now_ms, failures: 0 }
        } else {
            w
        },
        None => AttemptWindow { started_ms: now_ms, failures: 0 },
    };
    AttemptWindow {
        started_ms: base.started_ms,
        failures: if base.failures == u32::MAX {
            u32::MAX
        } else {
            (base.failures + 1) as u32
        },
    }
}

/// The window after failures at each of `times`, in order.
pub open spec fn after_failures(w: Option<AttemptWindow>, times: Seq<u64>, window_ms: u64) -> Option<
    AttemptWindow,
>
    decreases times.len(),
{
    if times.len() == 0 {
        w
    } else {
        Some(failure_window(after_failures(w, times.drop_last(), window_ms), times.last(), window_ms))
    }
}

/// Failures all within one window after the first (an earlier time counts
/// as no time passed), leave a window started at the first with one failure each.
proof fn lemma_failures_in_window(times: Seq<u64>, window_ms: u64)
    requires
        times.len() > 0,
        times.len() < u32::MAX,
        forall|i: int| 0 <= i < times.len() ==> #[trigger] times[i] - times[0] < window_ms,
    ensures
        after_failures(None, times, window_ms) == Some(
            AttemptWindow { started_ms: times[0], failures: times.len() as u32 },
        ),
    decreases times.len(),
{
    if times.len() > 1 {
        let prefix = times.drop_last();
        assert forall|i: int| 0 <= i < prefix.len() implies #[trigger] prefix[i] - prefix[0] < window_ms by {
            assert(prefix[i] == times[i]);
            assert(prefix[0] == times[0]);
        }
        lemma_failures_in_window(prefix, window_ms);
        assert(prefix[0] == times[0]);
        assert(times.last() == times[times.len() - 1]);
        assert(times.last() - times[0] < window_ms);
        let w = AttemptWindow { started_ms: times[0], failures: prefix.len() as u32 };
        assert(after_failures(None, prefix, window_ms) == Some(w));
        assert(!window_expired(w, times.last(), window_ms));
        assert(failure_window(Some(w), times.last(), window_ms) == AttemptWindow {
            started_ms: times[0],
            failures: times.len() as u32,
        });
    } else {
        assert(times.drop_last() =~= Seq::<u64>::empty());
        assert(after_failures(None, times.drop_last(), window_ms) is None);
        assert(times.last() == times[0]);
    }
}

/// A key that failed `max_attempts` times within one window is refused for
/// the rest of that window.
pub proof fn law_repeated_failures_lock_out(times: Seq<u64>, window_ms: u64, max_attempts: u32, now_ms: u64)
    requires
        max_attempts >= 1,
        times.len() == max_attempts,
        max_attempts < u32::MAX,
        forall|i: int| 0 <= i < times.len() ==> #[trigger] times[i] - times[0] < window_ms,
        now_ms - times[0] < window_ms,
    ensures
        !permits(after_failures(None, times, window_ms), now_ms, window_ms, max_attempts),
{
    lemma_failures_in_window(times, window_ms);
}

/// Within one window, a key may try exactly while it has failed fewer times
/// than allowed: with no failure it is free, and each failure counts.
pub proof fn law_allowed_while_below_the_limit(
    times: Seq<u64>,
    window_ms: u64,
    max_attempts: u32,
    now_ms: u64,
)
    requires
        max_attempts >= 1,
        times.len() < u32::MAX,
        forall|i: int| 0 <= i < times.len() ==> #[trigger] times[i] - times[0] < window_ms,
        times.len() > 0 ==> now_ms - times[0] < window_ms,
    ensures
        permits(after_failures(None, times, window_ms), now_ms, window_ms, max_attempts) <==> times.len()
            < max_attempts,
{
    if times.len() > 0 {
        lemma_failures_in_window(times, window_ms);
    }
}

/// A key with no recorded failures (as after a successful login) may try.
pub proof fn law_success_resets(now_ms: u64, window_ms: u64, max_attempts: u32)
    ensures
        permits(None, now_ms, window_ms, max_attempts),
{
}

/// Once its window has passed, a locked-out key may try again.
pub proof fn law_lockout_expires(w: AttemptWindow, now_ms: u64, window_ms: u64, max_attempts: u32)
    requires
        now_ms >= w.started_ms + window_ms,
    ensures
        permits(Some(w), now_ms, window_ms, max_attempts),
{
}

/// `after` is `before` with a failure of `key` at `now_ms` counted: the
/// same limits, and the key's window moved on by `failure_window`.
pub open spec fn failure_recorded(
    before: LoginRateLimiter,
    after: LoginRateLimiter,
    key: Seq<char>,
    now_ms: u64,
) -> bool {
    &&& after.max_attempts() == before.max_attempts()
    &&& after.window_ms() == before.window_ms()
    &&& after.window_of(key) == Some(failure_window(before.window_of(key), now_ms, before.window_ms()))
}

proof fn lemma_recorded_failures(limiters: Seq<LoginRateLimiter>, key: Seq<char>, times: Seq<u64>, k: int)
    requires
        0 <= k <= times.len(),
        limiters.len() == times.len() + 1,
        forall|i: int|
            #![trigger times[i]]
            0 <= i < times.len() ==> failure_recorded(limiters[i], limiters[i + 1], key, times[i]),
    ensures
        limiters[k].max_attempts() == limiters[0].max_attempts(),
        limiters[k].window_ms() == limiters[0].window_ms(),
        limiters[k].window_of(key) == after_failures(
            limiters[0].window_of(key),
            times.take(k),
            limiters[0].window_ms(),
        ),
    decreases k,
{
    if k == 0 {
        assert(times.take(0) =~= Seq::<u64>::empty());
    } else {
        lemma_recorded_failures(limiters, key, times, k - 1);
        assert(failure_recorded(limiters[k - 1], limiters[k], key, times[k - 1]));
        assert(times.take(k).drop_last() =~= times.take(k - 1));
        assert(times.take(k).last() == times[k - 1]);
    }
}

/// The limiter as its users see it: starting from a key with no failures
/// (a new limiter, or right after `record_success`), and recording failures
/// of that key all within one window of the first, the limiter lets the key
/// try (`allowed` within that window) exactly while it has failed fewer
/// times than its limit.
pub proof fn law_limiter_allows_while_below_the_limit(
    limiters: Seq<LoginRateLimiter>,
    key: Seq<char>,
    times: Seq<u64>,
    now_ms: u64,
)
    requires
        limiters.len() == times.len() + 1,
        limiters[0].window_of(key) is None,
        limiters[0].max_attempts() >= 1,
        times.len() < u32::MAX,
        forall|i: int|
            #![trigger times[i]]
            0 <= i < times.len() ==> failure_recorded(limiters[i], limiters[i + 1], key, times[i]),
        forall|i: int| 0 <= i < times.len() ==> #[trigger] times[i] - times[0] < limiters[0].window_ms(),
        times.len() > 0 ==> now_ms - times[0] < limiters[0].window_ms(),
    ensures
        permits(
            limiters.last().window_of(key),
            now_ms,
            limiters.last().window_ms(),
            limiters.last().max_attempts(),
        ) <==> times.len() < limiters[0].max_attempts(),
{
    lemma_recorded_failures(limiters, key, times, times.len() as int);
    assert(times.take(times.len() as int) =~= times);
    law_allowed_while_below_the_limit(times, limiters[0].window_ms(), limiters[0].max_attempts(), now_ms);
}

/// Why a rate limiter cannot be built.
#[derive(Clone, Copy, Debug, PartialEq, Eq)]
pub enum RateLimitError {
    /// It must allow at least one attempt.
    NoAttempts,
    /// The window cannot be zero.
    ZeroWindow,
}

/// Per-key login throttling: after `max_attempts` failures within
/// `window_ms`, further attempts are refused until the window has passed or a
/// login succeeds. Time is passed in as milliseconds on a monotonic clock.
pub struct LoginRateLimiter {
    entries: Vec<(String, AttemptWindow)>,
    max_attempts: u32,
    window_ms: u64,
}

impl LoginRateLimiter {
    /// The window recorded for `key`.
    pub closed spec fn window_of(&self, key: Seq<char>) -> Option<AttemptWindow> {
        window_lookup(self.entries@, key)
    }

    pub closed spec fn max_attempts(&self) -> u32 {
        self.max_attempts
    }

    pub closed spec fn window_ms(&self) -> u64 {
        self.window_ms
    }

    /// A limiter with no recorded failures.
    pub fn new(max_attempts: u32, window_ms: u64) -> (r: Result<LoginRateLimiter, RateLimitError>)
        ensures
            max_attempts == 0 ==> r == Err::<LoginRateLimiter, RateLimitError>(
                RateLimitError::NoAttempts,
            ),
            max_attempts > 0 && window_ms == 0 ==> r == Err::<LoginRateLimiter, RateLimitError>(
                RateLimitError::ZeroWindow,
            ),
            max_attempts > 0 && window_ms > 0 ==> r is Ok && r->Ok_0.max_attempts()
                == max_attempts && r->Ok_0.window_ms() == window_ms && forall|k: Seq<char>|
                #[trigger] r->Ok_0.window_of(k) is None,
    {
        if max_attempts == 0 {
            return Err(RateLimitError::NoAttempts);
        }
        if window_ms == 0 {
            return Err(RateLimitError::ZeroWindow);
        }
        Ok(LoginRateLimiter { entries: Vec::new(), max_attempts, window_ms })
    }

    fn position(&self, key: &str) -> (r: Option<usize>)
        ensures
            match r {
                Some(i) => i < self.entries@.len() && self.entries@[i as int].0@ == key@ && forall|
                    j: int,
                | 0 <= j < i ==> self.entries@[j].0@ != key@,
                None => forall|j: int|
                    0 <= j < self.entries@.len() ==> self.entries@[j].0@ != key@,
            },
    {
        let k = crate::text::chars_of(key);
        let mut i: usize = 0;
        while i < self.entries.len()
            invariant
                i <= self.entries@.len(),
                k@ == key@,
                forall|j: int| 0 <= j < i ==> self.entries@[j].0@ != key@,
            decreases self.entries.len() - i,
        {
            let name = crate::text::chars_of(self.entries[i].0.as_str());
            if crate::text::chars_eq(name.as_slice(), k.as_slice()) {
                return Some(i);
            }
            i = i + 1;
        }
        None
    }

    fn remove_key(&mut self, key: &str)
        ensures
            final(self).max_attempts == old(self).max_attempts,
            final(self).window_ms == old(self).window_ms,
            forall|k: Seq<char>|
                #[trigger] final(self).window_of(k) == (if k == key@ {
                    None
                } else {
                    old(self).window_of(k)
                }),
    {
        let k = crate::text::chars_of(key);
        let mut kept: Vec<(String, AttemptWindow)> = Vec::new();
        let mut i: usize = 0;
        while i < self.entries.len()
            invariant
                i <= self.entries@.len(),
                k@ == key@,
                forall|j: int| 0 <= j < kept@.len() ==> kept@[j].0@ != key@,
                forall|k2: Seq<char>|
                    k2 != key@ ==> #[trigger] window_lookup(kept@, k2) == window_lookup(
                        self.entries@.take(i as int),
                        k2,
                    ),
            decreases self.entries.len() - i,
        {
            let name = crate::text::chars_of(self.entries[i].0.as_str());
            let e = (self.entries[i].0.clone(), self.entries[i].1);
            proof {
                assert(self.entries@.take(i + 1) =~= self.entries@.take(i as int).push(
                    self.entries@[i as int],
                ));
                assert forall|k2: Seq<char>| k2 != key@ implies window_lookup(
                    self.entries@.take(i + 1),
                    k2,
                ) == (if window_lookup(self.entries@.take(i as int), k2) is Some {
                    window_lookup(self.entries@.take(i as int), k2)
                } else if self.entries@[i as int].0@ == k2 {
                    Some(self.entries@[i as int].1)
                } else {
                    None
                }) by {
                    lemma_lookup_push(self.entries@.take(i as int), self.entries@[i as int], k2);
                }
            }
            if !crate::text::chars_eq(name.as_slice(), k.as_slice()) {
                let ghost old_kept = kept@;
                kept.push(e);
                proof {
                    assert forall|k2: Seq<char>| k2 != key@ implies #[trigger] window_lookup(
                        kept@,
                        k2,
                    ) == window_lookup(self.entries@.take(i + 1), k2) by {
                        lemma_lookup_push(old_kept, e, k2);
                    }
                }
            }
            i = i + 1;
        }
        proof {
            assert(self.entries@.take(self.entries@.len() as int) =~= self.entries@);
            lemma_lookup_absent(kept@, key@);
        }
        self.entries = kept;
    }

    /// Whether `key` may try to log in at `now_ms`. An expired window is
    /// forgotten on the way.
    pub fn allowed(&mut self, key: &str, now_ms: u64) -> (r: bool)
        ensures
            final(self).max_attempts() == old(self).max_attempts(),
            final(self).window_ms() == old(self).window_ms(),
            r == permits(old(self).window_of(key@), now_ms, old(self).window_ms(), old(self).max_attempts()),
            match old(self).window_of(key@) {
                None => r && forall|k: Seq<char>| #[trigger] final(self).window_of(k)
                    == old(self).window_of(k),
                Some(w) => if window_expired(w, now_ms, old(self).window_ms()) {
                    r && forall|k: Seq<char>| #[trigger] final(self).window_of(k) == (if k
                        == key@ {
                        None
                    } else {
                        old(self).window_of(k)
                    })
                } else {
                    r == (w.failures < old(self).max_attempts()) && forall|k: Seq<char>|
                        #[trigger] final(self).window_of(k) == old(self).window_of(k)
                },
            },
    {
        match self.position(key) {
            None => {
                proof {
                    lemma_lookup_absent(self.entries@, key@);
                }
                true
            },
            Some(i) => {
                proof {
                    lemma_lookup_found(self.entries@, i as int, key@);
                }
                let w = self.entries[i].1;
                let elapsed = if now_ms >= w.started_ms {
                    now_ms - w.started_ms
                } else {
                    0
                };
                if elapsed >= self.window_ms {
                    self.remove_key(key);
                    true
                } else {
                    w.failures < self.max_attempts
                }
            },
        }
    }

    /// Count a failed login of `key` at `now_ms`, starting a new window when
    /// there is none or the last one has expired.
    pub fn record_failure(&mut self, key: &str, now_ms: u64)
        ensures
            failure_recorded(*old(self), *final(self), key@, now_ms),
            forall|k: Seq<char>|
                k != key@ ==> #[trigger] final(self).window_of(k) == old(self).window_of(k),
            ({
                let base = match old(self).window_of(key@) {
                    Some(w) => if window_expired(w, now_ms, old(self).window_ms()) {
                        AttemptWindow { started_ms: now_ms, failures: 0 }
                    } else {
                        w
                    },
                    None => AttemptWindow { started_ms: now_ms, failures: 0 },
                };
                final(self).window_of(key@) == Some(
                    AttemptWindow {
                        started_ms: base.started_ms,
                        failures: if base.failures == u32::MAX {
                            u32::MAX
                        } else {
                            (base.failures + 1) as u32
                        },
                    },
                )
            }),
    {
        match self.position(key) {
            None => {
                proof {
                    lemma_lookup_absent(self.entries@, key@);
                }
                let x = (String::from_str(key), AttemptWindow { started_ms: now_ms, failures: 1 });
                let ghost old_entries = self.entries@;
                self.entries.push(x);
                proof {
                    assert forall|k: Seq<char>| true implies #[trigger] window_lookup(
                        self.entries@,
                        k,
                    ) == (if window_lookup(old_entries, k) is Some {
                        window_lookup(old_entries, k)
                    } else if x.0@ == k {
                        Some(x.1)
                    } else {
                        None
                    }) by {
                        lemma_lookup_push(old_entries, x, k);
                    }
                }
            },
            Some(i) => {
                proof {
                    lemma_lookup_found(self.entries@, i as int, key@);
                }
                let w = self.entries[i].1;
                let elapsed = if now_ms >= w.started_ms {
                    now_ms - w.started_ms
                } else {
                    0
                };
                let base = if elapsed >= self.window_ms {
                    AttemptWindow { started_ms: now_ms, failures: 0 }
                } else {
                    w
                };
                let failures = if base.failures == u32::MAX {
                    u32::MAX
                } else {
                    base.failures + 1
                };
                let nw = AttemptWindow { started_ms: base.started_ms, failures };
                let x = (String::from_str(key), nw);
                let ghost old_entries = self.entries@;
                self.entries.set(i, x);
                proof {
                    assert forall|k: Seq<char>| true implies #[trigger] window_lookup(
                        self.entries@,
                        k,
                    ) == (if k == key@ {
                        Some(nw)
                    } else {
                        window_lookup(old_entries, k)
                    }) by {
                        lemma_lookup_update(old_entries, i as int, key@, nw, x, k);
                    }
                }
            },
        }
    }

    /// Forget `key` after a successful login.
    pub fn record_success(&mut self, key: &str)
        ensures
            final(self).max_attempts() == old(self).max_attempts(),
            final(self).window_ms() == old(self).window_ms(),
            final(self).window_of(key@) is None,
            forall|k: Seq<char>|
                k != key@ ==> #[trigger] final(self).window_of(k) == old(self).window_of(k),
    {
        self.remove_key(key);
    }
}

} // verus!
