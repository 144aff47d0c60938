//! The per-token fixed-window rate limiter and the admission step built on it.
//!
//! The counter itself lives in a shared external store; one logical counter
//! per token, shared by every proxy instance. This module holds the exact
//! semantics that store operation must have — increment, establishing the
//! window's expiry only when the counter is created, never extending a
//! running window — together with the admission decisions taken around it.

use vstd::prelude::*;
use vstd::string::StrSliceExecFns;
use vstd::string::StringExecFns;
use crate::text;

verus! {

/// Length of one rate-limit window, in seconds.
pub const WINDOW_SECS: u64 = 60;

/// The state of one token's counter inside the store: the count accumulated
/// in the current window and the moment the window expires.
#[derive(Clone, Copy, Debug, PartialEq, Eq, Structural)]
pub struct WindowState {
    pub count: u64,
    pub expires_at: u64,
}

/// The window a first hit at `now` opens: count 1, expiring `window_secs`
/// later.
pub open spec fn fresh_window(now: u64, window_secs: u64) -> WindowState {
    WindowState { count: 1, expires_at: (now + window_secs) as u64 }
}

/// One hit against a counter: increment inside an unexpired window without
/// touching its expiry, otherwise open a fresh window.
pub open spec fn window_hit(prior: Option<WindowState>, now: u64, window_secs: u64) -> WindowState {
    match prior {
        Some(w) => if now < w.expires_at {
            WindowState { count: (w.count + 1) as u64, expires_at: w.expires_at }
        } else {
            fresh_window(now, window_secs)
        },
        None => fresh_window(now, window_secs),
    }
}

/// Record one hit against a counter read from the store as `prior`
/// (`None` when the key is absent). This is the single atomic operation
/// the store must perform per request.
pub fn record_hit(prior: Option<WindowState>, now: u64, window_secs: u64) -> (w: WindowState)
    requires
        now + window_secs <= u64::MAX,
        prior matches Some(p) ==> p.count < u64::MAX,
    ensures
        w == window_hit(prior, now, window_secs),
{
    match prior {
        Some(p) => {
            if now < p.expires_at {
                WindowState { count: p.count + 1, expires_at: p.expires_at }
            } else {
                WindowState { count: 1, expires_at: now + window_secs }
            }
        },
        None => WindowState { count: 1, expires_at: now + window_secs },
    }
}

/// The counter state after hits at the given instants, oldest first,
/// starting from an absent key.
pub open spec fn window_after(times: Seq<u64>, window_secs: u64) -> Option<WindowState>
    decreases times.len(),
{
    if times.len() == 0 {
        None
    } else {
        Some(window_hit(window_after(times.drop_last(), window_secs), times.last(), window_secs))
    }
}

/// Law: as long as every hit falls inside the window the first hit opened,
/// the counter counts exactly — after the N-th request it reads N, and the
/// window's expiry still stands where the first hit set it.
pub proof fn lemma_window_counting(times: Seq<u64>, window_secs: u64)
    requires
        1 <= times.len() <= u64::MAX,
        times[0] + window_secs <= u64::MAX,
        forall|i: int| 0 <= i < times.len() ==> times[0] <= #[trigger] times[i] < times[0] + window_secs,
    ensures
        window_after(times, window_secs) == Some(
            WindowState {
                count: times.len() as u64,
                expires_at: (times[0] + window_secs) as u64,
            },
        ),
    decreases times.len(),
{
    if times.len() == 1 {
    } else {
        let prefix = times.drop_last();
        assert(prefix[0] == times[0]);
        assert(forall|i: int| 0 <= i < prefix.len()
            ==> prefix[0] <= #[trigger] prefix[i] < prefix[0] + window_secs);
        lemma_window_counting(prefix, window_secs);
    }
}

/// A request is allowed when the count of the window it fell in, its own
/// hit included, does not exceed the threshold.
pub open spec fn allow_spec(count: u64, threshold: u32) -> bool {
    count <= threshold
}

/// Law: for any token, the N-th request within a single unexpired window is
/// decided `Allow` iff N does not exceed the threshold, and decided
/// `DenyRateLimited` for every N beyond it until the window expires.
pub proof fn lemma_nth_request_in_window(times: Seq<u64>, window_secs: u64, threshold: u32)
    requires
        1 <= times.len() <= u64::MAX,
        times[0] + window_secs <= u64::MAX,
        forall|i: int| 0 <= i < times.len() ==> times[0] <= #[trigger] times[i] < times[0] + window_secs,
    ensures
        ({
            let w = window_after(times, window_secs);
            w matches Some(s)
                && (decision_of(Ok(s.count), threshold) == AuthzDecision::Allow
                    <==> times.len() <= threshold)
                && (decision_of(Ok(s.count), threshold) == AuthzDecision::DenyRateLimited
                    <==> times.len() > threshold)
        }),
{
    lemma_window_counting(times, window_secs);
}

/// Law: once a window has expired, the next hit is request number one of a
/// fresh window — the count restarts at 1 rather than carrying on.
pub proof fn lemma_expired_window_resets(w: WindowState, now: u64, window_secs: u64)
    requires
        w.expires_at <= now,
        now + window_secs <= u64::MAX,
    ensures
        window_hit(Some(w), now, window_secs)
            == (WindowState { count: 1, expires_at: (now + window_secs) as u64 }),
{
}

/// Why the limiter could not reach a verdict from the store.
#[derive(Clone, Copy, Debug, PartialEq, Eq, Structural)]
pub enum RateLimitError {
    /// Connecting to the store failed.
    Connection,
    /// The store rejected or failed the counter operation.
    Operation,
}

/// The verdict on one request's admission.
#[derive(Clone, Copy, Debug, PartialEq, Eq, Structural)]
pub enum AuthzDecision {
    /// Forward the request upstream.
    Allow,
    /// No credential was presented; the store is never consulted.
    DenyMissingCredential,
    /// The window's count exceeds the threshold.
    DenyRateLimited,
    /// The store could not be reached: fail closed, block the request.
    Unavailable,
}

/// The verdict the counter outcome dictates: allowed within the threshold,
/// denied beyond it, and unavailable (fail closed) when the store failed.
pub open spec fn decision_of(count: Result<u64, RateLimitError>, threshold: u32) -> AuthzDecision {
    match count {
        Ok(c) => if allow_spec(c, threshold) {
            AuthzDecision::Allow
        } else {
            AuthzDecision::DenyRateLimited
        },
        Err(_) => AuthzDecision::Unavailable,
    }
}

/// Decide a request from the store's answer: the count the atomic increment
/// returned, or the failure that kept it from returning one.
pub fn limit_decision(count: Result<u64, RateLimitError>, threshold: u32) -> (d: AuthzDecision)
    ensures
        d == decision_of(count, threshold),
{
    match count {
        Ok(c) => {
            if c <= threshold as u64 {
                AuthzDecision::Allow
            } else {
                AuthzDecision::DenyRateLimited
            }
        },
        Err(_) => AuthzDecision::Unavailable,
    }
}

/// The bearer credential carried by an authorization header value: what
/// follows `Bearer `, empty when the header is absent or shaped otherwise.
pub open spec fn bearer_token_of(header: Option<Seq<char>>) -> Seq<char> {
    match header {
        Some(h) => if text::starts_with(h, "Bearer "@) {
            text::strip_prefix_spec(h, "Bearer "@)
        } else {
            Seq::empty()
        },
        None => Seq::empty(),
    }
}

/// Extract the bearer token from the request's authorization header value;
/// empty when the header is absent, empty, or not a bearer credential.
pub fn extract_bearer_token(header: Option<&str>) -> (t: String)
    ensures
        t@ == bearer_token_of(header.deep_view()),
{
    match header {
        Some(h) => {
            if text::str_starts_with(h, "Bearer ") {
                String::from_str(text::str_strip_prefix(h, "Bearer "))
            } else {
                String::new()
            }
        },
        None => String::new(),
    }
}

/// The store key of a token's counter: a fixed namespace prefix followed by
/// the token value itself.
pub fn counter_key(token: &str) -> (k: String)
    ensures
        k@ == "ratelimit:"@ + token@,
{
    let mut k = String::from_str("ratelimit:");
    k.append(token);
    k
}

/// First half of admission: let the request reach the counter check only with
/// a non-empty bearer credential; otherwise deny before any store access.
pub fn admission_begin(auth_header: Option<&str>) -> (r: Result<String, AuthzDecision>)
    ensures
        match r {
            Ok(t) => t@ == bearer_token_of(auth_header.deep_view()) && t@.len() > 0,
            Err(d) => d == AuthzDecision::DenyMissingCredential
                && bearer_token_of(auth_header.deep_view()).len() == 0,
        },
{
    let t = extract_bearer_token(auth_header);
    if t.as_str().unicode_len() == 0 {
        Err(AuthzDecision::DenyMissingCredential)
    } else {
        Ok(t)
    }
}

/// The body of the response that names the exceeded threshold.
pub open spec fn rate_limit_message_spec(threshold: u32) -> Seq<char> {
    "Rate limit exceeded: "@ + text::dec_digits(threshold as nat) + " requests per minute"@
}

/// Render the message a rate-limited caller receives, naming the configured
/// threshold.
pub fn rate_limit_message(threshold: u32) -> (m: String)
    ensures
        m@ == rate_limit_message_spec(threshold),
{
    let mut m = String::from_str("Rate limit exceeded: ");
    let digits = text::format_u32(threshold);
    m.append(digits.as_str());
    m.append(" requests per minute");
    assert(m@ =~= rate_limit_message_spec(threshold));
    m
}

/// The HTTP status and body answering a blocked request; `None` exactly when
/// the request is allowed through to the forwarder.
pub fn decision_response(d: AuthzDecision, threshold: u32) -> (r: Option<(u16, String)>)
    ensures
        match r {
            None => d == AuthzDecision::Allow,
            Some(resp) => d != AuthzDecision::Allow
                && (d == AuthzDecision::DenyMissingCredential
                    ==> resp.0 == 401 && resp.1@ == "Missing or invalid Authorization header"@)
                && (d == AuthzDecision::DenyRateLimited
                    ==> resp.0 == 429 && resp.1@ == rate_limit_message_spec(threshold))
                && (d == AuthzDecision::Unavailable
                    ==> resp.0 == 500 && resp.1@ == "Rate limiting service unavailable"@),
        },
{
    match d {
        AuthzDecision::Allow => None,
        AuthzDecision::DenyMissingCredential => Some(
            (401, String::from_str("Missing or invalid Authorization header")),
        ),
        AuthzDecision::DenyRateLimited => Some((429, rate_limit_message(threshold))),
        AuthzDecision::Unavailable => Some(
            (500, String::from_str("Rate limiting service unavailable")),
        ),
    }
}

} // verus!
