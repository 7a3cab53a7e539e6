//! Throttling and retry policy for outbound PDG REST requests.
//!
//! The HTTP transport, the token bucket clock and the sleeping stay with the
//! caller; this module decides, for each response, whether to retry (and
//! after which backoff), to report a miss, to decode the body, or to fail,
//! and keeps the diagnostic counters.
use vstd::prelude::*;

use crate::text::{int_decimal, nat_decimal, push_nat, push_str, seq_contains_seq, str_contains, to_chars};
use crate::SpireError;

verus! {

/// Rate-limit and retry configuration.
#[derive(Debug, Clone, Copy, PartialEq, Eq, Structural)]
pub struct NetworkThrottleConfig {
    /// Target steady-state request rate in requests per second.
    pub requests_per_second: u32,
    /// Maximum burst capacity in whole requests.
    pub burst_capacity: u32,
    /// Maximum number of retries after the initial attempt.
    pub max_retries: u32,
    /// Initial retry backoff in milliseconds.
    pub base_backoff_ms: u64,
    /// Per-request timeout in milliseconds.
    pub request_timeout_ms: u64,
    /// Maximum allowed in-flight queue depth.
    pub max_queue_depth: usize,
}

impl Default for NetworkThrottleConfig {
    /// 5 requests/s, bursts of 2, 3 retries from 250 ms, 2.5 s timeout,
    /// queue depth 16.
    fn default() -> (c: Self)
        ensures
            c.requests_per_second == 5,
            c.burst_capacity == 2,
            c.max_retries == 3,
            c.base_backoff_ms == 250,
            c.request_timeout_ms == 2500,
            c.max_queue_depth == 16,
    {
        NetworkThrottleConfig {
            requests_per_second: 5,
            burst_capacity: 2,
            max_retries: 3,
            base_backoff_ms: 250,
            request_timeout_ms: 2_500,
            max_queue_depth: 16,
        }
    }
}

/// Diagnostics of throttled network activity.
#[derive(Debug)]
pub struct NetworkDiagnostics {
    /// Completed request attempts (including retries).
    pub total_requests: u64,
    /// Attempts delayed by throttling.
    pub throttled_requests: u64,
    /// Rate-limit responses (429).
    pub responses_429: u64,
    /// Service-unavailable responses (503).
    pub responses_503: u64,
    /// Retries triggered by transient failures.
    pub retries: u64,
    /// Current in-flight queue depth.
    pub queue_depth: usize,
    /// Maximum observed in-flight queue depth.
    pub queue_depth_peak: usize,
    /// Most recent HTTP status code.
    pub last_status_code: Option<u16>,
    /// Most recent backoff in milliseconds.
    pub last_backoff_ms: Option<u64>,
    /// Most recent error text.
    pub last_error: Option<String>,
}

/// HTTP response handling mode for optional entity lookups.
#[derive(Debug, Clone, Copy, PartialEq, Eq, Structural)]
pub enum ResponseMode {
    /// Expect a successful JSON payload.
    Required,
    /// Treat HTTP 404 as a miss.
    Optional404,
}

/// Views of the error text of the diagnostics.
pub open spec fn opt_view(o: Option<String>) -> Option<Seq<char>> {
    match o {
        Some(s) => Some(s@),
        None => None,
    }
}

impl NetworkDiagnostics {
    /// All counters at zero, nothing recorded.
    pub fn new() -> (d: Self)
        ensures
            d.total_requests == 0 && d.throttled_requests == 0 && d.responses_429 == 0,
            d.responses_503 == 0 && d.retries == 0 && d.queue_depth == 0 && d.queue_depth_peak == 0,
            d.last_status_code.is_none() && d.last_backoff_ms.is_none() && d.last_error.is_none(),
    {
        NetworkDiagnostics {
            total_requests: 0,
            throttled_requests: 0,
            responses_429: 0,
            responses_503: 0,
            retries: 0,
            queue_depth: 0,
            queue_depth_peak: 0,
            last_status_code: None,
            last_backoff_ms: None,
            last_error: None,
        }
    }

    /// A copy of the current values.
    pub fn snapshot(&self) -> (d: Self)
        ensures
            d.total_requests == self.total_requests,
            d.throttled_requests == self.throttled_requests,
            d.responses_429 == self.responses_429,
            d.responses_503 == self.responses_503,
            d.retries == self.retries,
            d.queue_depth == self.queue_depth,
            d.queue_depth_peak == self.queue_depth_peak,
            d.last_status_code == self.last_status_code,
            d.last_backoff_ms == self.last_backoff_ms,
            opt_view(d.last_error) == opt_view(self.last_error),
    {
        NetworkDiagnostics {
            total_requests: self.total_requests,
            throttled_requests: self.throttled_requests,
            responses_429: self.responses_429,
            responses_503: self.responses_503,
            retries: self.retries,
            queue_depth: self.queue_depth,
            queue_depth_peak: self.queue_depth_peak,
            last_status_code: self.last_status_code,
            last_backoff_ms: self.last_backoff_ms,
            last_error: match &self.last_error {
                Some(e) => Some(e.clone()),
                None => None,
            },
        }
    }

    /// Record the most recent error.
    pub fn set_last_error(&mut self, message: &str)
        ensures
            opt_view(final(self).last_error) == Some(message@),
            final(self).total_requests == old(self).total_requests,
            final(self).throttled_requests == old(self).throttled_requests,
            final(self).responses_429 == old(self).responses_429,
            final(self).responses_503 == old(self).responses_503,
            final(self).retries == old(self).retries,
            final(self).queue_depth == old(self).queue_depth,
            final(self).queue_depth_peak == old(self).queue_depth_peak,
            final(self).last_status_code == old(self).last_status_code,
            final(self).last_backoff_ms == old(self).last_backoff_ms,
    {
        self.last_error = Some(String::from_str(message));
    }

    /// Raise the recorded peak queue depth to `candidate` if it is higher.
    pub fn bump_peak(&mut self, candidate: usize)
        ensures
            final(self).queue_depth_peak == if candidate > old(self).queue_depth_peak { candidate } else { old(self).queue_depth_peak },
            final(self).total_requests == old(self).total_requests,
            final(self).throttled_requests == old(self).throttled_requests,
            final(self).responses_429 == old(self).responses_429,
            final(self).responses_503 == old(self).responses_503,
            final(self).retries == old(self).retries,
            final(self).queue_depth == old(self).queue_depth,
            final(self).last_status_code == old(self).last_status_code,
            final(self).last_backoff_ms == old(self).last_backoff_ms,
            opt_view(final(self).last_error) == opt_view(old(self).last_error),
    {
        if candidate > self.queue_depth_peak {
            self.queue_depth_peak = candidate;
        }
    }
}

// ---------------------------------------------------------------------------
// Backoff
// ---------------------------------------------------------------------------

/// `2^n`.
pub open spec fn pow2(n: nat) -> nat
    decreases n,
{
    if n == 0 { 1 } else { 2 * pow2((n - 1) as nat) }
}

/// Backoff before retry number `attempt + 1`: the base backoff doubled per
/// attempt, the exponent capped at 6, saturating at `u64::MAX`.
pub open spec fn backoff_spec(base_ms: u64, attempt: u32) -> nat {
    let e: nat = if attempt < 6 { attempt as nat } else { 6 };
    let p = base_ms * pow2(e);
    if p > u64::MAX { u64::MAX as nat } else { p as nat }
}

/// Compute the retry backoff in milliseconds.
pub fn compute_backoff(base_backoff_ms: u64, attempt: u32) -> (ms: u64)
    ensures
        ms == backoff_spec(base_backoff_ms, attempt),
{
    let exponent: u32 = if attempt < 6 { attempt } else { 6 };
    let mut multiplier: u64 = 1;
    let mut k: u32 = 0;
    while k < exponent
        invariant
            k <= exponent <= 6,
            multiplier == pow2(k as nat),
            multiplier <= 64,
        decreases exponent - k,
    {
        multiplier = multiplier * 2;
        k = k + 1;
        assert(pow2(k as nat) == 2 * pow2((k - 1) as nat));
        assert(k <= 6 ==> pow2(k as nat) <= 64) by {
            assert(pow2(0) == 1);
            assert(pow2(1) == 2);
            assert(pow2(2) == 4);
            assert(pow2(3) == 8);
            assert(pow2(4) == 16);
            assert(pow2(5) == 32);
            assert(pow2(6) == 64);
        }
    }
    match base_backoff_ms.checked_mul(multiplier) {
        Some(p) => p,
        None => u64::MAX,
    }
}

proof fn lemma_pow2_monotone(m: nat, n: nat)
    requires
        m <= n,
    ensures
        pow2(m) <= pow2(n),
    decreases n,
{
    if m < n {
        lemma_pow2_monotone(m, (n - 1) as nat);
    }
}

/// The retry backoff never decreases from one attempt to the next, and it
/// never exceeds 64 times the base backoff.
pub proof fn lemma_backoff_monotone_and_capped(base_ms: u64, a: u32, b: u32)
    requires
        a <= b,
    ensures
        backoff_spec(base_ms, a) <= backoff_spec(base_ms, b),
        backoff_spec(base_ms, b) <= base_ms * 64,
{
    let ea: nat = if a < 6 { a as nat } else { 6 };
    let eb: nat = if b < 6 { b as nat } else { 6 };
    lemma_pow2_monotone(ea, eb);
    lemma_pow2_monotone(eb, 6);
    assert(pow2(6) == 64) by {
        assert(pow2(0) == 1);
        assert(pow2(1) == 2);
        assert(pow2(2) == 4);
        assert(pow2(3) == 8);
        assert(pow2(4) == 16);
        assert(pow2(5) == 32);
    }
    assert(base_ms * pow2(ea) <= base_ms * pow2(eb)) by (nonlinear_arith)
        requires
            pow2(ea) <= pow2(eb),
    ;
    assert(base_ms * pow2(eb) <= base_ms * 64) by (nonlinear_arith)
        requires
            pow2(eb) <= 64,
    ;
}

// ---------------------------------------------------------------------------
// Queue admission
// ---------------------------------------------------------------------------

/// Text of the error for a request refused by the queue limit.
pub open spec fn queue_error_text(depth: nat, limit: nat) -> Seq<char> {
    "PDG REST queue depth "@ + nat_decimal(depth) + " exceeded configured limit "@ + nat_decimal(limit)
}

/// Admit a request that raises the in-flight queue to `depth`: the peak is
/// raised; beyond the configured limit the request is refused, the error is
/// recorded, and the depth is not counted.
pub fn admit_request(cfg: &NetworkThrottleConfig, diag: &mut NetworkDiagnostics, depth: usize) -> (r: Result<(), SpireError>)
    ensures
        final(diag).queue_depth_peak == if depth > old(diag).queue_depth_peak { depth } else { old(diag).queue_depth_peak },
        depth <= cfg.max_queue_depth <==> r is Ok,
        depth <= cfg.max_queue_depth ==> opt_view(final(diag).last_error) == opt_view(old(diag).last_error),
        depth > cfg.max_queue_depth ==> (r matches Err(SpireError::InternalError(m))
            && m@ == queue_error_text(depth as nat, cfg.max_queue_depth as nat)
            && opt_view(final(diag).last_error) == Some(m@)),
        final(diag).total_requests == old(diag).total_requests,
        final(diag).retries == old(diag).retries,
        final(diag).queue_depth == old(diag).queue_depth,
{
    diag.bump_peak(depth);
    if depth > cfg.max_queue_depth {
        let mut m = String::from_str("PDG REST queue depth ");
        push_nat(&mut m, depth as u64);
        push_str(&mut m, " exceeded configured limit ");
        push_nat(&mut m, cfg.max_queue_depth as u64);
        diag.set_last_error(m.as_str());
        return Err(SpireError::InternalError(m));
    }
    Ok(())
}

// ---------------------------------------------------------------------------
// Response handling
// ---------------------------------------------------------------------------

/// What a request attempt came back with.
#[derive(Debug)]
pub enum RequestOutcome {
    /// A success response with this status code.
    Success(u16),
    /// An error status, with the server's status text.
    Status(u16, String),
    /// A transport failure, with its description.
    Transport(String),
}

/// What to do after an attempt.
#[derive(Debug)]
pub enum RequestStep {
    /// Read and decode the response body.
    Decode,
    /// The entity does not exist (404 in optional mode).
    Missing,
    /// Sleep this many milliseconds, then try again.
    Retry(u64),
    /// Give up with this error.
    Fail(SpireError),
}

/// ASCII lower-case form of a character.
pub open spec fn ascii_lower(c: char) -> char {
    if 'A' <= c && c <= 'Z' { ((c as int) + 32) as char } else { c }
}

/// ASCII lower-case form of a text.
pub open spec fn ascii_lowercase(s: Seq<char>) -> Seq<char> {
    s.map_values(|c: char| ascii_lower(c))
}

fn lower_ascii(s: &str) -> (r: String)
    ensures
        r@ == ascii_lowercase(s@),
{
    let cs = to_chars(s);
    let mut r = String::new();
    let mut i: usize = 0;
    while i < cs.len()
        invariant
            cs@ == s@,
            i <= cs@.len(),
            r@ == ascii_lowercase(s@).take(i as int),
        decreases cs@.len() - i,
    {
        let c = cs[i];
        let d = if 'A' <= c && c <= 'Z' { ((c as u32) + 32) as u8 as char } else { c };
        proof {
            if 'A' <= c && c <= 'Z' {
                assert(d == ascii_lower(c));
            }
        }
        crate::text::push_char(&mut r, d);
        assert(ascii_lowercase(s@).take(i + 1) =~= ascii_lowercase(s@).take(i as int).push(d));
        i = i + 1;
    }
    assert(ascii_lowercase(s@).take(cs@.len() as int) =~= ascii_lowercase(s@));
    r
}

/// Text of the error for a failed HTTP status.
pub open spec fn status_error_text(code: u16, status_text: Seq<char>) -> Seq<char> {
    "PDG REST request failed with HTTP "@ + nat_decimal(code as nat) + " "@ + status_text
}

/// Text of the error for a transport failure that is a timeout.
pub open spec fn timeout_error_text(timeout_ms: u64) -> Seq<char> {
    "PDG REST API timeout after "@ + nat_decimal(timeout_ms as nat) + " ms"@
}

/// Text of the error for another transport failure.
pub open spec fn transport_error_text(message: Seq<char>) -> Seq<char> {
    "PDG REST transport error: "@ + message
}

/// A counter after one more event (wrapping at `u64::MAX`, like an atomic
/// counter).
pub open spec fn bump(x: u64) -> u64 {
    if x == u64::MAX { 0 } else { (x + 1) as u64 }
}

/// The counters other than those named are unchanged.
pub open spec fn same_traffic(a: NetworkDiagnostics, b: NetworkDiagnostics) -> bool {
    &&& a.total_requests == b.total_requests
    &&& a.throttled_requests == b.throttled_requests
    &&& a.queue_depth == b.queue_depth
    &&& a.queue_depth_peak == b.queue_depth_peak
}

/// Decide what follows an attempt, and update the diagnostics.
///
/// - success: record the status, clear the error, decode the body;
/// - an error status: record it; a 404 in optional mode is a miss; 429 and
///   503 are counted and retried with backoff while retries remain; any
///   other status fails with a `DatabaseError`;
/// - a transport failure: retried with backoff while retries remain, then a
///   timeout error (when the description mentions "timed out", in any case)
///   or a transport error, both `InternalError`.
///
/// A retry counts in `retries` and records its backoff; a failure records
/// its message as the last error.
pub fn after_attempt(
    cfg: &NetworkThrottleConfig,
    mode: ResponseMode,
    attempt: u32,
    outcome: &RequestOutcome,
    diag: &mut NetworkDiagnostics,
) -> (step: RequestStep)
    ensures
        same_traffic(*old(diag), *final(diag)),
        match *outcome {
            RequestOutcome::Success(code) => {
                &&& step is Decode
                &&& final(diag).last_status_code == Some(code)
                &&& final(diag).last_error.is_none()
                &&& final(diag).retries == old(diag).retries
                &&& final(diag).responses_429 == old(diag).responses_429
                &&& final(diag).responses_503 == old(diag).responses_503
                &&& final(diag).last_backoff_ms == old(diag).last_backoff_ms
            },
            RequestOutcome::Status(code, text) => {
                &&& final(diag).last_status_code == Some(code)
                &&& if mode == ResponseMode::Optional404 && code == 404 {
                    &&& step is Missing
                    &&& final(diag).retries == old(diag).retries
                    &&& final(diag).responses_429 == old(diag).responses_429
                    &&& final(diag).responses_503 == old(diag).responses_503
                    &&& opt_view(final(diag).last_error) == opt_view(old(diag).last_error)
                } else {
                    &&& final(diag).responses_429 == if code == 429 { bump(old(diag).responses_429) } else { old(diag).responses_429 }
                    &&& final(diag).responses_503 == if code == 503 { bump(old(diag).responses_503) } else { old(diag).responses_503 }
                    &&& if (code == 429 || code == 503) && attempt < cfg.max_retries {
                        &&& step == RequestStep::Retry(backoff_spec(cfg.base_backoff_ms, attempt) as u64)
                        &&& final(diag).retries == bump(old(diag).retries)
                        &&& final(diag).last_backoff_ms == Some(backoff_spec(cfg.base_backoff_ms, attempt) as u64)
                        &&& opt_view(final(diag).last_error) == opt_view(old(diag).last_error)
                    } else {
                        &&& step matches RequestStep::Fail(SpireError::DatabaseError(m))
                        &&& m@ == status_error_text(code, text@)
                        &&& opt_view(final(diag).last_error) == Some(status_error_text(code, text@))
                        &&& final(diag).retries == old(diag).retries
                        &&& final(diag).last_backoff_ms == old(diag).last_backoff_ms
                    }
                }
            },
            RequestOutcome::Transport(message) => {
                &&& final(diag).last_status_code == old(diag).last_status_code
                &&& final(diag).responses_429 == old(diag).responses_429
                &&& final(diag).responses_503 == old(diag).responses_503
                &&& if attempt < cfg.max_retries {
                    &&& step == RequestStep::Retry(backoff_spec(cfg.base_backoff_ms, attempt) as u64)
                    &&& final(diag).retries == bump(old(diag).retries)
                    &&& final(diag).last_backoff_ms == Some(backoff_spec(cfg.base_backoff_ms, attempt) as u64)
                    &&& opt_view(final(diag).last_error) == opt_view(old(diag).last_error)
                } else {
                    let text = if seq_contains_seq(ascii_lowercase(message@), "timed out"@) {
                        timeout_error_text(cfg.request_timeout_ms)
                    } else {
                        transport_error_text(message@)
                    };
                    &&& step matches RequestStep::Fail(SpireError::InternalError(m))
                    &&& m@ == text
                    &&& opt_view(final(diag).last_error) == Some(text)
                    &&& final(diag).retries == old(diag).retries
                    &&& final(diag).last_backoff_ms == old(diag).last_backoff_ms
                }
            },
        },
{
    match outcome {
        RequestOutcome::Success(code) => {
            diag.last_status_code = Some(*code);
            diag.last_error = None;
            RequestStep::Decode
        }
        RequestOutcome::Status(code, text) => {
            let code = *code;
            diag.last_status_code = Some(code);
            if mode == ResponseMode::Optional404 && code == 404 {
                return RequestStep::Missing;
            }
            if code == 429 {
                diag.responses_429 = diag.responses_429.wrapping_add(1);
            } else if code == 503 {
                diag.responses_503 = diag.responses_503.wrapping_add(1);
            }
            if (code == 429 || code == 503) && attempt < cfg.max_retries {
                let backoff = compute_backoff(cfg.base_backoff_ms, attempt);
                diag.retries = diag.retries.wrapping_add(1);
                diag.last_backoff_ms = Some(backoff);
                return RequestStep::Retry(backoff);
            }
            let mut m = String::from_str("PDG REST request failed with HTTP ");
            push_nat(&mut m, code as u64);
            push_str(&mut m, " ");
            push_str(&mut m, text.as_str());
            diag.set_last_error(m.as_str());
            RequestStep::Fail(SpireError::DatabaseError(m))
        }
        RequestOutcome::Transport(message) => {
            if attempt < cfg.max_retries {
                let backoff = compute_backoff(cfg.base_backoff_ms, attempt);
                diag.retries = diag.retries.wrapping_add(1);
                diag.last_backoff_ms = Some(backoff);
                return RequestStep::Retry(backoff);
            }
            let lower = lower_ascii(message.as_str());
            let m = if str_contains(lower.as_str(), "timed out") {
                let mut m = String::from_str("PDG REST API timeout after ");
                push_nat(&mut m, cfg.request_timeout_ms);
                push_str(&mut m, " ms");
                m
            } else {
                let mut m = String::from_str("PDG REST transport error: ");
                push_str(&mut m, message.as_str());
                m
            };
            diag.set_last_error(m.as_str());
            RequestStep::Fail(SpireError::InternalError(m))
        }
    }
}

} // verus!
