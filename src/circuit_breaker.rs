//! Circuit breaker: counts failing responses and, while open, replays the
//! last failing response instead of calling downstream.

use vstd::prelude::*;
use crate::config::{ConfigError, check_status, status_valid};
use crate::text::pairs_view;

verus! {

/// Which response statuses count as failures.
#[derive(Clone, Debug)]
pub enum BreakStatusCodes {
    In(Vec<u16>),
    NotIn(Vec<u16>),
}

#[derive(Clone, Debug)]
pub struct CircuitBreakerConfig {
    pub break_status_codes: BreakStatusCodes,
    pub start_breaker_sec: u64,
    pub max_breaker_sec: u64,
    pub failures: u32,
}

pub fn default_start_breaker_sec() -> (r: u64)
    ensures
        r == 2,
{
    2
}

pub fn default_max_breaker_sec() -> (r: u64)
    ensures
        r == 60,
{
    60
}

pub fn default_failures() -> (r: u32)
    ensures
        r == 3,
{
    3
}

/// Decides which response statuses are failures.
pub enum ErrorChecker {
    StatusCodeIn(Vec<u16>),
    StatusCodeNotIn(Vec<u16>),
}

pub open spec fn is_error_status(c: ErrorChecker, status: u16) -> bool {
    match c {
        ErrorChecker::StatusCodeIn(codes) => codes@.contains(status),
        ErrorChecker::StatusCodeNotIn(codes) => !codes@.contains(status),
    }
}

fn contains_code(codes: &Vec<u16>, status: u16) -> (r: bool)
    ensures
        r == codes@.contains(status),
{
    let mut k: usize = 0;
    while k < codes.len()
        invariant
            k <= codes@.len(),
            forall|j: int| 0 <= j < k ==> #[trigger] codes@[j] != status,
        decreases codes@.len() - k,
    {
        if codes[k] == status {
            assert(codes@[k as int] == status);
            return true;
        }
        k = k + 1;
    }
    false
}

impl ErrorChecker {
    pub fn is_error(&self, status: u16) -> (r: bool)
        ensures
            r == is_error_status(*self, status),
    {
        match self {
            ErrorChecker::StatusCodeIn(codes) => contains_code(codes, status),
            ErrorChecker::StatusCodeNotIn(codes) => !contains_code(codes, status),
        }
    }
}

/// Checks that every code is a valid status, and copies them.
pub fn parse_status_codes(codes: &Vec<u16>) -> (r: Result<Vec<u16>, ConfigError>)
    ensures
        match r {
            Ok(v) => v@ == codes@ && forall|k: int| 0 <= k < codes@.len() ==> status_valid(#[trigger] codes@[k]),
            Err(e) => exists|k: int|
                0 <= k < codes@.len() && !status_valid(#[trigger] codes@[k]) && e
                    == ConfigError::InvalidStatusCode(codes@[k]),
        },
{
    let mut v: Vec<u16> = Vec::new();
    let mut k: usize = 0;
    while k < codes.len()
        invariant
            k <= codes@.len(),
            v@ == codes@.subrange(0, k as int),
            forall|j: int| 0 <= j < k ==> status_valid(#[trigger] codes@[j]),
        decreases codes@.len() - k,
    {
        match check_status(codes[k]) {
            Ok(c) => { v.push(c); },
            Err(e) => { return Err(e); },
        }
        k = k + 1;
        assert(v@ =~= codes@.subrange(0, k as int));
    }
    assert(codes@.subrange(0, codes@.len() as int) =~= codes@);
    Ok(v)
}

#[verifier::external_type_specification]
#[verifier::external_body]
#[verifier::reject_recursive_types(POLICY)]
#[verifier::reject_recursive_types(INSTRUMENT)]
pub struct ExStateMachine<POLICY, INSTRUMENT>(failsafe::StateMachine<POLICY, INSTRUMENT>);

#[verifier::external_type_specification]
#[verifier::external_body]
#[verifier::reject_recursive_types(BACKOFF)]
pub struct ExConsecutiveFailures<BACKOFF>(failsafe::failure_policy::ConsecutiveFailures<BACKOFF>);

#[verifier::external_type_specification]
#[verifier::external_body]
pub struct ExExponential(failsafe::backoff::Exponential);

/// The breaker's state machine: opens after consecutive failures, for an
/// exponentially growing window.
pub type Breaker = failsafe::StateMachine<failsafe::failure_policy::ConsecutiveFailures<failsafe::backoff::Exponential>, ()>;

/// The longest backoff window, in seconds: failsafe doubles the start up to
/// thirty times and adds the window to the clock, both of which stay in
/// range below it.
pub const MAX_BREAKER_SEC: u64 = 4294967296;

/// Relies on failsafe's consecutive_failures policy with an exponential
/// backoff from `start` to `max` seconds; failsafe's exponential panics
/// unless both are positive and `start <= max`, and a window above
/// `MAX_BREAKER_SEC` overflows when the breaker opens.
#[verifier::external_body]
fn new_breaker(failures: u32, start: u64, max: u64) -> (r: Breaker)
    requires
        start > 0,
        max > 0,
        start <= max,
        max <= MAX_BREAKER_SEC,
{
    failsafe::Config::new()
        .failure_policy(failsafe::failure_policy::consecutive_failures(
            failures,
            failsafe::backoff::exponential(
                std::time::Duration::from_secs(start),
                std::time::Duration::from_secs(max),
            ),
        ))
        .build()
}

/// Relies on failsafe::StateMachine::is_call_permitted; the answer depends
/// on the clock, so nothing is stated of it.
#[verifier::external_body]
fn breaker_permits(b: &Breaker) -> (r: bool) {
    b.is_call_permitted()
}

/// Relies on failsafe::StateMachine::on_success.
#[verifier::external_body]
fn breaker_success(b: &Breaker) {
    b.on_success()
}

/// Relies on failsafe::StateMachine::on_error.
#[verifier::external_body]
fn breaker_error(b: &Breaker) {
    b.on_error()
}

/// A failing response, kept to be replayed while the breaker is open.
pub struct ErrorResponse {
    pub status: u16,
    pub headers: Vec<(String, String)>,
    pub body: Vec<u8>,
}

pub open spec fn same_response(a: ErrorResponse, b: ErrorResponse) -> bool {
    a.status == b.status && pairs_view(a.headers@) == pairs_view(b.headers@) && a.body@ == b.body@
}

fn copy_response(r: &ErrorResponse) -> (c: ErrorResponse)
    ensures
        same_response(c, *r),
{
    let mut headers: Vec<(String, String)> = Vec::new();
    let mut k: usize = 0;
    while k < r.headers.len()
        invariant
            k <= r.headers@.len(),
            pairs_view(headers@) == pairs_view(r.headers@.subrange(0, k as int)),
        decreases r.headers@.len() - k,
    {
        let ghost before = headers@;
        let name = r.headers[k].0.clone();
        let value = r.headers[k].1.clone();
        assert(name@ == r.headers@[k as int].0@ && value@ == r.headers@[k as int].1@);
        headers.push((name, value));
        assert(headers@ == before.push((name, value)));
        assert(pairs_view(r.headers@.subrange(0, k + 1)) =~= pairs_view(r.headers@.subrange(0, k as int)).push((name@, value@)));
        assert(pairs_view(headers@) =~= pairs_view(before).push((name@, value@)));
        k = k + 1;
        assert(pairs_view(headers@) =~= pairs_view(r.headers@.subrange(0, k as int)));
    }
    assert(r.headers@.subrange(0, r.headers@.len() as int) =~= r.headers@);
    let mut body: Vec<u8> = Vec::new();
    let mut j: usize = 0;
    while j < r.body.len()
        invariant
            j <= r.body@.len(),
            body@ == r.body@.subrange(0, j as int),
        decreases r.body@.len() - j,
    {
        body.push(r.body[j]);
        j = j + 1;
        assert(body@ =~= r.body@.subrange(0, j as int));
    }
    assert(r.body@.subrange(0, r.body@.len() as int) =~= r.body@);
    ErrorResponse { status: r.status, headers, body }
}

/// What the breaker does before the downstream call.
pub enum BreakerStep {
    /// Call downstream, then report the response with `after_call`.
    Call,
    /// Answer with this copy of the last failing response.
    Replay(ErrorResponse),
}

/// The circuit-breaker plugin.
pub struct CircuitBreaker {
    pub error_checker: ErrorChecker,
    pub cb: Breaker,
    pub last_err_resp: Option<ErrorResponse>,
}

/// The backoff window is valid: it starts above zero, not above its
/// maximum, and the maximum is in range.
pub open spec fn window_valid(cfg: CircuitBreakerConfig) -> bool {
    cfg.start_breaker_sec > 0 && cfg.start_breaker_sec <= cfg.max_breaker_sec && cfg.max_breaker_sec
        <= MAX_BREAKER_SEC
}

impl CircuitBreaker {
    /// Instantiates the plugin: every break status must be valid, and the
    /// backoff window must start above zero and not above its maximum.
    pub fn new(cfg: &CircuitBreakerConfig) -> (r: Result<CircuitBreaker, ConfigError>)
        ensures
            match r {
                Ok(b) => {
                    &&& b.last_err_resp is None
                    &&& window_valid(*cfg)
                    &&& match (b.error_checker, cfg.break_status_codes) {
                        (ErrorChecker::StatusCodeIn(v), BreakStatusCodes::In(c)) => v@ == c@,
                        (ErrorChecker::StatusCodeNotIn(v), BreakStatusCodes::NotIn(c)) => v@ == c@,
                        _ => false,
                    }
                },
                Err(ConfigError::InvalidStatusCode(code)) => match cfg.break_status_codes {
                    BreakStatusCodes::In(c) => c@.contains(code) && !status_valid(code),
                    BreakStatusCodes::NotIn(c) => c@.contains(code) && !status_valid(code),
                },
                Err(ConfigError::InvalidBreakerWindow) => !window_valid(*cfg),
                Err(_) => false,
            },
    {
        let error_checker = match &cfg.break_status_codes {
            BreakStatusCodes::In(codes) => match parse_status_codes(codes) {
                Ok(v) => ErrorChecker::StatusCodeIn(v),
                Err(e) => { return Err(e); },
            },
            BreakStatusCodes::NotIn(codes) => match parse_status_codes(codes) {
                Ok(v) => ErrorChecker::StatusCodeNotIn(v),
                Err(e) => { return Err(e); },
            },
        };
        if !(cfg.start_breaker_sec > 0 && cfg.start_breaker_sec <= cfg.max_breaker_sec
            && cfg.max_breaker_sec <= MAX_BREAKER_SEC) {
            return Err(ConfigError::InvalidBreakerWindow);
        }
        let cb = new_breaker(cfg.failures, cfg.start_breaker_sec, cfg.max_breaker_sec);
        Ok(CircuitBreaker { error_checker, cb, last_err_resp: None })
    }

    /// The step before the downstream call, given whether the breaker permits
    /// it: a permitted call goes through; a refused one replays the last
    /// failing response, or goes through when none is recorded.
    pub fn decide(&self, permitted: bool) -> (r: BreakerStep)
        ensures
            permitted ==> r is Call,
            !permitted ==> match self.last_err_resp {
                Some(last) => r matches BreakerStep::Replay(resp) && same_response(resp, last),
                None => r is Call,
            },
    {
        if permitted {
            return BreakerStep::Call;
        }
        match &self.last_err_resp {
            Some(last) => BreakerStep::Replay(copy_response(last)),
            None => BreakerStep::Call,
        }
    }

    /// The step before the downstream call: the breaker is asked, and while
    /// it is open the last failing response is replayed. With no failing
    /// response recorded the call goes through.
    pub fn before_call(&self) -> (r: BreakerStep)
        ensures
            match r {
                BreakerStep::Replay(resp) => self.last_err_resp matches Some(last) && same_response(resp, last),
                BreakerStep::Call => true,
            },
            self.last_err_resp is None ==> r is Call,
    {
        self.decide(breaker_permits(&self.cb))
    }

    /// Reports the downstream response: a failure is recorded and kept for
    /// replay, a success closes the breaker and forgets the last failure.
    /// Returns whether the response counted as a failure.
    pub fn after_call(&mut self, resp: &ErrorResponse) -> (r: bool)
        ensures
            r == is_error_status(old(self).error_checker, resp.status),
            r ==> (final(self).last_err_resp matches Some(last) && same_response(last, *resp)),
            !r ==> final(self).last_err_resp is None,
            final(self).error_checker == old(self).error_checker,
    {
        if self.error_checker.is_error(resp.status) {
            breaker_error(&self.cb);
            self.last_err_resp = Some(copy_response(resp));
            true
        } else {
            breaker_success(&self.cb);
            self.last_err_resp = None;
            false
        }
    }
}

} // verus!
