//! Reliability of a provider: after repeated failures requests are refused
//! for a while, after a rejected key until someone resets the circuit. Times
//! are milliseconds of one monotonic clock, which the caller reads.
use vstd::prelude::*;
use vstd::string::*;

use crate::contracts::{ErrorCode, VcError, VcErrorView, VcResult};
use crate::text::{decimal, push_decimal};
use crate::workflow::job::counted;

verus! {

/// How long the circuit stays open after repeated failures, in milliseconds.
pub const DEFAULT_OPEN_MS: u64 = 60_000;

/// Consecutive recoverable failures that open the circuit.
pub const DEFAULT_FAILURE_THRESHOLD: u32 = 3;

#[derive(Debug, Clone, Copy, PartialEq, Eq, Structural)]
pub enum CircuitState {
    Closed,
    Open,
    HalfOpen,
}

/// The circuit of one provider.
#[derive(Debug, PartialEq, Eq)]
pub struct CircuitBreaker {
    provider_id: String,
    state: CircuitState,
    consecutive_failures: u32,
    opened_at: Option<u64>,
    open_for: u64,
    failure_threshold: u32,
    auth_locked: bool,
    retry_after: Option<u64>,
}

/// The state of a circuit.
pub struct CircuitView {
    pub provider_id: Seq<char>,
    pub state: CircuitState,
    pub consecutive_failures: u32,
    pub opened_at: Option<u64>,
    pub open_for: u64,
    pub failure_threshold: u32,
    /// The key was rejected: open until a reset, whatever the time.
    pub auth_locked: bool,
    /// The provider asked for silence until then.
    pub retry_after: Option<u64>,
}

impl View for CircuitBreaker {
    type V = CircuitView;

    closed spec fn view(&self) -> CircuitView {
        CircuitView {
            provider_id: self.provider_id@,
            state: self.state,
            consecutive_failures: self.consecutive_failures,
            opened_at: self.opened_at,
            open_for: self.open_for,
            failure_threshold: self.failure_threshold,
            auth_locked: self.auth_locked,
            retry_after: self.retry_after,
        }
    }
}

/// The later moment, or the last there is.
pub open spec fn moment_after(now_ms: u64, delay_ms: u64) -> u64 {
    if now_ms + delay_ms <= u64::MAX {
        (now_ms + delay_ms) as u64
    } else {
        u64::MAX
    }
}

impl CircuitView {
    /// A closed circuit without a history.
    pub open spec fn fresh(provider_id: Seq<char>) -> CircuitView {
        CircuitView {
            provider_id,
            state: CircuitState::Closed,
            consecutive_failures: 0,
            opened_at: None,
            open_for: DEFAULT_OPEN_MS,
            failure_threshold: DEFAULT_FAILURE_THRESHOLD,
            auth_locked: false,
            retry_after: None,
        }
    }

    /// The circuit has been open long enough to try a request.
    pub open spec fn rested(self, now_ms: u64) -> bool {
        &&& !self.auth_locked
        &&& self.state == CircuitState::Open
        &&& self.opened_at matches Some(opened) && {
            let elapsed = if now_ms >= opened {
                now_ms - opened
            } else {
                0
            };
            elapsed >= self.open_for
        }
    }

    pub open spec fn refreshed(self, now_ms: u64) -> CircuitView {
        if self.rested(now_ms) {
            CircuitView { state: CircuitState::HalfOpen, ..self }
        } else {
            self
        }
    }

    /// The provider's wish for silence still holds.
    pub open spec fn silenced(self, now_ms: u64) -> bool {
        self.retry_after matches Some(until) && now_ms < until
    }

    /// Why no request may start at this moment, if none may.
    pub open spec fn refusal(self, now_ms: u64) -> Option<VcErrorView> {
        let c = self.refreshed(now_ms);
        if c.auth_locked {
            Some(
                VcErrorView::plain(
                    ErrorCode::LlmAuthFailed,
                    "provider "@ + c.provider_id
                        + " circuit locked after authentication failure"@,
                ),
            )
        } else if c.silenced(now_ms) {
            Some(
                VcErrorView::plain(
                    ErrorCode::LlmRateLimited,
                    "provider "@ + c.provider_id + " honoring Retry-After until "@ + decimal(
                        c.retry_after->0 as nat,
                    ),
                ),
            )
        } else if c.state == CircuitState::Open {
            Some(
                VcErrorView::plain(
                    ErrorCode::LlmProviderUnavailable,
                    "provider "@ + c.provider_id + " circuit open after repeated failures"@,
                ),
            )
        } else {
            None
        }
    }

    /// The circuit after it was asked for leave to start a request.
    pub open spec fn asked(self, now_ms: u64) -> CircuitView {
        let c = self.refreshed(now_ms);
        if c.auth_locked || c.silenced(now_ms) {
            c
        } else {
            CircuitView { retry_after: None, ..c }
        }
    }

    pub open spec fn succeeded(self) -> CircuitView {
        CircuitView {
            state: CircuitState::Closed,
            consecutive_failures: 0,
            opened_at: None,
            retry_after: None,
            ..self
        }
    }

    pub open spec fn failed(self, code: ErrorCode, retry_after_ms: Option<u64>, now_ms: u64) -> CircuitView {
        if code == ErrorCode::LlmAuthFailed {
            CircuitView {
                auth_locked: true,
                state: CircuitState::Open,
                opened_at: Some(now_ms),
                ..self
            }
        } else {
            let c = CircuitView {
                retry_after: match retry_after_ms {
                    Some(delay) => Some(moment_after(now_ms, delay)),
                    None => self.retry_after,
                },
                ..self
            };
            if code == ErrorCode::LlmRateLimited || code == ErrorCode::LlmProviderUnavailable {
                let failures = counted(c.consecutive_failures);
                let c = CircuitView { consecutive_failures: failures, ..c };
                if failures >= c.failure_threshold {
                    CircuitView { state: CircuitState::Open, opened_at: Some(now_ms), ..c }
                } else {
                    c
                }
            } else {
                c
            }
        }
    }

    pub open spec fn after_reset(self) -> CircuitView {
        CircuitView { auth_locked: false, ..self.succeeded() }
    }
}

impl CircuitBreaker {
    pub fn new(provider_id: &str) -> (breaker: Self)
        ensures
            breaker@ == CircuitView::fresh(provider_id@),
    {
        CircuitBreaker {
            provider_id: provider_id.to_owned(),
            state: CircuitState::Closed,
            consecutive_failures: 0,
            opened_at: None,
            open_for: DEFAULT_OPEN_MS,
            failure_threshold: DEFAULT_FAILURE_THRESHOLD,
            auth_locked: false,
            retry_after: None,
        }
    }

    pub fn with_open_duration(self, open_for_ms: u64) -> (breaker: Self)
        ensures
            breaker@ == (CircuitView { open_for: open_for_ms, ..self@ }),
    {
        let mut breaker = self;
        breaker.open_for = open_for_ms;
        breaker
    }

    pub fn provider_id(&self) -> (id: &str)
        ensures
            id@ == self@.provider_id,
    {
        self.provider_id.as_str()
    }

    fn refresh(&mut self, now_ms: u64)
        ensures
            final(self)@ == old(self)@.refreshed(now_ms),
    {
        if self.auth_locked {
            return;
        }
        if self.state == CircuitState::Open {
            if let Some(opened) = self.opened_at {
                if now_ms.saturating_sub(opened) >= self.open_for {
                    self.state = CircuitState::HalfOpen;
                }
            }
        }
    }

    pub fn state(&mut self, now_ms: u64) -> (state: CircuitState)
        ensures
            final(self)@ == old(self)@.refreshed(now_ms),
            state == final(self)@.state,
    {
        self.refresh(now_ms);
        self.state
    }

    fn message(&self, remark: &str) -> (text: String)
        ensures
            text@ == "provider "@ + self@.provider_id + remark@,
    {
        let mut text = "provider ".to_owned();
        text.append(self.provider_id.as_str());
        text.append(remark);
        text
    }

    /// Check whether a new request may start.
    pub fn guard(&mut self, now_ms: u64) -> (result: VcResult<()>)
        ensures
            final(self)@ == old(self)@.asked(now_ms),
            match old(self)@.refusal(now_ms) {
                Some(error) => result matches Err(e) && e@ == error,
                None => result is Ok,
            },
    {
        self.refresh(now_ms);
        if self.auth_locked {
            let text = self.message(" circuit locked after authentication failure");
            return Err(VcError::new(ErrorCode::LlmAuthFailed, text.as_str()));
        }
        if let Some(until) = self.retry_after {
            if now_ms < until {
                let mut text = self.message(" honoring Retry-After until ");
                push_decimal(&mut text, until);
                return Err(VcError::new(ErrorCode::LlmRateLimited, text.as_str()));
            }
            self.retry_after = None;
        }
        match self.state {
            CircuitState::Open => {
                let text = self.message(" circuit open after repeated failures");
                Err(VcError::new(ErrorCode::LlmProviderUnavailable, text.as_str()))
            },
            CircuitState::Closed | CircuitState::HalfOpen => Ok(()),
        }
    }

    /// Record a successful request. A lock after a rejected key stays.
    pub fn record_success(&mut self)
        ensures
            final(self)@ == old(self)@.succeeded(),
    {
        self.consecutive_failures = 0;
        self.state = CircuitState::Closed;
        self.opened_at = None;
        self.retry_after = None;
    }

    /// Record a failed request.
    pub fn record_failure(&mut self, code: ErrorCode, retry_after_ms: Option<u64>, now_ms: u64)
        ensures
            final(self)@ == old(self)@.failed(code, retry_after_ms, now_ms),
    {
        if code == ErrorCode::LlmAuthFailed {
            self.auth_locked = true;
            self.state = CircuitState::Open;
            self.opened_at = Some(now_ms);
            return;
        }
        if let Some(delay) = retry_after_ms {
            self.retry_after = Some(now_ms.saturating_add(delay));
        }
        if code == ErrorCode::LlmRateLimited || code == ErrorCode::LlmProviderUnavailable {
            self.consecutive_failures = self.consecutive_failures.saturating_add(1);
            if self.consecutive_failures >= self.failure_threshold {
                self.state = CircuitState::Open;
                self.opened_at = Some(now_ms);
            }
        }
    }

    /// Lift the lock and close the circuit.
    pub fn reset(&mut self)
        ensures
            final(self)@ == old(self)@.after_reset(),
    {
        self.auth_locked = false;
        self.consecutive_failures = 0;
        self.state = CircuitState::Closed;
        self.opened_at = None;
        self.retry_after = None;
    }
}

/// A rejected key locks the circuit: no time, success or further failure lets
/// a request through, only a reset does.
pub proof fn law_auth_lock_ends_with_reset_only(
    c: CircuitView,
    code: ErrorCode,
    retry_after_ms: Option<u64>,
    now_ms: u64,
    later_ms: u64,
)
    requires
        c.auth_locked,
    ensures
        c.refusal(now_ms) matches Some(error) && error.code == ErrorCode::LlmAuthFailed,
        c.refreshed(now_ms).auth_locked,
        c.asked(now_ms).auth_locked,
        c.succeeded().auth_locked,
        c.failed(code, retry_after_ms, now_ms).auth_locked,
        c.after_reset().refusal(later_ms) is None,
{
}

/// A single rejected key is enough to lock the circuit.
pub proof fn law_auth_failure_locks_at_once(
    c: CircuitView,
    retry_after_ms: Option<u64>,
    now_ms: u64,
)
    ensures
        c.failed(ErrorCode::LlmAuthFailed, retry_after_ms, now_ms).auth_locked,
        c.failed(ErrorCode::LlmAuthFailed, retry_after_ms, now_ms).state == CircuitState::Open,
{
}

/// The circuit after the same recoverable failure `n` times in a row.
pub open spec fn after_failures(c: CircuitView, code: ErrorCode, now_ms: u64, n: nat) -> CircuitView
    decreases n,
{
    if n == 0 {
        c
    } else {
        after_failures(c, code, now_ms, (n - 1) as nat).failed(code, None, now_ms)
    }
}

/// As many recoverable failures in a row as the threshold says open a fresh
/// circuit; fewer do not.
pub proof fn law_threshold_opens(provider_id: Seq<char>, code: ErrorCode, now_ms: u64)
    requires
        code == ErrorCode::LlmRateLimited || code == ErrorCode::LlmProviderUnavailable,
    ensures
        after_failures(
            CircuitView::fresh(provider_id),
            code,
            now_ms,
            DEFAULT_FAILURE_THRESHOLD as nat,
        ).state == CircuitState::Open,
        after_failures(
            CircuitView::fresh(provider_id),
            code,
            now_ms,
            (DEFAULT_FAILURE_THRESHOLD - 1) as nat,
        ).state == CircuitState::Closed,
{
    reveal_with_fuel(after_failures, 5);
}

/// An open circuit lets a request through again once it has rested, and one
/// success closes it.
pub proof fn law_rest_and_success_close(c: CircuitView, opened_ms: u64, now_ms: u64)
    requires
        !c.auth_locked,
        c.state == CircuitState::Open,
        c.opened_at == Some(opened_ms),
        c.retry_after is None,
        opened_ms + c.open_for <= now_ms,
    ensures
        c.refreshed(now_ms).state == CircuitState::HalfOpen,
        c.refusal(now_ms) is None,
        c.refreshed(now_ms).succeeded().state == CircuitState::Closed,
{
}

/// A provider's wish for silence is honored to the end.
pub proof fn law_retry_after_is_honored(
    c: CircuitView,
    code: ErrorCode,
    delay_ms: u64,
    now_ms: u64,
    at_ms: u64,
)
    requires
        code != ErrorCode::LlmAuthFailed,
        now_ms <= at_ms,
        at_ms < now_ms + delay_ms,
        at_ms < u64::MAX,
    ensures
        c.failed(code, Some(delay_ms), now_ms).refusal(at_ms) is Some,
{
}

/// A fresh circuit is closed. It opens at the third failure in a row and rests
/// for a minute.
pub proof fn law_fresh_circuits_are_closed(provider_id: Seq<char>, now_ms: u64)
    ensures
        ({
            let c = CircuitView::fresh(provider_id);
            &&& c.state == CircuitState::Closed && c.consecutive_failures == 0
            &&& c.open_for == 60_000 && c.failure_threshold == 3
            &&& !c.auth_locked && c.retry_after is None && c.opened_at is None
            &&& c.refusal(now_ms) is None
        }),
{
}

/// Failures of the provider are counted; other errors are not. The circuit opens
/// when as many as the threshold have come in a row, and a wish for silence is
/// noted.
pub proof fn law_failures_are_counted(
    c: CircuitView,
    code: ErrorCode,
    delay: Option<u64>,
    now_ms: u64,
)
    requires
        c.consecutive_failures < u32::MAX,
        code != ErrorCode::LlmAuthFailed,
    ensures
        ({
            let after = c.failed(code, delay, now_ms);
            let counts = code == ErrorCode::LlmRateLimited || code
                == ErrorCode::LlmProviderUnavailable;
            &&& counts ==> after.consecutive_failures == c.consecutive_failures + 1
            &&& !counts ==> after.consecutive_failures == c.consecutive_failures && after.state
                == c.state && after.opened_at == c.opened_at
            &&& counts && c.consecutive_failures + 1 >= c.failure_threshold ==> after.state
                == CircuitState::Open && after.opened_at == Some(now_ms)
            &&& counts && c.consecutive_failures + 1 < c.failure_threshold ==> after.state == c.state
                && after.opened_at == c.opened_at
            &&& delay is None ==> after.retry_after == c.retry_after
            &&& delay matches Some(ms) ==> now_ms + ms <= u64::MAX ==> after.retry_after == Some(
                (now_ms + ms) as u64,
            )
            &&& after.auth_locked == c.auth_locked && after.open_for == c.open_for
                && after.provider_id == c.provider_id
        }),
{
}

/// An open circuit refuses requests until it has rested, and no longer. A success
/// closes it and forgets the failures.
pub proof fn law_open_circuits_rest(c: CircuitView, opened: u64, now_ms: u64)
    requires
        !c.auth_locked,
        c.state == CircuitState::Open,
        c.opened_at == Some(opened),
        c.retry_after is None,
    ensures
        now_ms < opened + c.open_for && opened <= now_ms ==> (c.refusal(now_ms) matches Some(error)
            && error.code == ErrorCode::LlmProviderUnavailable) && c.refreshed(now_ms) == c,
        now_ms >= opened + c.open_for ==> c.refusal(now_ms) is None && c.refreshed(now_ms)
            == (CircuitView { state: CircuitState::HalfOpen, ..c }),
        c.succeeded().state == CircuitState::Closed && c.succeeded().consecutive_failures == 0
            && c.succeeded().opened_at is None && c.succeeded().retry_after is None,
        c.after_reset() == (CircuitView { auth_locked: false, ..c.succeeded() }),
{
}

/// A provider that asked for silence is asked again when the time is over.
pub proof fn law_silence_comes_to_an_end(c: CircuitView, until: u64, now_ms: u64)
    requires
        !c.auth_locked,
        c.state == CircuitState::Closed,
        c.retry_after == Some(until),
    ensures
        now_ms < until ==> (c.refusal(now_ms) matches Some(error) && error.code
            == ErrorCode::LlmRateLimited) && c.asked(now_ms) == c,
        now_ms >= until ==> c.refusal(now_ms) is None && c.asked(now_ms).retry_after is None,
{
}

} // verus!
