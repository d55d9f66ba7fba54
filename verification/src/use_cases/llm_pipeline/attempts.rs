//! How often one request is sent: again with a repair message after a reply
//! that cannot be used, again after a pause when the transport fails.
use vstd::prelude::*;
use vstd::string::*;

use crate::contracts::{ApplicationError, ApplicationErrorView, ErrorCode, VcErrorView};
use crate::ports::{LlmMessage, LlmStage};
use crate::workflow::job::counted;

use super::agent::{
    max_semantic_attempts, repair_text, repair_user_message, MAX_TRANSPORT_ATTEMPTS,
};
use super::retry::{classify_transport_error, retry_class, TransportRetryClass};

verus! {

/// The longest pause between two attempts, in milliseconds.
pub const MAX_PAUSE_MS: u64 = 30_000;

/// The attempts at one request.
#[derive(Debug)]
pub struct Attempts {
    messages: Vec<LlmMessage>,
    semantic: u32,
    transport: u32,
    max_semantic: u32,
    violation: Option<String>,
}

/// The attempts as plain values.
pub struct AttemptsView {
    pub messages: Seq<LlmMessage>,
    /// Replies that could not be used.
    pub semantic: u32,
    /// Failures of the transport.
    pub transport: u32,
    pub max_semantic: u32,
    /// What was wrong with the last reply, until the model is told.
    pub violation: Option<Seq<char>>,
}

impl View for Attempts {
    type V = AttemptsView;

    closed spec fn view(&self) -> AttemptsView {
        AttemptsView {
            messages: self.messages@,
            semantic: self.semantic,
            transport: self.transport,
            max_semantic: self.max_semantic,
            violation: crate::contracts::option_text(self.violation),
        }
    }
}

/// What to do next.
#[derive(Debug)]
pub enum Turn {
    /// Send the messages.
    Send,
    /// Stop with the error.
    Stop(ApplicationError),
}

/// What to do after a failure of the transport.
#[derive(Debug, Clone, Copy, PartialEq, Eq, Structural)]
pub enum AfterFailure {
    /// Pass the failure on.
    GiveUp,
    /// Send again after so many milliseconds.
    Pause(u64),
}

pub open spec fn exhausted() -> ApplicationErrorView {
    ApplicationErrorView::Adapter(
        VcErrorView::plain(
            ErrorCode::LlmValidationFailed,
            "LLM validation retries exhausted"@,
        ),
    )
}

/// The pause before the attempt number `transport`, without a hint of the
/// provider: doubled from attempt to attempt, with up to fifty milliseconds
/// that depend on the clock.
pub open spec fn backoff(transport: u32, started_ms: u64) -> int {
    let doubled: int = if transport == 0 {
        200
    } else if transport == 1 {
        400
    } else if transport == 2 {
        800
    } else if transport == 3 {
        1600
    } else {
        3200
    };
    doubled + started_ms % 50
}

/// The pause that is made: what the provider asks for, or the backoff, and
/// never longer than the longest pause.
pub open spec fn pause(transport: u32, retry_after_ms: Option<u64>, started_ms: u64) -> u64 {
    let wanted: int = match retry_after_ms {
        Some(ms) => ms as int,
        None => backoff(transport, started_ms),
    };
    if wanted > MAX_PAUSE_MS {
        MAX_PAUSE_MS
    } else {
        wanted as u64
    }
}

fn pause_ms(transport: u32, retry_after_ms: Option<u64>, started_ms: u64) -> (ms: u64)
    ensures
        ms == pause(transport, retry_after_ms, started_ms),
{
    let wanted: u64 = match retry_after_ms {
        Some(ms) => ms,
        None => {
            let doubled: u64 = if transport == 0 {
                200
            } else if transport == 1 {
                400
            } else if transport == 2 {
                800
            } else if transport == 3 {
                1600
            } else {
                3200
            };
            doubled + started_ms % 50
        },
    };
    if wanted > MAX_PAUSE_MS {
        MAX_PAUSE_MS
    } else {
        wanted
    }
}

impl AttemptsView {
    pub open spec fn fresh(messages: Seq<LlmMessage>, retries: u32) -> AttemptsView {
        AttemptsView {
            messages,
            semantic: 0,
            transport: 0,
            max_semantic: counted(retries),
            violation: None,
        }
    }

    /// Why nothing more is sent, if so.
    pub open spec fn refusal(self, cancelled: bool) -> Option<ApplicationErrorView> {
        if cancelled {
            Some(ApplicationErrorView::Cancelled)
        } else if self.semantic >= self.max_semantic {
            Some(exhausted())
        } else {
            None
        }
    }

    /// The attempts once the model has been told of the last violation.
    pub open spec fn told(self, repair: LlmMessage) -> AttemptsView {
        match self.violation {
            None => self,
            Some(_) => AttemptsView { messages: self.messages.push(repair), violation: None, ..self },
        }
    }

    /// What to do after a failure of the transport.
    pub open spec fn after_failure(
        self,
        code: ErrorCode,
        retry_after_ms: Option<u64>,
        started_ms: u64,
    ) -> (AttemptsView, AfterFailure) {
        match retry_class(code) {
            TransportRetryClass::FailFast => (self, AfterFailure::GiveUp),
            TransportRetryClass::Cancelled => (self, AfterFailure::GiveUp),
            _ => {
                let transport = counted(self.transport);
                (
                    AttemptsView { transport, ..self },
                    if transport >= MAX_TRANSPORT_ATTEMPTS {
                        AfterFailure::GiveUp
                    } else {
                        AfterFailure::Pause(pause(transport, retry_after_ms, started_ms))
                    },
                )
            },
        }
    }

    /// A reply that cannot be used is answered with another attempt.
    pub open spec fn may_repair(self) -> bool {
        self.semantic + 1 < self.max_semantic
    }

    /// The attempts after a reply that cannot be used.
    pub open spec fn after_violation(self, violation: Seq<char>) -> AttemptsView {
        if self.may_repair() {
            AttemptsView {
                semantic: (self.semantic + 1) as u32,
                violation: Some(violation),
                ..self
            }
        } else {
            self
        }
    }

    /// How many more attempts there can be: replies that cannot be used, and
    /// failures of the transport.
    pub open spec fn budget(self) -> int {
        (self.max_semantic - self.semantic) + (MAX_TRANSPORT_ATTEMPTS - self.transport)
    }
}

impl Attempts {
    pub fn new(messages: Vec<LlmMessage>, retries: u32) -> (attempts: Self)
        ensures
            attempts@ == AttemptsView::fresh(messages@, retries),
    {
        Attempts {
            messages,
            semantic: 0,
            transport: 0,
            max_semantic: max_semantic_attempts(retries),
            violation: None,
        }
    }

    pub fn messages(&self) -> (messages: &Vec<LlmMessage>)
        ensures
            messages@ == self@.messages,
    {
        &self.messages
    }

    /// Prepare the next request. The model is told what was wrong with its
    /// last reply.
    pub fn next(&mut self, cancelled: bool) -> (turn: Turn)
        ensures
            match turn {
                Turn::Stop(error) => old(self)@.refusal(cancelled) == Some(error@) && final(self)@
                    == old(self)@,
                Turn::Send => old(self)@.refusal(cancelled) is None && match old(self)@.violation {
                    None => final(self)@ == old(self)@,
                    Some(violation) => {
                        &&& final(self)@ == old(self)@.told(final(self)@.messages.last())
                        &&& final(self)@.messages.last().role == crate::ports::LlmRole::User
                        &&& final(self)@.messages.last().content@ == repair_text(violation)
                    },
                },
            },
    {
        if cancelled {
            return Turn::Stop(ApplicationError::Cancelled);
        }
        if self.semantic >= self.max_semantic {
            return Turn::Stop(
                ApplicationError::adapter(
                    ErrorCode::LlmValidationFailed,
                    "LLM validation retries exhausted",
                ),
            );
        }
        if let Some(violation) = &self.violation {
            let repair = repair_user_message(violation.as_str());
            self.messages.push(repair);
            self.violation = None;
        }
        Turn::Send
    }

    /// Take note of a failure of the transport.
    pub fn failed(&mut self, code: ErrorCode, retry_after_ms: Option<u64>, started_ms: u64) -> (next:
        AfterFailure)
        ensures
            (final(self)@, next) == old(self)@.after_failure(code, retry_after_ms, started_ms),
    {
        match classify_transport_error(code) {
            TransportRetryClass::FailFast => AfterFailure::GiveUp,
            TransportRetryClass::Cancelled => AfterFailure::GiveUp,
            TransportRetryClass::RateLimited | TransportRetryClass::Transient => {
                self.transport = self.transport.saturating_add(1);
                if self.transport >= MAX_TRANSPORT_ATTEMPTS {
                    AfterFailure::GiveUp
                } else {
                    AfterFailure::Pause(pause_ms(self.transport, retry_after_ms, started_ms))
                }
            },
        }
    }

    /// Take note of a reply that cannot be used. Tells whether to try again.
    pub fn rejected(&mut self, violation: &str) -> (again: bool)
        requires
            old(self)@.semantic < old(self)@.max_semantic,
        ensures
            again == old(self)@.may_repair(),
            final(self)@ == old(self)@.after_violation(violation@),
    {
        if self.semantic + 1 < self.max_semantic {
            self.semantic = self.semantic + 1;
            self.violation = Some(violation.to_owned());
            true
        } else {
            false
        }
    }
}

/// One try at a request as it is recorded: never the key, never the reply.
#[derive(Debug, PartialEq, Eq)]
pub struct LlmAttemptRecord {
    pub request_id: String,
    pub work_unit_id: Option<String>,
    pub attempt: u32,
    pub request_hash: String,
    pub provider_model_revision: String,
    pub started_at_ms: u64,
    pub finished_at_ms: Option<u64>,
    pub prompt_tokens: Option<u64>,
    pub completion_tokens: Option<u64>,
    pub error_code: Option<String>,
    pub retry_after_ms: Option<u64>,
}

/// What the request log keeps of a try.
#[derive(Debug, PartialEq, Eq)]
pub struct LlmRequestMetadata {
    pub request_id: String,
    pub stage: LlmStage,
    pub batch_index: u32,
    pub attempt: u32,
    pub model: String,
    pub request_hash: String,
    pub prompt_tokens: Option<u64>,
    pub completion_tokens: Option<u64>,
    pub error_code: Option<String>,
}

/// How a try ended.
#[derive(Debug, Clone, Copy, PartialEq, Eq, Structural)]
pub enum TryEnd {
    Failed { code: ErrorCode, retry_after_ms: Option<u64> },
    Answered { prompt_tokens: Option<u64>, completion_tokens: Option<u64> },
}

impl TryEnd {
    pub open spec fn error_text(self) -> Option<Seq<char>> {
        match self {
            TryEnd::Failed { code, .. } => Some(code.text()),
            TryEnd::Answered { .. } => None,
        }
    }

    fn error_code(self) -> (code: Option<String>)
        ensures
            crate::contracts::option_text(code) == self.error_text(),
    {
        match self {
            TryEnd::Failed { code, .. } => Some(code.as_str().to_owned()),
            TryEnd::Answered { .. } => None,
        }
    }
}

impl Attempts {
    /// The record of the try that has just ended. It is made before the end is
    /// taken note of.
    pub fn record(
        &self,
        end: TryEnd,
        request_id: &str,
        request_hash: &str,
        provider_model_revision: &str,
        started_ms: u64,
    ) -> (record: LlmAttemptRecord)
        ensures
            record.request_id@ == request_id@,
            record.work_unit_id is None,
            record.request_hash@ == request_hash@,
            record.provider_model_revision@ == provider_model_revision@,
            record.started_at_ms == started_ms,
            record.finished_at_ms == Some(started_ms),
            crate::contracts::option_text(record.error_code) == end.error_text(),
            match end {
                TryEnd::Failed { code, retry_after_ms } => {
                    &&& record.attempt == self@.transport
                    &&& record.prompt_tokens is None
                    &&& record.completion_tokens is None
                    &&& record.retry_after_ms == retry_after_ms
                },
                TryEnd::Answered { prompt_tokens, completion_tokens } => {
                    &&& record.attempt == self@.semantic
                    &&& record.prompt_tokens == prompt_tokens
                    &&& record.completion_tokens == completion_tokens
                    &&& record.retry_after_ms is None
                },
            },
    {
        let error_code = end.error_code();
        match end {
            TryEnd::Failed { code: _, retry_after_ms } => LlmAttemptRecord {
                request_id: request_id.to_owned(),
                work_unit_id: None,
                attempt: self.transport,
                request_hash: request_hash.to_owned(),
                provider_model_revision: provider_model_revision.to_owned(),
                started_at_ms: started_ms,
                finished_at_ms: Some(started_ms),
                prompt_tokens: None,
                completion_tokens: None,
                error_code,
                retry_after_ms,
            },
            TryEnd::Answered { prompt_tokens, completion_tokens } => LlmAttemptRecord {
                request_id: request_id.to_owned(),
                work_unit_id: None,
                attempt: self.semantic,
                request_hash: request_hash.to_owned(),
                provider_model_revision: provider_model_revision.to_owned(),
                started_at_ms: started_ms,
                finished_at_ms: Some(started_ms),
                prompt_tokens,
                completion_tokens,
                error_code,
                retry_after_ms: None,
            },
        }
    }

    /// What the request log keeps of the try that has just ended.
    pub fn metadata(
        &self,
        end: TryEnd,
        request_id: &str,
        request_hash: &str,
        stage: LlmStage,
        batch_index: u32,
        model: &str,
    ) -> (metadata: LlmRequestMetadata)
        ensures
            metadata.request_id@ == request_id@,
            metadata.stage == stage,
            metadata.batch_index == batch_index,
            metadata.model@ == model@,
            metadata.request_hash@ == request_hash@,
            crate::contracts::option_text(metadata.error_code) == end.error_text(),
            match end {
                TryEnd::Failed { .. } => metadata.attempt == self@.transport
                    && metadata.prompt_tokens is None && metadata.completion_tokens is None,
                TryEnd::Answered { prompt_tokens, completion_tokens } => metadata.attempt
                    == self@.semantic && metadata.prompt_tokens == prompt_tokens
                    && metadata.completion_tokens == completion_tokens,
            },
    {
        let error_code = end.error_code();
        let (attempt, prompt_tokens, completion_tokens): (u32, Option<u64>, Option<u64>) = match end {
            TryEnd::Failed { .. } => (self.transport, None, None),
            TryEnd::Answered { prompt_tokens, completion_tokens } => (
                self.semantic,
                prompt_tokens,
                completion_tokens,
            ),
        };
        LlmRequestMetadata {
            request_id: request_id.to_owned(),
            stage,
            batch_index,
            attempt,
            model: model.to_owned(),
            request_hash: request_hash.to_owned(),
            prompt_tokens,
            completion_tokens,
            error_code,
        }
    }
}

/// Every attempt that is followed by another one uses up some of the budget,
/// so a request is given up after finitely many.
pub proof fn law_attempts_come_to_an_end(
    attempts: AttemptsView,
    code: ErrorCode,
    retry_after_ms: Option<u64>,
    started_ms: u64,
    violation: Seq<char>,
)
    ensures
        attempts.after_failure(code, retry_after_ms, started_ms).1 is Pause ==> attempts.after_failure(
            code,
            retry_after_ms,
            started_ms,
        ).0.budget() < attempts.budget() && attempts.after_failure(
            code,
            retry_after_ms,
            started_ms,
        ).0.transport < MAX_TRANSPORT_ATTEMPTS,
        attempts.may_repair() ==> attempts.after_violation(violation).budget() < attempts.budget()
            && attempts.after_violation(violation).semantic < attempts.max_semantic,
{
}

/// Errors of authentication, an unknown model and a cancellation are never
/// tried again.
pub proof fn law_final_errors_are_not_retried(
    attempts: AttemptsView,
    code: ErrorCode,
    retry_after_ms: Option<u64>,
    started_ms: u64,
)
    requires
        code == ErrorCode::LlmAuthFailed || code == ErrorCode::LlmModelNotFound || code
            == ErrorCode::Cancelled,
    ensures
        attempts.after_failure(code, retry_after_ms, started_ms) == (attempts, AfterFailure::GiveUp),
{
}

/// No pause is longer than the longest pause, and a hint of the provider below
/// that is kept to.
pub proof fn law_pauses_are_bounded(transport: u32, retry_after_ms: Option<u64>, started_ms: u64)
    ensures
        pause(transport, retry_after_ms, started_ms) <= MAX_PAUSE_MS,
        retry_after_ms matches Some(ms) ==> ms <= MAX_PAUSE_MS ==> pause(
            transport,
            retry_after_ms,
            started_ms,
        ) == ms,
{
}

/// A request is sent with its messages, and once more for each repair that is
/// allowed. It stops where it is cancelled or no attempt is left.
pub proof fn law_requests_have_their_attempts(
    messages: Seq<LlmMessage>,
    retries: u32,
    attempts: AttemptsView,
)
    ensures
        ({
            let fresh = AttemptsView::fresh(messages, retries);
            &&& fresh.messages == messages && fresh.semantic == 0 && fresh.transport == 0
            &&& fresh.violation is None
            &&& retries < u32::MAX ==> fresh.max_semantic == retries + 1
        }),
        attempts.refusal(true) == Some(ApplicationErrorView::Cancelled),
        attempts.refusal(false) is None <==> attempts.semantic < attempts.max_semantic,
        attempts.refusal(false) matches Some(error) ==> error.code()
            == ErrorCode::LlmValidationFailed,
{
}

/// The transport may fail three times. Before that the request is sent again
/// after a pause: the one that the provider asks for, else one that doubles with
/// every failure, and never longer than half a minute.
pub proof fn law_failures_are_followed_by_pauses(
    attempts: AttemptsView,
    code: ErrorCode,
    hint: Option<u64>,
    started_ms: u64,
)
    requires
        code != ErrorCode::LlmAuthFailed,
        code != ErrorCode::LlmModelNotFound,
        code != ErrorCode::Cancelled,
    ensures
        ({
            let (after, next) = attempts.after_failure(code, hint, started_ms);
            &&& attempts.transport < u32::MAX ==> after.transport == attempts.transport + 1
            &&& after.semantic == attempts.semantic && after.messages == attempts.messages
                && after.violation == attempts.violation && after.max_semantic
                == attempts.max_semantic
            &&& next is GiveUp <==> attempts.transport >= 2
            &&& attempts.transport < 2 ==> {
                &&& hint matches Some(ms) ==> ms <= 30_000 ==> next == AfterFailure::Pause(ms)
                &&& hint matches Some(ms) ==> ms > 30_000 ==> next == AfterFailure::Pause(30_000)
                &&& hint is None && attempts.transport == 0 ==> next == AfterFailure::Pause(
                    (400 + started_ms % 50) as u64,
                )
                &&& hint is None && attempts.transport == 1 ==> next == AfterFailure::Pause(
                    (800 + started_ms % 50) as u64,
                )
            }
        }),
{
}

/// A pause without a hint grows from failure to failure, to double the length.
pub proof fn law_pauses_double(transport: u32, started_ms: u64)
    requires
        transport < 4,
    ensures
        backoff((transport + 1) as u32, started_ms) - started_ms % 50 == 2 * (backoff(
            transport,
            started_ms,
        ) - started_ms % 50),
        backoff(0, started_ms) == 200 + started_ms % 50,
        backoff(5, started_ms) == backoff(4, started_ms),
{
}

/// A reply that cannot be used is sent back with what is wrong, as long as an
/// attempt is left. The model is told once.
pub proof fn law_violations_are_told_once(
    attempts: AttemptsView,
    violation: Seq<char>,
    repair: LlmMessage,
)
    ensures
        attempts.semantic + 1 < attempts.max_semantic ==> {
            let after = attempts.after_violation(violation);
            &&& attempts.may_repair()
            &&& after.semantic == attempts.semantic + 1 && after.violation == Some(violation)
            &&& after.transport == attempts.transport && after.messages == attempts.messages
            &&& after.told(repair).messages == attempts.messages.push(repair)
            &&& after.told(repair).violation is None
        },
        attempts.semantic + 1 >= attempts.max_semantic ==> !attempts.may_repair()
            && attempts.after_violation(violation) == attempts,
        attempts.violation is None ==> attempts.told(repair) == attempts,
{
}

/// A try that failed is noted with the code of its error, one that was answered
/// without.
pub proof fn law_tries_are_noted(code: ErrorCode, hint: Option<u64>, tokens: Option<u64>)
    ensures
        (TryEnd::Failed { code, retry_after_ms: hint }).error_text() == Some(code.text()),
        (TryEnd::Answered { prompt_tokens: tokens, completion_tokens: tokens }).error_text() is None,
{
}

} // verus!
