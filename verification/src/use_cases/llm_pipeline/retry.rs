//! What is done about errors of a request.
use vstd::prelude::*;

use crate::contracts::{ApplicationError, ApplicationErrorView, ErrorCode};
use crate::ports::LlmStage;

verus! {

/// The request failed because of its cues, so fewer of them may pass.
pub open spec fn isolatable(error: ApplicationErrorView) -> bool {
    ||| error.code() == ErrorCode::LlmValidationFailed
    ||| error.code() == ErrorCode::LlmInvalidResponse
    ||| error.code() == ErrorCode::LlmContextExceeded
}

pub fn can_isolate(error: &ApplicationError) -> (answer: bool)
    ensures
        answer == isolatable(error@),
{
    matches!(
        error.code(),
        ErrorCode::LlmValidationFailed | ErrorCode::LlmInvalidResponse | ErrorCode::LlmContextExceeded
    )
}

/// The code of an error.
pub fn error_code(error: &ApplicationError) -> (code: ErrorCode)
    ensures
        code == error@.code(),
{
    error.code()
}

/// The sampling temperature of a stage: one or two tenths in single precision,
/// as the numeral of the same number in double precision.
pub open spec fn temperature_text(stage: LlmStage) -> Seq<char> {
    match stage {
        LlmStage::Split => "0.10000000149011612"@,
        LlmStage::Correct => "0.20000000298023224"@,
        LlmStage::Translate => "0.20000000298023224"@,
    }
}

/// The numeral of the sampling temperature of a stage.
pub fn temperature(stage: LlmStage) -> (numeral: &'static str)
    ensures
        numeral@ == temperature_text(stage),
{
    match stage {
        LlmStage::Split => "0.10000000149011612",
        LlmStage::Correct => "0.20000000298023224",
        LlmStage::Translate => "0.20000000298023224",
    }
}

/// How an error of the transport is met.
#[derive(Debug, Clone, Copy, PartialEq, Eq, Structural)]
pub enum TransportRetryClass {
    FailFast,
    RateLimited,
    Transient,
    Cancelled,
}

pub open spec fn retry_class(code: ErrorCode) -> TransportRetryClass {
    match code {
        ErrorCode::LlmAuthFailed => TransportRetryClass::FailFast,
        ErrorCode::LlmModelNotFound => TransportRetryClass::FailFast,
        ErrorCode::LlmRateLimited => TransportRetryClass::RateLimited,
        ErrorCode::Cancelled => TransportRetryClass::Cancelled,
        _ => TransportRetryClass::Transient,
    }
}

pub fn classify_transport_error(code: ErrorCode) -> (class: TransportRetryClass)
    ensures
        class == retry_class(code),
{
    match code {
        ErrorCode::LlmAuthFailed => TransportRetryClass::FailFast,
        ErrorCode::LlmModelNotFound => TransportRetryClass::FailFast,
        ErrorCode::LlmRateLimited => TransportRetryClass::RateLimited,
        ErrorCode::Cancelled => TransportRetryClass::Cancelled,
        _ => TransportRetryClass::Transient,
    }
}

/// A rejected key and an unknown model are final, a cancellation ends the work,
/// and all other failures of the transport may pass.
pub proof fn law_failures_have_their_class(code: ErrorCode)
    ensures
        code == ErrorCode::LlmAuthFailed || code == ErrorCode::LlmModelNotFound ==> retry_class(code)
            == TransportRetryClass::FailFast,
        code == ErrorCode::LlmRateLimited ==> retry_class(code) == TransportRetryClass::RateLimited,
        code == ErrorCode::Cancelled ==> retry_class(code) == TransportRetryClass::Cancelled,
        code != ErrorCode::LlmAuthFailed && code != ErrorCode::LlmModelNotFound && code
            != ErrorCode::LlmRateLimited && code != ErrorCode::Cancelled ==> retry_class(code)
            == TransportRetryClass::Transient,
{
}

/// A request is taken apart where the reply could not be used or the request was
/// too large, and for no other reason.
pub proof fn law_bad_replies_are_taken_apart(error: ApplicationErrorView)
    ensures
        isolatable(error) <==> error.code() == ErrorCode::LlmValidationFailed || error.code()
            == ErrorCode::LlmInvalidResponse || error.code() == ErrorCode::LlmContextExceeded,
{
}

} // verus!
