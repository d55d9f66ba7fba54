//! Errors as they are shown to callers outside the domain.
use vstd::prelude::*;
use vstd::string::*;

use crate::error::{DomainError, DomainErrorView};

verus! {

#[derive(Debug, Clone, Copy, PartialEq, Eq, Structural)]
pub enum ErrorCode {
    ArtifactCommitFailed,
    ArtifactCorrupt,
    AsrFailed,
    AudioStreamNotFound,
    CacheCorrupt,
    Cancelled,
    EngineCapabilityInsufficient,
    ExportFailed,
    InputNotFound,
    Internal,
    InvalidArgument,
    InvalidConfig,
    LlmAuthFailed,
    LlmContextExceeded,
    LlmInvalidResponse,
    LlmModelNotFound,
    LlmProviderUnavailable,
    LlmRateLimited,
    LlmValidationFailed,
    OptionUnsupported,
    RuntimeUnavailable,
    SourceChanged,
    StaleResult,
    WorkerTimeout,
}

impl ErrorCode {
    /// The name of the code in stored records.
    pub open spec fn text(self) -> Seq<char> {
        match self {
            ErrorCode::ArtifactCommitFailed => "ARTIFACT_COMMIT_FAILED"@,
            ErrorCode::ArtifactCorrupt => "ARTIFACT_CORRUPT"@,
            ErrorCode::AsrFailed => "ASR_FAILED"@,
            ErrorCode::AudioStreamNotFound => "AUDIO_STREAM_NOT_FOUND"@,
            ErrorCode::CacheCorrupt => "CACHE_CORRUPT"@,
            ErrorCode::Cancelled => "CANCELLED"@,
            ErrorCode::EngineCapabilityInsufficient => "ENGINE_CAPABILITY_INSUFFICIENT"@,
            ErrorCode::ExportFailed => "EXPORT_FAILED"@,
            ErrorCode::InputNotFound => "INPUT_NOT_FOUND"@,
            ErrorCode::Internal => "INTERNAL"@,
            ErrorCode::InvalidArgument => "INVALID_ARGUMENT"@,
            ErrorCode::InvalidConfig => "INVALID_CONFIG"@,
            ErrorCode::LlmAuthFailed => "LLM_AUTH_FAILED"@,
            ErrorCode::LlmContextExceeded => "LLM_CONTEXT_EXCEEDED"@,
            ErrorCode::LlmInvalidResponse => "LLM_INVALID_RESPONSE"@,
            ErrorCode::LlmModelNotFound => "LLM_MODEL_NOT_FOUND"@,
            ErrorCode::LlmProviderUnavailable => "LLM_PROVIDER_UNAVAILABLE"@,
            ErrorCode::LlmRateLimited => "LLM_RATE_LIMITED"@,
            ErrorCode::LlmValidationFailed => "LLM_VALIDATION_FAILED"@,
            ErrorCode::OptionUnsupported => "OPTION_UNSUPPORTED"@,
            ErrorCode::RuntimeUnavailable => "RUNTIME_UNAVAILABLE"@,
            ErrorCode::SourceChanged => "SOURCE_CHANGED"@,
            ErrorCode::StaleResult => "STALE_RESULT"@,
            ErrorCode::WorkerTimeout => "WORKER_TIMEOUT"@,
        }
    }

    pub fn as_str(self) -> (name: &'static str)
        ensures
            name@ == self.text(),
    {
        match self {
            ErrorCode::ArtifactCommitFailed => "ARTIFACT_COMMIT_FAILED",
            ErrorCode::ArtifactCorrupt => "ARTIFACT_CORRUPT",
            ErrorCode::AsrFailed => "ASR_FAILED",
            ErrorCode::AudioStreamNotFound => "AUDIO_STREAM_NOT_FOUND",
            ErrorCode::CacheCorrupt => "CACHE_CORRUPT",
            ErrorCode::Cancelled => "CANCELLED",
            ErrorCode::EngineCapabilityInsufficient => "ENGINE_CAPABILITY_INSUFFICIENT",
            ErrorCode::ExportFailed => "EXPORT_FAILED",
            ErrorCode::InputNotFound => "INPUT_NOT_FOUND",
            ErrorCode::Internal => "INTERNAL",
            ErrorCode::InvalidArgument => "INVALID_ARGUMENT",
            ErrorCode::InvalidConfig => "INVALID_CONFIG",
            ErrorCode::LlmAuthFailed => "LLM_AUTH_FAILED",
            ErrorCode::LlmContextExceeded => "LLM_CONTEXT_EXCEEDED",
            ErrorCode::LlmInvalidResponse => "LLM_INVALID_RESPONSE",
            ErrorCode::LlmModelNotFound => "LLM_MODEL_NOT_FOUND",
            ErrorCode::LlmProviderUnavailable => "LLM_PROVIDER_UNAVAILABLE",
            ErrorCode::LlmRateLimited => "LLM_RATE_LIMITED",
            ErrorCode::LlmValidationFailed => "LLM_VALIDATION_FAILED",
            ErrorCode::OptionUnsupported => "OPTION_UNSUPPORTED",
            ErrorCode::RuntimeUnavailable => "RUNTIME_UNAVAILABLE",
            ErrorCode::SourceChanged => "SOURCE_CHANGED",
            ErrorCode::StaleResult => "STALE_RESULT",
            ErrorCode::WorkerTimeout => "WORKER_TIMEOUT",
        }
    }
}

/// An error with a code, a sentence and what else is known of it.
#[derive(Debug, PartialEq, Eq)]
pub struct VcError {
    pub code: ErrorCode,
    pub message: String,
    pub detail: Option<String>,
    pub retry_after_ms: Option<u64>,
}

pub type VcResult<T> = Result<T, VcError>;

/// An error with its texts as character sequences.
pub struct VcErrorView {
    pub code: ErrorCode,
    pub message: Seq<char>,
    pub detail: Option<Seq<char>>,
    pub retry_after_ms: Option<u64>,
}

/// The view of an optional text.
pub open spec fn option_text(text: Option<String>) -> Option<Seq<char>> {
    match text {
        Some(text) => Some(text@),
        None => None,
    }
}

impl View for VcError {
    type V = VcErrorView;

    open spec fn view(&self) -> VcErrorView {
        VcErrorView {
            code: self.code,
            message: self.message@,
            detail: option_text(self.detail),
            retry_after_ms: self.retry_after_ms,
        }
    }
}

impl VcErrorView {
    /// An error with nothing but a code and a sentence.
    pub open spec fn plain(code: ErrorCode, message: Seq<char>) -> VcErrorView {
        VcErrorView { code, message, detail: None, retry_after_ms: None }
    }
}

impl VcError {
    pub fn new(code: ErrorCode, message: &str) -> (error: VcError)
        ensures
            error@ == VcErrorView::plain(code, message@),
    {
        VcError { code, message: message.to_owned(), detail: None, retry_after_ms: None }
    }

    pub fn with_detail(self, detail: &str) -> (error: VcError)
        ensures
            error@ == (VcErrorView { detail: Some(detail@), ..self@ }),
    {
        let mut error = self;
        error.detail = Some(detail.to_owned());
        error
    }

    pub fn with_retry_after_ms(self, retry_after_ms: u64) -> (error: VcError)
        ensures
            error@ == (VcErrorView { retry_after_ms: Some(retry_after_ms), ..self@ }),
    {
        let mut error = self;
        error.retry_after_ms = Some(retry_after_ms);
        error
    }
}

/// What an application operation can fail with.
#[derive(Debug, PartialEq, Eq)]
pub enum ApplicationError {
    /// An adapter reported it.
    Adapter(VcError),
    /// A rule of the domain refused the operation.
    Domain(DomainError),
    Cancelled,
    /// The operation failed, and so did the attempt to record that.
    StatePersistence { primary: Box<VcError>, state: Box<VcError> },
    Invalid(String),
}

pub type AppResult<T> = Result<T, ApplicationError>;

/// An application error with its texts as character sequences.
pub enum ApplicationErrorView {
    Adapter(VcErrorView),
    Domain(DomainErrorView),
    Cancelled,
    StatePersistence { primary: VcErrorView, state: VcErrorView },
    Invalid(Seq<char>),
}

impl View for ApplicationError {
    type V = ApplicationErrorView;

    open spec fn view(&self) -> ApplicationErrorView {
        match *self {
            ApplicationError::Adapter(error) => ApplicationErrorView::Adapter(error@),
            ApplicationError::Domain(error) => ApplicationErrorView::Domain(error@),
            ApplicationError::Cancelled => ApplicationErrorView::Cancelled,
            ApplicationError::StatePersistence { primary, state } =>
                ApplicationErrorView::StatePersistence { primary: primary@, state: state@ },
            ApplicationError::Invalid(text) => ApplicationErrorView::Invalid(text@),
        }
    }
}

impl ApplicationErrorView {
    /// The code under which the error is reported.
    pub open spec fn code(self) -> ErrorCode {
        match self {
            ApplicationErrorView::Adapter(error) => error.code,
            ApplicationErrorView::Domain(_) => ErrorCode::InvalidArgument,
            ApplicationErrorView::Cancelled => ErrorCode::Cancelled,
            ApplicationErrorView::StatePersistence { primary, .. } => primary.code,
            ApplicationErrorView::Invalid(_) => ErrorCode::InvalidArgument,
        }
    }

    /// The error as it is reported to callers.
    pub open spec fn reported(self) -> VcErrorView {
        match self {
            ApplicationErrorView::Adapter(error) => error,
            ApplicationErrorView::Domain(error) => VcErrorView::plain(
                self.code(),
                error.message(),
            ),
            ApplicationErrorView::Cancelled => VcErrorView::plain(
                ErrorCode::Cancelled,
                "operation cancelled"@,
            ),
            ApplicationErrorView::StatePersistence { primary, state } => VcErrorView {
                detail: Some("state persistence failed: "@ + state.message),
                ..primary
            },
            ApplicationErrorView::Invalid(text) => VcErrorView::plain(
                ErrorCode::InvalidArgument,
                text,
            ),
        }
    }
}

impl ApplicationError {
    pub fn code(&self) -> (code: ErrorCode)
        ensures
            code == self@.code(),
    {
        match self {
            ApplicationError::Adapter(error) => error.code,
            ApplicationError::Domain(_) => ErrorCode::InvalidArgument,
            ApplicationError::Cancelled => ErrorCode::Cancelled,
            ApplicationError::StatePersistence { primary, .. } => primary.code,
            ApplicationError::Invalid(_) => ErrorCode::InvalidArgument,
        }
    }

    pub fn into_vc_error(self) -> (error: VcError)
        ensures
            error@ == self@.reported(),
    {
        let code = self.code();
        match self {
            ApplicationError::Adapter(error) => error,
            ApplicationError::Domain(error) => {
                let text = error.message();
                VcError::new(code, text.as_str())
            },
            ApplicationError::Cancelled => VcError::new(ErrorCode::Cancelled, "operation cancelled"),
            ApplicationError::StatePersistence { primary, state } => {
                let mut text = "state persistence failed: ".to_owned();
                text.append(state.message.as_str());
                (*primary).with_detail(text.as_str())
            },
            ApplicationError::Invalid(text) => VcError::new(
                ErrorCode::InvalidArgument,
                text.as_str(),
            ),
        }
    }

    pub(crate) fn invalid(text: &str) -> (error: ApplicationError)
        ensures
            error@ == ApplicationErrorView::Invalid(text@),
    {
        ApplicationError::Invalid(text.to_owned())
    }

    pub(crate) fn adapter(code: ErrorCode, text: &str) -> (error: ApplicationError)
        ensures
            error@ == ApplicationErrorView::Adapter(VcErrorView::plain(code, text@)),
    {
        ApplicationError::Adapter(VcError::new(code, text))
    }
}

/// The codes under which errors are reported.
pub proof fn law_codes_have_their_names(code: ErrorCode)
    ensures
        code is ArtifactCommitFailed ==> code.text() == "ARTIFACT_COMMIT_FAILED"@,
        code is ArtifactCorrupt ==> code.text() == "ARTIFACT_CORRUPT"@,
        code is AsrFailed ==> code.text() == "ASR_FAILED"@,
        code is AudioStreamNotFound ==> code.text() == "AUDIO_STREAM_NOT_FOUND"@,
        code is CacheCorrupt ==> code.text() == "CACHE_CORRUPT"@,
        code is Cancelled ==> code.text() == "CANCELLED"@,
        code is EngineCapabilityInsufficient ==> code.text() == "ENGINE_CAPABILITY_INSUFFICIENT"@,
        code is ExportFailed ==> code.text() == "EXPORT_FAILED"@,
        code is InputNotFound ==> code.text() == "INPUT_NOT_FOUND"@,
        code is Internal ==> code.text() == "INTERNAL"@,
        code is InvalidArgument ==> code.text() == "INVALID_ARGUMENT"@,
        code is InvalidConfig ==> code.text() == "INVALID_CONFIG"@,
        code is LlmAuthFailed ==> code.text() == "LLM_AUTH_FAILED"@,
        code is LlmContextExceeded ==> code.text() == "LLM_CONTEXT_EXCEEDED"@,
        code is LlmInvalidResponse ==> code.text() == "LLM_INVALID_RESPONSE"@,
        code is LlmModelNotFound ==> code.text() == "LLM_MODEL_NOT_FOUND"@,
        code is LlmProviderUnavailable ==> code.text() == "LLM_PROVIDER_UNAVAILABLE"@,
        code is LlmRateLimited ==> code.text() == "LLM_RATE_LIMITED"@,
        code is LlmValidationFailed ==> code.text() == "LLM_VALIDATION_FAILED"@,
        code is OptionUnsupported ==> code.text() == "OPTION_UNSUPPORTED"@,
        code is RuntimeUnavailable ==> code.text() == "RUNTIME_UNAVAILABLE"@,
        code is SourceChanged ==> code.text() == "SOURCE_CHANGED"@,
        code is StaleResult ==> code.text() == "STALE_RESULT"@,
        code is WorkerTimeout ==> code.text() == "WORKER_TIMEOUT"@,
{
}

/// An error of an adapter is reported as it is, with its code, its details and
/// its wish for a pause. What the rules refuse is an invalid argument. Where
/// storing a failure failed too, the failure itself is reported.
pub proof fn law_errors_are_reported_as_they_are(
    error: VcErrorView,
    state: VcErrorView,
    refusal: DomainErrorView,
    text: Seq<char>,
)
    ensures
        ApplicationErrorView::Adapter(error).reported() == error,
        ApplicationErrorView::Adapter(error).code() == error.code,
        ApplicationErrorView::Domain(refusal).reported() == (VcErrorView {
            code: ErrorCode::InvalidArgument,
            message: refusal.message(),
            detail: None,
            retry_after_ms: None,
        }),
        ApplicationErrorView::Invalid(text).reported() == (VcErrorView {
            code: ErrorCode::InvalidArgument,
            message: text,
            detail: None,
            retry_after_ms: None,
        }),
        ApplicationErrorView::Cancelled.reported().code == ErrorCode::Cancelled,
        ({
            let both = ApplicationErrorView::StatePersistence { primary: error, state };
            &&& both.code() == error.code
            &&& both.reported().code == error.code && both.reported().message == error.message
            &&& both.reported().retry_after_ms == error.retry_after_ms
            &&& both.reported().detail == Some("state persistence failed: "@ + state.message)
        }),
{
}

} // verus!
