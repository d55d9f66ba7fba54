//! Errors raised when a domain invariant or state transition is invalid.
use vstd::prelude::*;
use vstd::string::*;

use crate::text::{decimal, push_decimal};

verus! {

#[derive(Debug, PartialEq, Eq)]
pub enum DomainError {
    InvalidArgument(String),
    TimestampInvalid(String),
    IllegalTransition { aggregate: &'static str, from: String, to: String },
    StaleRevision { expected: u64, actual: u64 },
    BatchProfileMismatch,
    AlreadyTerminal { aggregate: &'static str },
    MemberNotFound { aggregate: &'static str, id: String },
    LeaseConflict(String),
    LeaseRequired,
}

pub type DomainResult<T> = Result<T, DomainError>;

/// A domain error with its texts as character sequences.
pub enum DomainErrorView {
    InvalidArgument(Seq<char>),
    TimestampInvalid(Seq<char>),
    IllegalTransition { aggregate: Seq<char>, from: Seq<char>, to: Seq<char> },
    StaleRevision { expected: u64, actual: u64 },
    BatchProfileMismatch,
    AlreadyTerminal { aggregate: Seq<char> },
    MemberNotFound { aggregate: Seq<char>, id: Seq<char> },
    LeaseConflict(Seq<char>),
    LeaseRequired,
}

impl View for DomainError {
    type V = DomainErrorView;

    open spec fn view(&self) -> DomainErrorView {
        match *self {
            DomainError::InvalidArgument(text) => DomainErrorView::InvalidArgument(text@),
            DomainError::TimestampInvalid(text) => DomainErrorView::TimestampInvalid(text@),
            DomainError::IllegalTransition { aggregate, from, to } =>
                DomainErrorView::IllegalTransition { aggregate: aggregate@, from: from@, to: to@ },
            DomainError::StaleRevision { expected, actual } =>
                DomainErrorView::StaleRevision { expected, actual },
            DomainError::BatchProfileMismatch => DomainErrorView::BatchProfileMismatch,
            DomainError::AlreadyTerminal { aggregate } =>
                DomainErrorView::AlreadyTerminal { aggregate: aggregate@ },
            DomainError::MemberNotFound { aggregate, id } =>
                DomainErrorView::MemberNotFound { aggregate: aggregate@, id: id@ },
            DomainError::LeaseConflict(text) => DomainErrorView::LeaseConflict(text@),
            DomainError::LeaseRequired => DomainErrorView::LeaseRequired,
        }
    }
}

/// A result with its error replaced by the error's view.
pub open spec fn outcome<T>(result: DomainResult<T>) -> Result<T, DomainErrorView> {
    match result {
        Ok(value) => Ok(value),
        Err(error) => Err(error@),
    }
}

/// An operation on a state: it yields the expected new state, or the expected
/// error and leaves the state as it was.
pub open spec fn moves<S>(
    result: DomainResult<()>,
    before: S,
    after: S,
    expected: Result<S, DomainErrorView>,
) -> bool {
    match expected {
        Ok(state) => result is Ok && after == state,
        Err(error) => result matches Err(e) && e@ == error && after == before,
    }
}

/// An operation on a state that also yields a value.
pub open spec fn moves_with<S, T>(
    result: DomainResult<T>,
    before: S,
    after: S,
    expected: Result<(S, T), DomainErrorView>,
) -> bool {
    match expected {
        Ok((state, value)) => result matches Ok(v) && v == value && after == state,
        Err(error) => result matches Err(e) && e@ == error && after == before,
    }
}

impl DomainErrorView {
    /// The sentence shown to the user.
    pub open spec fn message(self) -> Seq<char> {
        match self {
            DomainErrorView::InvalidArgument(text) => "invalid argument: "@ + text,
            DomainErrorView::TimestampInvalid(text) => "invalid timestamp: "@ + text,
            DomainErrorView::IllegalTransition { aggregate, from, to } => "illegal "@ + aggregate
                + " transition from "@ + from + " to "@ + to,
            DomainErrorView::StaleRevision { expected, actual } =>
                "stale result: expected revision "@ + decimal(expected as nat)
                + ", actual revision "@ + decimal(actual as nat),
            DomainErrorView::BatchProfileMismatch =>
                "batch execution profile does not match the existing profile"@,
            DomainErrorView::AlreadyTerminal { aggregate } => aggregate + " is already terminal"@,
            DomainErrorView::MemberNotFound { aggregate, id } => aggregate
                + " member was not found: "@ + id,
            DomainErrorView::LeaseConflict(text) => "work unit lease conflict: "@ + text,
            DomainErrorView::LeaseRequired => "work unit has no active lease"@,
        }
    }
}

impl DomainError {
    pub fn message(&self) -> (text: String)
        ensures
            text@ == self@.message(),
    {
        let mut out = String::new();
        match self {
            DomainError::InvalidArgument(text) => {
                out.append("invalid argument: ");
                out.append(text.as_str());
            },
            DomainError::TimestampInvalid(text) => {
                out.append("invalid timestamp: ");
                out.append(text.as_str());
            },
            DomainError::IllegalTransition { aggregate, from, to } => {
                out.append("illegal ");
                out.append(aggregate);
                out.append(" transition from ");
                out.append(from.as_str());
                out.append(" to ");
                out.append(to.as_str());
            },
            DomainError::StaleRevision { expected, actual } => {
                out.append("stale result: expected revision ");
                push_decimal(&mut out, *expected);
                out.append(", actual revision ");
                push_decimal(&mut out, *actual);
            },
            DomainError::BatchProfileMismatch => {
                out.append("batch execution profile does not match the existing profile");
            },
            DomainError::AlreadyTerminal { aggregate } => {
                out.append(aggregate);
                out.append(" is already terminal");
            },
            DomainError::MemberNotFound { aggregate, id } => {
                out.append(aggregate);
                out.append(" member was not found: ");
                out.append(id.as_str());
            },
            DomainError::LeaseConflict(text) => {
                out.append("work unit lease conflict: ");
                out.append(text.as_str());
            },
            DomainError::LeaseRequired => {
                out.append("work unit has no active lease");
            },
        }
        assert(out@ =~= self@.message());
        out
    }

    /// An illegal transition of `aggregate`.
    pub(crate) fn illegal(aggregate: &'static str, from: &str, to: &str) -> (error: DomainError)
        ensures
            error@ == (DomainErrorView::IllegalTransition {
                aggregate: aggregate@,
                from: from@,
                to: to@,
            }),
    {
        DomainError::IllegalTransition { aggregate, from: from.to_owned(), to: to.to_owned() }
    }

    pub(crate) fn invalid(text: &str) -> (error: DomainError)
        ensures
            error@ == DomainErrorView::InvalidArgument(text@),
    {
        DomainError::InvalidArgument(text.to_owned())
    }
}

/// What an error says.
pub proof fn law_errors_say_what_is_wrong(
    text: Seq<char>,
    from: Seq<char>,
    to: Seq<char>,
    expected: u64,
    actual: u64,
)
    ensures
        DomainErrorView::InvalidArgument(text).message() == "invalid argument: "@ + text,
        DomainErrorView::TimestampInvalid(text).message() == "invalid timestamp: "@ + text,
        (DomainErrorView::IllegalTransition { aggregate: text, from, to }).message() == "illegal "@
            + text + " transition from "@ + from + " to "@ + to,
        (DomainErrorView::StaleRevision { expected, actual }).message()
            == "stale result: expected revision "@ + decimal(expected as nat)
            + ", actual revision "@ + decimal(actual as nat),
        DomainErrorView::BatchProfileMismatch.message()
            == "batch execution profile does not match the existing profile"@,
        (DomainErrorView::AlreadyTerminal { aggregate: text }).message() == text
            + " is already terminal"@,
        (DomainErrorView::MemberNotFound { aggregate: text, id: from }).message() == text
            + " member was not found: "@ + from,
        DomainErrorView::LeaseConflict(text).message() == "work unit lease conflict: "@ + text,
        DomainErrorView::LeaseRequired.message() == "work unit has no active lease"@,
{
}

/// An operation either succeeds with the new state that is expected or reports
/// the error that is expected. A refused operation changes nothing.
pub proof fn law_refused_moves_change_nothing<S>(
    result: DomainResult<()>,
    before: S,
    after: S,
    expected: Result<S, DomainErrorView>,
)
    requires
        moves(result, before, after, expected),
    ensures
        result is Ok <==> expected is Ok,
        result is Ok ==> expected == Ok::<S, DomainErrorView>(after),
        result is Err ==> after == before,
        result matches Err(e) ==> expected == Err::<S, DomainErrorView>(e@),
{
}

/// The same of an operation that yields a value.
pub proof fn law_refused_calls_change_nothing<S, T>(
    result: DomainResult<T>,
    before: S,
    after: S,
    expected: Result<(S, T), DomainErrorView>,
)
    requires
        moves_with(result, before, after, expected),
    ensures
        result is Ok <==> expected is Ok,
        result matches Ok(value) ==> expected == Ok::<(S, T), DomainErrorView>((after, value)),
        result is Err ==> after == before,
        result matches Err(e) ==> expected == Err::<(S, T), DomainErrorView>(e@),
{
}

} // verus!
