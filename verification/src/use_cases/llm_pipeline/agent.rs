//! The repair loop: a reply that fails validation is answered with a message
//! that names the violation.
use vstd::prelude::*;
use vstd::string::*;

use crate::ports::{LlmMessage, LlmRole};
use crate::workflow::job::counted;

verus! {

/// How often a request is sent when the transport fails.
pub const MAX_TRANSPORT_ATTEMPTS: u32 = 3;

/// What is said to the model about a violation.
pub open spec fn repair_text(violation: Seq<char>) -> Seq<char> {
    "The previous response was rejected. Fix this violation and return only the requested JSON: "@
        + violation
}

/// The next message after a reply that failed validation.
pub fn repair_user_message(violation: &str) -> (message: LlmMessage)
    ensures
        message.role == LlmRole::User,
        message.content@ == repair_text(violation@),
{
    let mut content =
        "The previous response was rejected. Fix this violation and return only the requested JSON: ".to_owned();
    content.append(violation);
    LlmMessage { role: LlmRole::User, content }
}

/// How often a request is sent when replies fail validation: once, and once
/// more for each retry.
pub fn max_semantic_attempts(retries: u32) -> (attempts: u32)
    ensures
        attempts == counted(retries),
{
    retries.saturating_add(1)
}

} // verus!
