//! The errors of the library.
use vstd::prelude::*;

verus! {

/// Why a request could not be handled.
#[derive(Debug, PartialEq, Eq)]
pub enum RocketLambError {
    /// The Lambda request cannot be handed on to Rocket.
    InvalidRequest(String),
    /// The Rocket response cannot be handed back to Lambda.
    InvalidResponse(String),
}

impl RocketLambError {
    /// Whether this is an `InvalidRequest` with the given message.
    pub open spec fn is_invalid_request(self, message: Seq<char>) -> bool {
        self matches RocketLambError::InvalidRequest(text) && text@ == message
    }

    /// Whether this is an `InvalidResponse` with the given message.
    pub open spec fn is_invalid_response(self, message: Seq<char>) -> bool {
        self matches RocketLambError::InvalidResponse(text) && text@ == message
    }
}

/// An error is of one variant and has one message, and these two decide which
/// error it is.
pub proof fn law_errors_have_one_message(
    error: RocketLambError,
    text: String,
    message: Seq<char>,
)
    ensures
        error == RocketLambError::InvalidRequest(text) ==> {
            &&& error.is_invalid_request(message) <==> text@ == message
            &&& !error.is_invalid_response(message)
        },
        error == RocketLambError::InvalidResponse(text) ==> {
            &&& error.is_invalid_response(message) <==> text@ == message
            &&& !error.is_invalid_request(message)
        },
{
}

} // verus!
