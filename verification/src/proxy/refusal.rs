//! The ways in which the relay itself refuses a request.

use vstd::prelude::*;

use crate::json::Json;
use crate::translate;
use crate::translate::{error_envelope, ClientProtocol};

verus! {

/// Why a request is refused.
#[derive(Debug, Clone, Copy, PartialEq, Eq, Structural)]
pub enum Refusal {
    /// The path is blocked.
    NotFound,
    /// There is no key, or nobody's.
    InvalidKey,
    /// The key is disabled.
    KeyDisabled,
    /// The user agent is blocked.
    AccessDenied,
    /// The body is larger than what is read.
    BodyTooLarge,
    /// The model is not one that the key may use.
    ModelNotAllowed,
    /// The budget of the subscription is spent.
    SubscriptionExceeded,
    /// The tokens per minute of the subscription are spent.
    TokensPerMinuteExceeded,
    /// Every server that could be tried has reached its request limit.
    RateLimited,
    /// No server could be tried.
    NoServerKeys,
    /// Every server that was tried failed.
    Overloaded,
    /// The answer of a server could not be read.
    UnreadableAnswer,
    /// The answer of a server stopped coming.
    AnswerTimedOut,
}

impl Refusal {
    /// The status of the answer.
    pub open spec fn code(self) -> u16 {
        match self {
            Refusal::NotFound => 404,
            Refusal::InvalidKey => 401,
            Refusal::KeyDisabled | Refusal::AccessDenied | Refusal::ModelNotAllowed => 403,
            Refusal::BodyTooLarge => 413,
            Refusal::UnreadableAnswer => 502,
            Refusal::AnswerTimedOut => 504,
            _ => 429,
        }
    }

    /// The type of the error.
    pub open spec fn kind(self) -> Seq<char> {
        match self {
            Refusal::NotFound => "not_found_error"@,
            Refusal::InvalidKey | Refusal::NoServerKeys => "authentication_error"@,
            Refusal::KeyDisabled | Refusal::AccessDenied
            | Refusal::ModelNotAllowed => "permission_error"@,
            Refusal::BodyTooLarge => "invalid_request_error"@,
            Refusal::SubscriptionExceeded | Refusal::TokensPerMinuteExceeded
            | Refusal::RateLimited => "rate_limit_error"@,
            Refusal::Overloaded => "overloaded_error"@,
            Refusal::UnreadableAnswer | Refusal::AnswerTimedOut => "api_error"@,
        }
    }

    /// The message of the error.
    pub open spec fn words(self) -> Seq<char> {
        match self {
            Refusal::NotFound => "Not found"@,
            Refusal::InvalidKey => "Invalid API key"@,
            Refusal::KeyDisabled => "API key is disabled"@,
            Refusal::AccessDenied => "Access denied"@,
            Refusal::BodyTooLarge => "Request body too large. Maximum allowed size is 100 MB"@,
            Refusal::ModelNotAllowed =>
                "Your API key does not have permission to use the specified model."@,
            Refusal::SubscriptionExceeded => "Subscription limit exceeded"@,
            Refusal::TokensPerMinuteExceeded => "TPM limit exceeded, please retry later"@,
            Refusal::RateLimited => "Rate limit exceeded"@,
            Refusal::NoServerKeys => "No server keys configured"@,
            Refusal::Overloaded => "All upstream servers unavailable"@,
            Refusal::UnreadableAnswer => "Failed to read upstream response body"@,
            Refusal::AnswerTimedOut => "Upstream timed out while sending the response body"@,
        }
    }

    /// The status of the answer.
    pub fn status(self) -> (r: u16)
        ensures
            r == self.code(),
    {
        match self {
            Refusal::NotFound => 404,
            Refusal::InvalidKey => 401,
            Refusal::KeyDisabled | Refusal::AccessDenied | Refusal::ModelNotAllowed => 403,
            Refusal::BodyTooLarge => 413,
            Refusal::UnreadableAnswer => 502,
            Refusal::AnswerTimedOut => 504,
            _ => 429,
        }
    }

    /// The type of the error.
    pub fn error_type(self) -> (r: &'static str)
        ensures
            r@ == self.kind(),
    {
        match self {
            Refusal::NotFound => "not_found_error",
            Refusal::InvalidKey | Refusal::NoServerKeys => "authentication_error",
            Refusal::KeyDisabled | Refusal::AccessDenied
            | Refusal::ModelNotAllowed => "permission_error",
            Refusal::BodyTooLarge => "invalid_request_error",
            Refusal::SubscriptionExceeded | Refusal::TokensPerMinuteExceeded
            | Refusal::RateLimited => "rate_limit_error",
            Refusal::Overloaded => "overloaded_error",
            Refusal::UnreadableAnswer | Refusal::AnswerTimedOut => "api_error",
        }
    }

    /// The message of the error.
    pub fn message(self) -> (r: &'static str)
        ensures
            r@ == self.words(),
    {
        match self {
            Refusal::NotFound => "Not found",
            Refusal::InvalidKey => "Invalid API key",
            Refusal::KeyDisabled => "API key is disabled",
            Refusal::AccessDenied => "Access denied",
            Refusal::BodyTooLarge => "Request body too large. Maximum allowed size is 100 MB",
            Refusal::ModelNotAllowed =>
                "Your API key does not have permission to use the specified model.",
            Refusal::SubscriptionExceeded => "Subscription limit exceeded",
            Refusal::TokensPerMinuteExceeded => "TPM limit exceeded, please retry later",
            Refusal::RateLimited => "Rate limit exceeded",
            Refusal::NoServerKeys => "No server keys configured",
            Refusal::Overloaded => "All upstream servers unavailable",
            Refusal::UnreadableAnswer => "Failed to read upstream response body",
            Refusal::AnswerTimedOut => "Upstream timed out while sending the response body",
        }
    }

    /// After how many seconds the client may try again, where it is told so.
    pub fn retry_after(self) -> (r: Option<u32>)
        ensures
            r == (if self == Refusal::Overloaded {
                Some(30u32)
            } else {
                None
            }),
    {
        match self {
            Refusal::Overloaded => Some(30),
            _ => None,
        }
    }

    /// The client's own fallback endpoints are tried first: it is a refusal for want of
    /// servers or of budget, not one of the request.
    pub open spec fn yields(self) -> bool {
        self == Refusal::SubscriptionExceeded || self == Refusal::TokensPerMinuteExceeded || self
            == Refusal::RateLimited || self == Refusal::NoServerKeys || self == Refusal::Overloaded
    }

    /// Whether the client's own fallback endpoints are tried before the request is refused.
    pub fn yields_to_fallback(self) -> (r: bool)
        ensures
            r == self.yields(),
    {
        match self {
            Refusal::SubscriptionExceeded
            | Refusal::TokensPerMinuteExceeded
            | Refusal::RateLimited
            | Refusal::NoServerKeys
            | Refusal::Overloaded => true,
            _ => false,
        }
    }

    /// The body of the answer, in the envelope of the client's protocol.
    pub fn body(self, protocol: ClientProtocol) -> (r: Json)
        ensures
            r@ == translate::envelope(protocol, self.kind(), self.words()),
    {
        error_envelope(protocol, self.error_type(), self.message())
    }
}

/// Every refusal that yields to the fallback endpoints is answered with 429, and no other
/// is.
pub proof fn law_fallback_refusals_are_429(refusal: Refusal)
    ensures
        refusal.yields() <==> refusal.code() == 429,
{
}

} // verus!
