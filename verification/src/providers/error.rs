//! Typed provider errors that never carry vendor text or secrets.
use crate::text::{concat, owned};
use vstd::prelude::*;

verus! {

#[derive(Debug, Clone, Copy, PartialEq, Eq, Structural)]
pub enum ProviderErrorKind {
    Network,
    Dns,
    Authentication,
    AuthenticationExpired,
    Quota,
    UnsupportedCapability,
    Timeout,
    Cancelled,
    MalformedResponse,
    ProcessFailure,
    InvalidRequest,
}

#[derive(Debug, PartialEq, Eq)]
pub struct ProviderError {
    pub kind: ProviderErrorKind,
    pub code: String,
    pub message: String,
    pub retryable: bool,
}

impl Clone for ProviderError {
    fn clone(&self) -> (r: Self)
        ensures
            r == *self,
    {
        ProviderError {
            kind: self.kind,
            code: self.code.clone(),
            message: self.message.clone(),
            retryable: self.retryable,
        }
    }
}

/// `e` is the error of this kind, code, message and retry flag.
pub open spec fn provider_error_is(
    e: ProviderError,
    kind: ProviderErrorKind,
    code: Seq<char>,
    message: Seq<char>,
    retryable: bool,
) -> bool {
    e.kind == kind && e.code@ == code && e.message@ == message && e.retryable == retryable
}

/// The message of every malformed-response error.
pub open spec fn malformed_message() -> Seq<char> {
    "The provider returned a response that did not match the reviewed contract."@
}

impl ProviderError {
    pub fn new(kind: ProviderErrorKind, code: &str, message: &str, retryable: bool) -> (r: Self)
        ensures
            provider_error_is(r, kind, code@, message@, retryable),
    {
        ProviderError { kind, code: owned(code), message: owned(message), retryable }
    }

    pub fn invalid(code: &str, message: &str) -> (r: Self)
        ensures
            provider_error_is(r, ProviderErrorKind::InvalidRequest, code@, message@, false),
    {
        Self::new(ProviderErrorKind::InvalidRequest, code, message, false)
    }

    pub fn unsupported(code: &str, message: &str) -> (r: Self)
        ensures
            provider_error_is(r, ProviderErrorKind::UnsupportedCapability, code@, message@, false),
    {
        Self::new(ProviderErrorKind::UnsupportedCapability, code, message, false)
    }

    pub fn malformed(code: &str) -> (r: Self)
        ensures
            provider_error_is(r, ProviderErrorKind::MalformedResponse, code@, malformed_message(), false),
    {
        Self::new(
            ProviderErrorKind::MalformedResponse,
            code,
            "The provider returned a response that did not match the reviewed contract.",
            false,
        )
    }

    pub fn process(code: &str, message: &str) -> (r: Self)
        ensures
            provider_error_is(r, ProviderErrorKind::ProcessFailure, code@, message@, false),
    {
        Self::new(ProviderErrorKind::ProcessFailure, code, message, false)
    }

    /// The text that `Display` writes: the code, a colon, and the message.
    pub fn text(&self) -> (r: String)
        ensures
            r@ == self.code@ + ": "@ + self.message@,
    {
        concat(concat(self.code.as_str(), ": ").as_str(), self.message.as_str())
    }
}

} // verus!
