//! The structured error that every contract validator returns.
use std::collections::BTreeMap;
use vstd::prelude::*;

verus! {

/// `serde_json::Value`, carried opaquely in error details.
#[verifier::external_type_specification]
#[verifier::external_body]
pub struct ExJsonValue(serde_json::Value);

#[derive(Debug, Clone, Copy, PartialEq, Eq, Structural)]
pub enum ContractErrorCode {
    InvalidRequest,
    UnsupportedVersion,
    PermissionDenied,
    PolicyDenied,
    PayloadTooLarge,
    Timeout,
    Cancelled,
    ProviderUnavailable,
    ToolUnavailable,
    ValidationFailed,
    Internal,
}

#[derive(Debug, Clone, PartialEq)]
pub struct ContractError {
    pub code: ContractErrorCode,
    pub message: String,
    pub retryable: bool,
    pub details: BTreeMap<String, serde_json::Value>,
}

/// `e` is the error with this code, message and retry flag, and no details.
pub open spec fn is_error(e: ContractError, code: ContractErrorCode, message: Seq<char>) -> bool {
    &&& e.code == code
    &&& e.message@ == message
    &&& !e.retryable
    &&& e.details@ == Map::<String, serde_json::Value>::empty()
}

impl ContractError {
    pub fn new(code: ContractErrorCode, message: String, retryable: bool) -> (r: Self)
        ensures
            r.code == code,
            r.message@ == message@,
            r.retryable == retryable,
            r.details@ == Map::<String, serde_json::Value>::empty(),
    {
        Self { code, message, retryable, details: BTreeMap::new() }
    }

    /// Adds (or replaces) one detail entry.
    pub fn with_detail(self, key: String, value: serde_json::Value) -> (r: Self)
        ensures
            r.code == self.code,
            r.message@ == self.message@,
            r.retryable == self.retryable,
            vstd::laws_cmp::obeys_cmp::<String>() ==> r.details@ == self.details@.insert(
                key,
                value,
            ),
    {
        let mut this = self;
        this.details.insert(key, value);
        this
    }
}

/// The error with `code`, a fixed `message` and no retry.
pub fn fail(code: ContractErrorCode, message: &str) -> (r: ContractError)
    ensures
        is_error(r, code, message@),
{
    ContractError::new(code, message.to_owned(), false)
}

} // verus!
