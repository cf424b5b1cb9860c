//! The requests to the package worker and the reading of its answers.
use super::plans::CanonicalPlan;
use super::{operation_problem, refused, same_operation, texts_of, BrokerError, Operation};
use crate::json::{json_doc_parses, json_encoded_len, json_encoded_len_at, json_object, json_object_at, json_parses, json_text, json_text_at, json_value, json_value_at};
use crate::text::{owned, str_eq, utf8_len, utf8_len_sat, chars_of};
use vstd::prelude::*;

verus! {

/// The worker name of a package operation.
pub open spec fn apt_operation_name(op: Operation) -> Option<Seq<char>> {
    match op {
        Operation::AptInstall { .. } => Some("apt_install"@),
        Operation::AptRemove { .. } => Some("apt_remove"@),
        Operation::AptUpdate => Some("apt_update"@),
        Operation::AptUpgrade => Some("apt_upgrade"@),
        _ => None,
    }
}

/// A 64-character lowercase hexadecimal digest.
pub open spec fn hex_digest(d: Seq<char>) -> bool {
    utf8_len(d) == 64 && forall|i: int| 0 <= i < d.len() ==> ('0' <= #[trigger] d[i] <= '9' || 'a'
        <= d[i] <= 'f')
}

pub fn is_hex_digest(d: &str) -> (r: bool)
    ensures
        r == hex_digest(d@),
{
    let c = chars_of(d);
    if utf8_len_sat(c.as_slice()) != 64 {
        return false;
    }
    let mut i: usize = 0;
    while i < c.len()
        invariant
            i <= c.len(),
            c@ == d@,
            forall|j: int| 0 <= j < i ==> ('0' <= #[trigger] c@[j] <= '9' || 'a' <= c@[j] <= 'f'),
        decreases c.len() - i,
    {
        let x = c[i];
        if !(('0' <= x && x <= '9') || ('a' <= x && x <= 'f')) {
            return false;
        }
        i = i + 1;
    }
    true
}

/// What the broker holds of an approved plan when it asks the worker to run
/// it: the plan id and operation, the worker's digest from the planned state
/// if it is a string, the digest of the caller, and the expiry time as UTC
/// text.
pub struct ApprovedPlan {
    pub id: String,
    pub operation: Operation,
    pub worker_digest: Option<String>,
    pub caller_digest: Result<String, BrokerError>,
    pub expires_at_text: Result<String, BrokerError>,
}

/// The approval that an execution request carries; the worker is never
/// allowed to change sources, remove essential packages or change holds.
pub struct AptApproval {
    pub plan_digest: String,
    pub broker_session_id: String,
    pub authorization_id: String,
    pub expires_at: String,
}

/// A request to the package worker, protocol version 1.0.
pub struct AptRequest {
    pub request_id: String,
    pub operation: String,
    pub execute: bool,
    pub packages: Option<Vec<String>>,
    pub approval: Option<AptApproval>,
}

pub const APT_PROTOCOL_VERSION: &'static str = "1.0";

/// Why no request can be built, if so.
pub open spec fn apt_request_problem(op: Operation, expected: Option<ApprovedPlan>) -> Option<Seq<char>> {
    if operation_problem(op) is Some {
        operation_problem(op)
    } else if apt_operation_name(op) is None {
        Some("invalid_package_operation"@)
    } else {
        match expected {
            None => None,
            Some(p) => {
                if p.worker_digest is None || !same_operation(p.operation, op) || !hex_digest(
                    p.worker_digest->0@,
                ) {
                    Some("invalid_worker_plan"@)
                } else if p.caller_digest is Err {
                    Some(p.caller_digest->Err_0.0@)
                } else if p.expires_at_text is Err {
                    Some(p.expires_at_text->Err_0.0@)
                } else {
                    None
                }
            },
        }
    }
}

/// The request for a package operation: a plan request, or, for an approved
/// plan, an execution request that quotes the worker's digest.
pub fn apt_request(operation: &Operation, expected: Option<&ApprovedPlan>) -> (r: Result<AptRequest, BrokerError>)
    ensures
        match apt_request_problem(*operation, match expected { Some(p) => Some(*p), None => None }) {
            Some(code) => refused(r, code),
            None => r matches Ok(q) && {
                &&& Some(q.operation@) == apt_operation_name(*operation)
                &&& q.execute == (expected is Some)
                &&& match *operation {
                    Operation::AptInstall { packages } => q.packages matches Some(ps) && texts_of(ps@) == texts_of(packages@),
                    Operation::AptRemove { packages } => q.packages matches Some(ps) && texts_of(ps@) == texts_of(packages@),
                    _ => q.packages is None,
                }
                &&& match expected {
                    None => q.request_id@ == "sentia-root-plan"@ && q.approval is None,
                    Some(p) => q.request_id@ == p.id@ && (q.approval matches Some(a) && {
                        &&& a.plan_digest@ == p.worker_digest->0@
                        &&& a.broker_session_id@ == p.caller_digest->Ok_0@
                        &&& a.authorization_id@ == p.id@
                        &&& a.expires_at@ == p.expires_at_text->Ok_0@
                    }),
                }
            },
        },
{
    operation.validate()?;
    let (name, packages) = match operation {
        Operation::AptInstall { packages } => ("apt_install", Some(super::clone_strings(packages))),
        Operation::AptRemove { packages } => ("apt_remove", Some(super::clone_strings(packages))),
        Operation::AptUpdate => ("apt_update", None),
        Operation::AptUpgrade => ("apt_upgrade", None),
        _ => return Err(BrokerError("invalid_package_operation")),
    };
    match expected {
        None => Ok(
            AptRequest {
                request_id: owned("sentia-root-plan"),
                operation: owned(name),
                execute: false,
                packages,
                approval: None,
            },
        ),
        Some(plan) => {
            let worker_digest = match &plan.worker_digest {
                None => return Err(BrokerError("invalid_worker_plan")),
                Some(d) => d,
            };
            if !super::operations_equal(&plan.operation, operation) || !is_hex_digest(worker_digest.as_str()) {
                return Err(BrokerError("invalid_worker_plan"));
            }
            let session = match &plan.caller_digest {
                Err(e) => return Err(*e),
                Ok(d) => d.clone(),
            };
            let expires = match &plan.expires_at_text {
                Err(e) => return Err(*e),
                Ok(t) => t.clone(),
            };
            Ok(
                AptRequest {
                    request_id: plan.id.clone(),
                    operation: owned(name),
                    execute: true,
                    packages,
                    approval: Some(
                        AptApproval {
                            plan_digest: worker_digest.clone(),
                            broker_session_id: session,
                            authorization_id: plan.id.clone(),
                            expires_at: expires,
                        },
                    ),
                },
            )
        },
    }
}

/// What a successful worker answer gives: the whole answer of an execution,
/// or the canonical plan and its digest.
pub enum AptOutcome {
    Executed(serde_json::Value),
    Planned { canonical_plan: serde_json::Value, plan_digest: String },
}

/// Why the worker's answer `doc` is refused, given whether the worker
/// exited with success, the request, and whether it was an execution.
pub open spec fn apt_answer_problem(
    doc: Seq<u8>,
    successful_exit: bool,
    request_id: Seq<char>,
    operation: Seq<char>,
    executing: bool,
) -> Option<Seq<char>> {
    if !json_parses(doc) {
        Some("invalid_worker_response"@)
    } else if json_text_at(doc, "/protocol_version"@) != Some("1.0"@) || json_text_at(
        doc,
        "/request_id"@,
    ) != Some(request_id) || json_text_at(doc, "/operation"@) != Some(operation) {
        Some("package_worker_failed"@)
    } else if json_text_at(doc, "/status"@) == Some("error"@) {
        if json_text_at(doc, "/error/code"@) == Some("plan_digest_mismatch"@) {
            Some("state_changed_prepare_again"@)
        } else {
            Some("package_worker_failed"@)
        }
    } else if !successful_exit || json_text_at(doc, "/status"@) != Some("ok"@) || !json_object_at(
        doc,
        "/result"@,
    ) {
        Some("invalid_worker_response"@)
    } else if executing {
        None
    } else if json_encoded_len_at(doc, "/result/canonical_plan"@) is None || json_text_at(
        doc,
        "/result/plan_digest"@,
    ) is None {
        Some("invalid_worker_plan"@)
    } else if json_encoded_len_at(doc, "/result/canonical_plan"@)->0 > 262_144 {
        Some("package_plan_too_large"@)
    } else if !hex_digest(json_text_at(doc, "/result/plan_digest"@)->0) {
        Some("invalid_worker_plan"@)
    } else {
        None
    }
}

fn text_is(doc: &[u8], pointer: &str, text: &str) -> (r: bool)
    ensures
        r == (json_text_at(doc@, pointer@) == Some(text@)),
{
    match json_text(doc, pointer) {
        Some(s) => str_eq(s.as_str(), text),
        None => false,
    }
}

/// Reads the worker's answer to `request`. An execution gives the whole
/// answer; a plan gives the canonical plan and the worker's digest of it.
pub fn interpret_apt_response(output: &[u8], successful_exit: bool, request: &AptRequest, executing: bool) -> (r: Result<AptOutcome, BrokerError>)
    ensures
        match apt_answer_problem(output@, successful_exit, request.request_id@, request.operation@, executing) {
            Some(code) => refused(r, code),
            None => r matches Ok(o) && (executing <==> o is Executed) && (o matches AptOutcome::Executed(v)
                ==> json_value_at(output@, ""@) == Some(v)) && (o matches AptOutcome::Planned {
                canonical_plan,
                plan_digest,
            } ==> json_text_at(output@, "/result/plan_digest"@) == Some(plan_digest@) && json_value_at(
                output@,
                "/result/canonical_plan"@,
            ) == Some(canonical_plan)),
        },
{
    if !json_doc_parses(output) {
        return Err(BrokerError("invalid_worker_response"));
    }
    if !text_is(output, "/protocol_version", "1.0") || !text_is(output, "/request_id", request.request_id.as_str())
        || !text_is(output, "/operation", request.operation.as_str()) {
        return Err(BrokerError("package_worker_failed"));
    }
    if text_is(output, "/status", "error") {
        if text_is(output, "/error/code", "plan_digest_mismatch") {
            return Err(BrokerError("state_changed_prepare_again"));
        }
        return Err(BrokerError("package_worker_failed"));
    }
    if !successful_exit || !text_is(output, "/status", "ok") || !json_object(output, "/result") {
        return Err(BrokerError("invalid_worker_response"));
    }
    if executing {
        proof {
            reveal_strlit("");
        }
        return match json_value(output, "") {
            Some(v) => Ok(AptOutcome::Executed(v)),
            None => Err(BrokerError("invalid_worker_response")),
        };
    }
    let len = match json_encoded_len(output, "/result/canonical_plan") {
        None => return Err(BrokerError("invalid_worker_plan")),
        Some(n) => n,
    };
    let digest = match json_text(output, "/result/plan_digest") {
        None => return Err(BrokerError("invalid_worker_plan")),
        Some(d) => d,
    };
    if len > 262_144 {
        return Err(BrokerError("package_plan_too_large"));
    }
    if !is_hex_digest(digest.as_str()) {
        return Err(BrokerError("invalid_worker_plan"));
    }
    match json_value(output, "/result/canonical_plan") {
        Some(plan) => Ok(AptOutcome::Planned { canonical_plan: plan, plan_digest: digest }),
        None => Err(BrokerError("invalid_worker_plan")),
    }
}

/// A plan may run only within its window.
pub fn ensure_unexpired(plan: &CanonicalPlan, now: u64) -> (r: Result<(), BrokerError>)
    ensures
        (plan.issued_at <= now < plan.expires_at) ==> r is Ok,
        !(plan.issued_at <= now < plan.expires_at) ==> refused(r, "plan_expired"@),
{
    if now < plan.issued_at || now >= plan.expires_at {
        return Err(BrokerError("plan_expired"));
    }
    Ok(())
}

} // verus!
