//! The decisions of the provider worker: what it answers to each command,
//! each finished request and the end of its input. The process that reads
//! lines, runs requests and writes events performs what these decide.
use super::error::{provider_error_is, ProviderError, ProviderErrorKind};
use super::protocol::{
    declared_capabilities, provider_name, provider_named, reports_request_problem, request_id_ok, request_problem, validate_request_id,
    InferenceRequest, InferenceResponse, ProviderCapabilities, ProviderId, WorkerCommand,
    WorkerEvent, PROTOCOL_VERSION,
};
use crate::text::{owned, str_eq};
use vstd::prelude::*;

verus! {

/// The largest credential the worker accepts, in bytes.
pub const MAX_CREDENTIAL_BYTES: usize = 16_384;

/// What the worker learns between two decisions.
pub enum WorkerInput {
    /// A command line, as decoded, or the error that decoding gave.
    Line(Result<WorkerCommand, ProviderError>),
    /// The command input has ended.
    InputClosed,
    /// The active request finished with this result.
    Finished(Result<InferenceResponse, ProviderError>),
    /// The task of the active request failed without a result.
    TaskFailed,
}

/// What the worker does after one decision: the event it writes, the
/// request it starts, and whether it aborts the active request or stops.
pub struct WorkerStep {
    pub event: Option<WorkerEvent>,
    pub start: Option<InferenceRequest>,
    pub abort: bool,
    pub stop: bool,
}

/// The worker's state: its provider and the id of its active request.
pub struct WorkerState {
    pub provider: ProviderId,
    pub active: Option<String>,
}

pub open spec fn opt_seq(o: Option<String>) -> Option<Seq<char>> {
    match o {
        Some(s) => Some(s@),
        None => None,
    }
}

/// `s` writes exactly an error event for `rid` with this error, and does
/// nothing else.
pub open spec fn writes_error(
    s: WorkerStep,
    rid: Option<Seq<char>>,
    kind: ProviderErrorKind,
    code: Seq<char>,
    message: Seq<char>,
    retryable: bool,
) -> bool {
    &&& s.event matches Some(WorkerEvent::Error { protocol_version, request_id, error })
    &&& protocol_version == PROTOCOL_VERSION
    &&& opt_seq(request_id) == rid
    &&& provider_error_is(error, kind, code, message, retryable)
    &&& s.start is None
}

pub open spec fn writes_this_error(s: WorkerStep, rid: Option<Seq<char>>, e: ProviderError) -> bool {
    writes_error(s, rid, e.kind, e.code@, e.message@, e.retryable)
}

/// The id under which an error about `request` is reported: its own, when
/// that id is valid.
pub open spec fn reported_id(request: InferenceRequest) -> Option<Seq<char>> {
    if request_id_ok(request.request_id@) {
        Some(request.request_id@)
    } else {
        None
    }
}

/// One decision of the worker, from its state before, the input, its state
/// after and the step it takes.
pub open spec fn worker_decides(
    before: WorkerState,
    input: WorkerInput,
    after: WorkerState,
    s: WorkerStep,
) -> bool {
    &&& after.provider == before.provider
    &&& match before.active {
        Some(id) => match input {
            WorkerInput::Finished(Ok(response)) => {
                &&& s.event matches Some(WorkerEvent::Completed { protocol_version, request_id, response: got })
                &&& protocol_version == PROTOCOL_VERSION && request_id@ == id@ && got == response
                &&& after.active is None && !s.abort && !s.stop && s.start is None
            },
            WorkerInput::Finished(Err(e)) => writes_this_error(s, Some(id@), e) && after.active is None
                && !s.abort && !s.stop,
            WorkerInput::TaskFailed => writes_error(
                s,
                Some(id@),
                ProviderErrorKind::ProcessFailure,
                "worker_task_failed"@,
                "The provider request task failed."@,
                false,
            ) && after.active is None && !s.abort && !s.stop,
            WorkerInput::InputClosed => s.abort && s.stop && s.event is None && s.start is None,
            WorkerInput::Line(Err(e)) => writes_this_error(s, None, e) && opt_seq(after.active)
                == Some(id@) && !s.abort && !s.stop,
            WorkerInput::Line(Ok(WorkerCommand::Cancel { request_id, .. })) => if request_id@
                == id@ {
                writes_error(
                    s,
                    Some(request_id@),
                    ProviderErrorKind::Cancelled,
                    "cancelled"@,
                    "The provider request was cancelled."@,
                    false,
                ) && after.active is None && s.abort && !s.stop
            } else {
                writes_error(
                    s,
                    Some(request_id@),
                    ProviderErrorKind::InvalidRequest,
                    "request_not_active"@,
                    "The cancellation request did not match the active request."@,
                    false,
                ) && opt_seq(after.active) == Some(id@) && !s.abort && !s.stop
            },
            WorkerInput::Line(Ok(WorkerCommand::Infer { request, .. })) => writes_error(
                s,
                reported_id(request),
                ProviderErrorKind::ProcessFailure,
                "worker_busy"@,
                "The provider worker already has an active request."@,
                true,
            ) && opt_seq(after.active) == Some(id@) && !s.abort && !s.stop,
        },
        None => match input {
            WorkerInput::InputClosed => s.stop && !s.abort && s.event is None && s.start is None,
            WorkerInput::Finished(_) | WorkerInput::TaskFailed => s.event is None && s.start is None
                && !s.abort && !s.stop && after.active is None,
            WorkerInput::Line(Err(e)) => writes_this_error(s, None, e) && after.active is None
                && !s.abort && !s.stop,
            WorkerInput::Line(Ok(WorkerCommand::Cancel { request_id, .. })) => writes_error(
                s,
                Some(request_id@),
                ProviderErrorKind::InvalidRequest,
                "request_not_active"@,
                "There is no active provider request to cancel."@,
                false,
            ) && after.active is None && !s.abort && !s.stop,
            WorkerInput::Line(Ok(WorkerCommand::Infer { request, .. })) => {
                &&& !s.abort && !s.stop
                &&& if request_problem(request) is Some {
                    &&& s.event matches Some(WorkerEvent::Error { protocol_version, request_id, error })
                    &&& protocol_version == PROTOCOL_VERSION
                    &&& opt_seq(request_id) == reported_id(request)
                    &&& reports_request_problem(Err::<(), ProviderError>(error), request_problem(request))
                    &&& s.start is None && after.active is None
                } else if request.provider != before.provider {
                    &&& writes_error(
                        s,
                        Some(request.request_id@),
                        ProviderErrorKind::InvalidRequest,
                        "provider_mismatch"@,
                        "The request provider does not match this worker."@,
                        false,
                    )
                    &&& after.active is None
                } else {
                    &&& s.event matches Some(WorkerEvent::Started { protocol_version, request_id })
                    &&& protocol_version == PROTOCOL_VERSION && request_id@ == request.request_id@
                    &&& s.start == Some(request)
                    &&& opt_seq(after.active) == Some(request.request_id@)
                }
            },
        },
    }
}

/// The worker runs one request at a time: while a request is active no
/// step starts another; a step that starts a request does so from an idle
/// worker and records it as the active one; and a request becomes active
/// only by being started.
pub proof fn lemma_one_request_at_a_time(
    before: WorkerState,
    input: WorkerInput,
    after: WorkerState,
    s: WorkerStep,
)
    requires
        worker_decides(before, input, after, s),
    ensures
        before.active is Some ==> s.start is None,
        s.start matches Some(r) ==> before.active is None && opt_seq(after.active) == Some(
            r.request_id@,
        ),
        after.active is Some && s.start is None && !s.stop ==> before.active is Some && opt_seq(
            after.active,
        ) == opt_seq(before.active),
{
}

fn error_step(rid: Option<String>, error: ProviderError) -> (s: WorkerStep)
    ensures
        writes_this_error(s, opt_seq(rid), error),
        !s.abort && !s.stop,
{
    WorkerStep {
        event: Some(WorkerEvent::Error { protocol_version: PROTOCOL_VERSION, request_id: rid, error }),
        start: None,
        abort: false,
        stop: false,
    }
}

fn id_if_valid(request: &InferenceRequest) -> (r: Option<String>)
    ensures
        opt_seq(r) == reported_id(*request),
{
    match validate_request_id(request.request_id.as_str()) {
        Ok(()) => Some(request.request_id.clone()),
        Err(_) => None,
    }
}

impl WorkerState {
    pub fn new(provider: ProviderId) -> (r: Self)
        ensures
            r.provider == provider,
            r.active is None,
    {
        WorkerState { provider, active: None }
    }

    /// The event the worker writes first: it is ready, with its declared
    /// capabilities.
    pub fn ready_event(&self) -> (r: WorkerEvent)
        ensures
            r == (WorkerEvent::Ready {
                protocol_version: PROTOCOL_VERSION,
                capabilities: declared_capabilities(self.provider),
            }),
    {
        WorkerEvent::Ready {
            protocol_version: PROTOCOL_VERSION,
            capabilities: ProviderCapabilities::for_provider(self.provider),
        }
    }

    /// Decides what the worker does on `input`.
    pub fn step(&mut self, input: WorkerInput) -> (s: WorkerStep)
        ensures
            worker_decides(*old(self), input, *final(self), s),
    {
        let active = self.active.take();
        match active {
            Some(id) => match input {
                WorkerInput::Finished(Ok(response)) => WorkerStep {
                    event: Some(
                        WorkerEvent::Completed {
                            protocol_version: PROTOCOL_VERSION,
                            request_id: id,
                            response,
                        },
                    ),
                    start: None,
                    abort: false,
                    stop: false,
                },
                WorkerInput::Finished(Err(e)) => error_step(Some(id), e),
                WorkerInput::TaskFailed => error_step(
                    Some(id),
                    ProviderError::process("worker_task_failed", "The provider request task failed."),
                ),
                WorkerInput::InputClosed => WorkerStep {
                    event: None,
                    start: None,
                    abort: true,
                    stop: true,
                },
                WorkerInput::Line(Err(e)) => {
                    self.active = Some(id);
                    error_step(None, e)
                },
                WorkerInput::Line(Ok(WorkerCommand::Cancel { request_id, .. })) => {
                    if str_eq(request_id.as_str(), id.as_str()) {
                        let mut s = error_step(
                            Some(request_id),
                            ProviderError::new(
                                ProviderErrorKind::Cancelled,
                                "cancelled",
                                "The provider request was cancelled.",
                                false,
                            ),
                        );
                        s.abort = true;
                        s
                    } else {
                        self.active = Some(id);
                        error_step(
                            Some(request_id),
                            ProviderError::invalid(
                                "request_not_active",
                                "The cancellation request did not match the active request.",
                            ),
                        )
                    }
                },
                WorkerInput::Line(Ok(WorkerCommand::Infer { request, .. })) => {
                    self.active = Some(id);
                    let rid = id_if_valid(&request);
                    error_step(
                        rid,
                        ProviderError::new(
                            ProviderErrorKind::ProcessFailure,
                            "worker_busy",
                            "The provider worker already has an active request.",
                            true,
                        ),
                    )
                },
            },
            None => match input {
                WorkerInput::InputClosed => WorkerStep {
                    event: None,
                    start: None,
                    abort: false,
                    stop: true,
                },
                WorkerInput::Finished(_) | WorkerInput::TaskFailed => WorkerStep {
                    event: None,
                    start: None,
                    abort: false,
                    stop: false,
                },
                WorkerInput::Line(Err(e)) => error_step(None, e),
                WorkerInput::Line(Ok(WorkerCommand::Cancel { request_id, .. })) => error_step(
                    Some(request_id),
                    ProviderError::invalid(
                        "request_not_active",
                        "There is no active provider request to cancel.",
                    ),
                ),
                WorkerInput::Line(Ok(WorkerCommand::Infer { request, .. })) => {
                    match request.validate() {
                        Err(error) => {
                            let rid = id_if_valid(&request);
                            return error_step(rid, error);
                        },
                        Ok(()) => {},
                    }
                    if request.provider != self.provider {
                        return error_step(
                            Some(request.request_id.clone()),
                            ProviderError::invalid(
                                "provider_mismatch",
                                "The request provider does not match this worker.",
                            ),
                        );
                    }
                    let request_id = request.request_id.clone();
                    self.active = Some(request.request_id.clone());
                    WorkerStep {
                        event: Some(
                            WorkerEvent::Started { protocol_version: PROTOCOL_VERSION, request_id },
                        ),
                        start: Some(request),
                        abort: false,
                        stop: false,
                    }
                },
            },
        }
    }
}

/// The checks on a decoded command: its protocol version, and the id that a
/// cancellation names.
pub open spec fn command_problem(c: WorkerCommand) -> Option<(ProviderErrorKind, Seq<char>, Seq<char>)> {
    let version = match c {
        WorkerCommand::Infer { protocol_version, .. } => protocol_version,
        WorkerCommand::Cancel { protocol_version, .. } => protocol_version,
    };
    if version != PROTOCOL_VERSION {
        Some(
            (
                ProviderErrorKind::UnsupportedCapability,
                "unsupported_protocol_version"@,
                "The worker protocol version is not supported."@,
            ),
        )
    } else if c matches WorkerCommand::Cancel { request_id, .. } && !request_id_ok(request_id@) {
        Some(
            (
                ProviderErrorKind::InvalidRequest,
                "invalid_request_id"@,
                "request_id must be 1-128 safe ASCII characters."@,
            ),
        )
    } else {
        None
    }
}

/// Accepts a decoded command, or refuses it with the first problem.
pub fn check_command(command: WorkerCommand) -> (r: Result<WorkerCommand, ProviderError>)
    ensures
        match command_problem(command) {
            None => r == Ok::<WorkerCommand, ProviderError>(command),
            Some(p) => r matches Err(e) && provider_error_is(e, p.0, p.1, p.2, false),
        },
{
    if command.protocol_version() != PROTOCOL_VERSION {
        return Err(
            ProviderError::unsupported(
                "unsupported_protocol_version",
                "The worker protocol version is not supported.",
            ),
        );
    }
    match &command {
        WorkerCommand::Cancel { request_id, .. } => {
            match validate_request_id(request_id.as_str()) {
                Ok(()) => {},
                Err(e) => {
                    return Err(e);
                },
            }
        },
        WorkerCommand::Infer { .. } => {},
    }
    Ok(command)
}

/// The error for a command line longer than the protocol allows.
pub fn command_too_large() -> (r: ProviderError)
    ensures
        provider_error_is(
            r,
            ProviderErrorKind::InvalidRequest,
            "command_too_large"@,
            "The worker command exceeded the protocol frame limit."@,
            false,
        ),
{
    ProviderError::invalid("command_too_large", "The worker command exceeded the protocol frame limit.")
}

/// The error for a command line that is not protocol JSON.
pub fn invalid_command() -> (r: ProviderError)
    ensures
        provider_error_is(
            r,
            ProviderErrorKind::InvalidRequest,
            "invalid_command"@,
            "The worker command was not valid protocol JSON."@,
            false,
        ),
{
    ProviderError::invalid("invalid_command", "The worker command was not valid protocol JSON.")
}

// ---------------------------------------------------------------------------
// The credential handed to the worker.
// ---------------------------------------------------------------------------

/// The credential without its trailing line ends.
pub open spec fn trim_line_ends(b: Seq<u8>) -> Seq<u8>
    decreases b.len(),
{
    if b.len() > 0 && (b.last() == 10u8 || b.last() == 13u8) {
        trim_line_ends(b.drop_last())
    } else {
        b
    }
}

/// Why a credential is refused, if it is: too large, or empty or holding a
/// NUL or a line end once its trailing line ends are dropped.
pub open spec fn credential_problem(b: Seq<u8>) -> Option<(Seq<char>, Seq<char>)> {
    let t = trim_line_ends(b);
    if b.len() > MAX_CREDENTIAL_BYTES {
        Some(("credential_too_large"@, "The provider credential exceeds the worker limit."@))
    } else if t.len() == 0 || t.contains(0u8) || t.contains(10u8) || t.contains(13u8) {
        Some(("invalid_credential"@, "The provider credential descriptor contained invalid data."@))
    } else {
        None
    }
}

/// Checks the bytes read from the credential descriptor and returns the
/// credential without its trailing line ends.
pub fn check_credential(bytes: Vec<u8>) -> (r: Result<Vec<u8>, ProviderError>)
    ensures
        match credential_problem(bytes@) {
            None => r matches Ok(v) && v@ == trim_line_ends(bytes@),
            Some(p) => r matches Err(e) && provider_error_is(
                e,
                ProviderErrorKind::Authentication,
                p.0,
                p.1,
                false,
            ),
        },
{
    if bytes.len() > MAX_CREDENTIAL_BYTES {
        return Err(
            ProviderError::new(
                ProviderErrorKind::Authentication,
                "credential_too_large",
                "The provider credential exceeds the worker limit.",
                false,
            ),
        );
    }
    let ghost all = bytes@;
    let mut b = bytes;
    while b.len() > 0 && (b[b.len() - 1] == 10u8 || b[b.len() - 1] == 13u8)
        invariant
            trim_line_ends(all) == trim_line_ends(b@),
        decreases b.len(),
    {
        b.pop();
    }
    assert(trim_line_ends(b@) == b@);
    if b.len() == 0 {
        return Err(
            ProviderError::new(
                ProviderErrorKind::Authentication,
                "invalid_credential",
                "The provider credential descriptor contained invalid data.",
                false,
            ),
        );
    }
    let mut i: usize = 0;
    while i < b.len()
        invariant
            i <= b.len(),
            all.len() <= MAX_CREDENTIAL_BYTES,
            all == bytes@,
            trim_line_ends(all) == b@,
            forall|j: int| 0 <= j < i ==> b@[j] != 0u8 && b@[j] != 10u8 && b@[j] != 13u8,
        decreases b.len() - i,
    {
        let x = b[i];
        if x == 0u8 || x == 10u8 || x == 13u8 {
            assert(b@.contains(x));
            return Err(
                ProviderError::new(
                    ProviderErrorKind::Authentication,
                    "invalid_credential",
                    "The provider credential descriptor contained invalid data.",
                    false,
                ),
            );
        }
        i = i + 1;
    }
    assert(!b@.contains(0u8) && !b@.contains(10u8) && !b@.contains(13u8)) by {
        assert forall|j: int| 0 <= j < b@.len() implies b@[j] != 0u8 && b@[j] != 10u8 && b@[j]
            != 13u8 by {}
    }
    Ok(b)
}

// ---------------------------------------------------------------------------
// The worker's command line.
// ---------------------------------------------------------------------------

#[derive(Debug, Clone, Copy, PartialEq, Eq, Structural)]
pub enum WorkerMode {
    Run(ProviderId),
    Capabilities(ProviderId),
}

/// The arguments from `i` on, read after `--provider` gave `provider` and
/// `--capabilities` gave `caps`; a refusal is its code and message.
pub open spec fn worker_args(args: Seq<Seq<char>>, i: int, provider: Option<ProviderId>, caps: bool) -> Result<
    WorkerMode,
    (Seq<char>, Seq<char>),
>
    decreases args.len() - i,
{
    if i >= args.len() {
        match provider {
            None => Err(("missing_provider"@, "--provider is required."@)),
            Some(p) => Ok(
                if caps {
                    WorkerMode::Capabilities(p)
                } else {
                    WorkerMode::Run(p)
                },
            ),
        }
    } else if args[i] == "--provider"@ {
        if i + 1 >= args.len() {
            Err(("missing_provider"@, "--provider requires a provider name."@))
        } else {
            match provider_named(args[i + 1]) {
                None => Err(("unknown_provider"@, "The provider name is not supported."@)),
                Some(p) => worker_args(args, i + 2, Some(p), caps),
            }
        }
    } else if args[i] == "--capabilities"@ {
        worker_args(args, i + 1, provider, true)
    } else {
        Err(("invalid_argument"@, "Only --provider and --capabilities are accepted."@))
    }
}

pub open spec fn arg_views(args: Seq<String>) -> Seq<Seq<char>> {
    args.map_values(|a: String| a@)
}

/// Reads the worker's arguments (without the program name).
pub fn parse_worker_args(args: &Vec<String>) -> (r: Result<WorkerMode, ProviderError>)
    ensures
        match worker_args(arg_views(args@), 0, None, false) {
            Ok(m) => r == Ok::<WorkerMode, ProviderError>(m),
            Err(f) => r matches Err(e) && provider_error_is(
                e,
                ProviderErrorKind::InvalidRequest,
                f.0,
                f.1,
                false,
            ),
        },
{
    let ghost views = arg_views(args@);
    let mut provider: Option<ProviderId> = None;
    let mut caps = false;
    let mut i: usize = 0;
    while i < args.len()
        invariant
            i <= args.len(),
            views == arg_views(args@),
            views.len() == args.len(),
            worker_args(views, 0, None, false) == worker_args(views, i as int, provider, caps),
        decreases args.len() - i,
    {
        let a = args[i].as_str();
        assert(views[i as int] == a@);
        if str_eq(a, "--provider") {
            if i + 1 >= args.len() {
                return Err(
                    ProviderError::invalid("missing_provider", "--provider requires a provider name."),
                );
            }
            let v = args[i + 1].as_str();
            assert(views[i + 1] == v@);
            match ProviderId::parse(v) {
                Ok(p) => {
                    provider = Some(p);
                },
                Err(e) => {
                    return Err(e);
                },
            }
            i = i + 2;
        } else if str_eq(a, "--capabilities") {
            caps = true;
            i = i + 1;
        } else {
            return Err(
                ProviderError::invalid(
                    "invalid_argument",
                    "Only --provider and --capabilities are accepted.",
                ),
            );
        }
    }
    match provider {
        None => Err(ProviderError::invalid("missing_provider", "--provider is required.")),
        Some(p) => Ok(
            if caps {
                WorkerMode::Capabilities(p)
            } else {
                WorkerMode::Run(p)
            },
        ),
    }
}

} // verus!
