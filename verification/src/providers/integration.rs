//! The router's side of the worker protocol: it frames only typed commands
//! and accepts only events of the protocol version it speaks.
use super::error::{provider_error_is, ProviderError, ProviderErrorKind};
use super::protocol::{
    declared_capabilities, reports_request_problem, request_id_ok, request_problem,
    validate_request_id, InferenceRequest, ProviderCapabilities, ProviderId, RequestProblem,
    WorkerCommand, WorkerEvent, PROTOCOL_VERSION,
};
use vstd::prelude::*;

verus! {

#[derive(Debug, Clone, Copy)]
pub struct JsonLineProviderIntegration {
    provider: ProviderId,
}

impl View for JsonLineProviderIntegration {
    type V = ProviderId;

    closed spec fn view(&self) -> ProviderId {
        self.provider
    }
}

pub open spec fn version_refused(e: ProviderError) -> bool {
    provider_error_is(
        e,
        ProviderErrorKind::UnsupportedCapability,
        "unsupported_protocol_version"@,
        "The worker protocol version is not supported."@,
        false,
    )
}

pub open spec fn event_version(e: WorkerEvent) -> u16 {
    match e {
        WorkerEvent::Ready { protocol_version, .. } => protocol_version,
        WorkerEvent::Started { protocol_version, .. } => protocol_version,
        WorkerEvent::Completed { protocol_version, .. } => protocol_version,
        WorkerEvent::Error { protocol_version, .. } => protocol_version,
    }
}

pub open spec fn command_version(c: WorkerCommand) -> u16 {
    match c {
        WorkerCommand::Infer { protocol_version, .. } => protocol_version,
        WorkerCommand::Cancel { protocol_version, .. } => protocol_version,
    }
}

impl JsonLineProviderIntegration {
    pub fn new(provider: ProviderId) -> (r: Self)
        ensures
            r@ == provider,
    {
        JsonLineProviderIntegration { provider }
    }

    pub fn provider(&self) -> (r: ProviderId)
        ensures
            r == self@,
    {
        self.provider
    }

    pub fn capabilities(&self) -> (r: ProviderCapabilities)
        ensures
            r == declared_capabilities(self@),
    {
        ProviderCapabilities::for_provider(self.provider)
    }

    /// The command that asks the worker for text: the request must be valid
    /// and for this integration's provider.
    pub fn inference_command(&self, request: InferenceRequest) -> (r: Result<
        WorkerCommand,
        ProviderError,
    >)
        ensures
            request_problem(request) is Some ==> (r matches Err(e) && reports_request_problem(
                Err::<(), ProviderError>(e),
                request_problem(request),
            )),
            request_problem(request) is None && request.provider != self@ ==> (r matches Err(e)
                && provider_error_is(
                e,
                ProviderErrorKind::InvalidRequest,
                "provider_mismatch"@,
                "The request provider does not match this integration."@,
                false,
            )),
            request_problem(request) is None && request.provider == self@ ==> r == Ok::<
                WorkerCommand,
                ProviderError,
            >(WorkerCommand::Infer { protocol_version: PROTOCOL_VERSION, request }),
    {
        match request.validate() {
            Ok(()) => {},
            Err(e) => {
                return Err(e);
            },
        }
        if request.provider != self.provider {
            return Err(
                ProviderError::invalid(
                    "provider_mismatch",
                    "The request provider does not match this integration.",
                ),
            );
        }
        Ok(WorkerCommand::Infer { protocol_version: PROTOCOL_VERSION, request })
    }

    /// The command that cancels the request with this id.
    pub fn cancellation_command(&self, request_id: String) -> (r: Result<
        WorkerCommand,
        ProviderError,
    >)
        ensures
            !request_id_ok(request_id@) ==> (r matches Err(e) && reports_request_problem(
                Err::<(), ProviderError>(e),
                Some(RequestProblem::RequestId),
            )),
            request_id_ok(request_id@) ==> r == Ok::<WorkerCommand, ProviderError>(
                WorkerCommand::Cancel { protocol_version: PROTOCOL_VERSION, request_id },
            ),
    {
        match validate_request_id(request_id.as_str()) {
            Ok(()) => {},
            Err(e) => {
                return Err(e);
            },
        }
        Ok(WorkerCommand::Cancel { protocol_version: PROTOCOL_VERSION, request_id })
    }

    /// A command may be framed only in the protocol version spoken here.
    pub fn check_command_version(&self, command: &WorkerCommand) -> (r: Result<(), ProviderError>)
        ensures
            r is Ok <==> command_version(*command) == PROTOCOL_VERSION,
            r matches Err(e) ==> version_refused(e),
    {
        if command.protocol_version() != PROTOCOL_VERSION {
            return Err(
                ProviderError::unsupported(
                    "unsupported_protocol_version",
                    "The worker protocol version is not supported.",
                ),
            );
        }
        Ok(())
    }

    /// Accepts a decoded event only in the protocol version spoken here.
    pub fn check_event(&self, event: WorkerEvent) -> (r: Result<WorkerEvent, ProviderError>)
        ensures
            event_version(event) == PROTOCOL_VERSION ==> r == Ok::<WorkerEvent, ProviderError>(
                event,
            ),
            event_version(event) != PROTOCOL_VERSION ==> (r matches Err(e) && version_refused(e)),
    {
        if event.protocol_version() != PROTOCOL_VERSION {
            return Err(
                ProviderError::unsupported(
                    "unsupported_protocol_version",
                    "The worker protocol version is not supported.",
                ),
            );
        }
        Ok(event)
    }

    /// The error for a line that is not a protocol event.
    pub fn invalid_event(&self) -> (r: ProviderError)
        ensures
            provider_error_is(
                r,
                ProviderErrorKind::MalformedResponse,
                "invalid_worker_event"@,
                "The provider worker returned invalid protocol JSON."@,
                false,
            ),
    {
        ProviderError::new(
            ProviderErrorKind::MalformedResponse,
            "invalid_worker_event",
            "The provider worker returned invalid protocol JSON.",
            false,
        )
    }
}

} // verus!
