//! The typed protocol between the router and a provider worker.
use super::error::{malformed_message, provider_error_is, ProviderError, ProviderErrorKind};
use crate::text::{chars_of, is_digit, is_lower, is_upper, str_eq, utf8_len, utf8_len_sat};
use vstd::prelude::*;

verus! {

pub const PROTOCOL_VERSION: u16 = 1;

pub const MAX_COMMAND_BYTES: usize = 1_100_000;

pub const MAX_TEXT_BYTES: usize = 1_048_576;

pub const MAX_RESPONSE_BYTES: usize = 4_194_304;

pub const DEFAULT_TIMEOUT_MS: u64 = 60_000;

pub const MAX_TIMEOUT_MS: u64 = 300_000;

#[derive(Debug, Clone, Copy, PartialEq, Eq, Structural)]
pub enum ProviderId {
    OpenAi,
    Anthropic,
    Gemini,
    Xai,
    DeepSeek,
}

pub open spec fn provider_name(p: ProviderId) -> Seq<char> {
    match p {
        ProviderId::OpenAi => "openai"@,
        ProviderId::Anthropic => "anthropic"@,
        ProviderId::Gemini => "gemini"@,
        ProviderId::Xai => "xai"@,
        ProviderId::DeepSeek => "deepseek"@,
    }
}

/// The provider a name stands for.
pub open spec fn provider_named(s: Seq<char>) -> Option<ProviderId> {
    if s == provider_name(ProviderId::OpenAi) {
        Some(ProviderId::OpenAi)
    } else if s == provider_name(ProviderId::Anthropic) {
        Some(ProviderId::Anthropic)
    } else if s == provider_name(ProviderId::Gemini) {
        Some(ProviderId::Gemini)
    } else if s == provider_name(ProviderId::Xai) {
        Some(ProviderId::Xai)
    } else if s == provider_name(ProviderId::DeepSeek) {
        Some(ProviderId::DeepSeek)
    } else {
        None
    }
}

impl ProviderId {
    pub const ALL: [ProviderId; 5] = [
        ProviderId::OpenAi,
        ProviderId::Anthropic,
        ProviderId::Gemini,
        ProviderId::Xai,
        ProviderId::DeepSeek,
    ];

    pub fn as_str(self) -> (r: &'static str)
        ensures
            r@ == provider_name(self),
    {
        match self {
            ProviderId::OpenAi => "openai",
            ProviderId::Anthropic => "anthropic",
            ProviderId::Gemini => "gemini",
            ProviderId::Xai => "xai",
            ProviderId::DeepSeek => "deepseek",
        }
    }

    /// The provider of a profile name (`FromStr`).
    pub fn parse(value: &str) -> (r: Result<ProviderId, ProviderError>)
        ensures
            provider_named(value@) == match r {
                Ok(p) => Some(p),
                Err(_) => None::<ProviderId>,
            },
            match r {
                Ok(p) => provider_name(p) == value@,
                Err(e) => provider_error_is(
                    e,
                    ProviderErrorKind::InvalidRequest,
                    "unknown_provider"@,
                    "The provider name is not supported."@,
                    false,
                ) && forall|p: ProviderId| provider_name(p) != value@,
            },
    {
        if str_eq(value, "openai") {
            Ok(ProviderId::OpenAi)
        } else if str_eq(value, "anthropic") {
            Ok(ProviderId::Anthropic)
        } else if str_eq(value, "gemini") {
            Ok(ProviderId::Gemini)
        } else if str_eq(value, "xai") {
            Ok(ProviderId::Xai)
        } else if str_eq(value, "deepseek") {
            Ok(ProviderId::DeepSeek)
        } else {
            Err(ProviderError::invalid("unknown_provider", "The provider name is not supported."))
        }
    }
}

#[derive(Debug, Clone, Copy, PartialEq, Eq, Structural)]
pub enum Role {
    User,
    Assistant,
}

#[derive(Debug, Clone, PartialEq, Eq)]
pub struct Message {
    pub role: Role,
    pub content: String,
}

/// A request for text. The sampling temperature, a 32-bit float on the wire,
/// is carried as its IEEE-754 bit pattern (`f32::to_bits`).
#[derive(Debug, Clone, PartialEq, Eq)]
pub struct InferenceRequest {
    pub request_id: String,
    pub provider: ProviderId,
    pub model: String,
    pub system: Option<String>,
    pub messages: Vec<Message>,
    pub max_output_tokens: u32,
    pub temperature_bits: Option<u32>,
    pub timeout_ms: Option<u64>,
    pub stream: bool,
}

pub open spec fn ascii_alnum(c: char) -> bool {
    is_digit(c) || is_lower(c) || is_upper(c)
}

/// A request id: 1 to 128 bytes of ASCII letters, digits and `-_.`.
pub open spec fn request_id_ok(id: Seq<char>) -> bool {
    &&& 1 <= utf8_len(id) <= 128
    &&& forall|i: int| 0 <= i < id.len() ==> (ascii_alnum(#[trigger] id[i]) || id[i] == '-' || id[i]
        == '_' || id[i] == '.')
}

/// A model identifier: 1 to 200 bytes of ASCII letters, digits and `-_.:`,
/// so that it can never name an endpoint or a path.
pub open spec fn model_ok(m: Seq<char>) -> bool {
    &&& 1 <= utf8_len(m) <= 200
    &&& forall|i: int| 0 <= i < m.len() ==> (ascii_alnum(#[trigger] m[i]) || m[i] == '-' || m[i]
        == '_' || m[i] == '.' || m[i] == ':')
}

/// A temperature, by its bit pattern, that is finite and between 0 and 2:
/// the non-negative floats up to 2.0 (`0x4000_0000`) and negative zero.
pub open spec fn temperature_ok(bits: u32) -> bool {
    bits <= 0x4000_0000 || bits == 0x8000_0000
}

/// The first message, from index `i` on, whose content is empty or longer
/// than 262144 bytes.
pub open spec fn bad_message_from(ms: Seq<Message>, i: int) -> bool
    decreases ms.len() - i,
{
    if i < 0 || i >= ms.len() {
        false
    } else {
        utf8_len(ms[i].content@) == 0 || utf8_len(ms[i].content@) > 262_144 || bad_message_from(
            ms,
            i + 1,
        )
    }
}

/// The bytes of the system text and of all messages.
pub open spec fn text_bytes(system: Option<String>, ms: Seq<Message>) -> int
    decreases ms.len(),
{
    if ms.len() == 0 {
        match system {
            Some(s) => utf8_len(s@) as int,
            None => 0,
        }
    } else {
        text_bytes(system, ms.drop_last()) + utf8_len(ms.last().content@)
    }
}

/// The ways in which a request can be refused.
#[derive(Debug, Clone, Copy, PartialEq, Eq, Structural)]
pub enum RequestProblem {
    RequestId,
    Model,
    Messages,
    MessageContent,
    TooLarge,
    MaxOutputTokens,
    Temperature,
    Timeout,
    Streaming,
}

pub open spec fn problem_code(p: RequestProblem) -> Seq<char> {
    match p {
        RequestProblem::RequestId => "invalid_request_id"@,
        RequestProblem::Model => "invalid_model"@,
        RequestProblem::Messages => "invalid_messages"@,
        RequestProblem::MessageContent => "invalid_message_content"@,
        RequestProblem::TooLarge => "request_too_large"@,
        RequestProblem::MaxOutputTokens => "invalid_max_output_tokens"@,
        RequestProblem::Temperature => "invalid_temperature"@,
        RequestProblem::Timeout => "invalid_timeout"@,
        RequestProblem::Streaming => "streaming_not_enabled"@,
    }
}

pub open spec fn problem_message(p: RequestProblem) -> Seq<char> {
    match p {
        RequestProblem::RequestId => "request_id must be 1-128 safe ASCII characters."@,
        RequestProblem::Model => "model must be a configured, non-empty provider model identifier."@,
        RequestProblem::Messages => "messages must contain between 1 and 128 text messages."@,
        RequestProblem::MessageContent => "Each message must contain 1-262144 bytes of text."@,
        RequestProblem::TooLarge => "The sanitized request text exceeds the worker limit."@,
        RequestProblem::MaxOutputTokens => "max_output_tokens must be between 1 and 65536."@,
        RequestProblem::Temperature => "temperature must be finite and between 0 and 2."@,
        RequestProblem::Timeout => "timeout_ms must be between 100 and 300000."@,
        RequestProblem::Streaming => "Remote streaming is not enabled in protocol version 1."@,
    }
}

/// The first problem of a request, in the order in which they are checked.
pub open spec fn request_problem(r: InferenceRequest) -> Option<RequestProblem> {
    if !request_id_ok(r.request_id@) {
        Some(RequestProblem::RequestId)
    } else if !model_ok(r.model@) {
        Some(RequestProblem::Model)
    } else if r.messages@.len() == 0 || r.messages@.len() > 128 {
        Some(RequestProblem::Messages)
    } else if bad_message_from(r.messages@, 0) {
        Some(RequestProblem::MessageContent)
    } else if text_bytes(r.system, r.messages@) > MAX_TEXT_BYTES {
        Some(RequestProblem::TooLarge)
    } else if !(1 <= r.max_output_tokens <= 65_536) {
        Some(RequestProblem::MaxOutputTokens)
    } else if r.temperature_bits matches Some(b) && !temperature_ok(b) {
        Some(RequestProblem::Temperature)
    } else if r.timeout_ms matches Some(t) && !(100 <= t <= MAX_TIMEOUT_MS) {
        Some(RequestProblem::Timeout)
    } else if r.stream {
        Some(RequestProblem::Streaming)
    } else {
        None
    }
}

/// `r` reports exactly the problem `p`: streaming is an unsupported
/// capability, every other problem an invalid request.
pub open spec fn reports_request_problem(r: Result<(), ProviderError>, p: Option<RequestProblem>) -> bool {
    match p {
        None => r is Ok,
        Some(q) => r matches Err(e) && provider_error_is(
            e,
            if q == RequestProblem::Streaming {
                ProviderErrorKind::UnsupportedCapability
            } else {
                ProviderErrorKind::InvalidRequest
            },
            problem_code(q),
            problem_message(q),
            false,
        ),
    }
}

fn safe_chars(s: &[char], allow_colon: bool) -> (r: bool)
    ensures
        r == forall|i: int|
            0 <= i < s@.len() ==> (ascii_alnum(#[trigger] s@[i]) || s@[i] == '-' || s@[i] == '_'
                || s@[i] == '.' || (allow_colon && s@[i] == ':')),
{
    let mut i: usize = 0;
    while i < s.len()
        invariant
            i <= s.len(),
            forall|j: int|
                0 <= j < i ==> (ascii_alnum(#[trigger] s@[j]) || s@[j] == '-' || s@[j] == '_'
                    || s@[j] == '.' || (allow_colon && s@[j] == ':')),
        decreases s.len() - i,
    {
        let c = s[i];
        if !(('0' <= c && c <= '9') || ('a' <= c && c <= 'z') || ('A' <= c && c <= 'Z') || c == '-'
            || c == '_' || c == '.' || (allow_colon && c == ':')) {
            return false;
        }
        i = i + 1;
    }
    true
}

pub fn validate_request_id(request_id: &str) -> (r: Result<(), ProviderError>)
    ensures
        reports_request_problem(
            r,
            if request_id_ok(request_id@) {
                None
            } else {
                Some(RequestProblem::RequestId)
            },
        ),
{
    let c = chars_of(request_id);
    let n = utf8_len_sat(c.as_slice());
    if n == 0 || n > 128 || !safe_chars(c.as_slice(), false) {
        return Err(
            ProviderError::invalid(
                "invalid_request_id",
                "request_id must be 1-128 safe ASCII characters.",
            ),
        );
    }
    Ok(())
}

fn fail(code: &str, message: &str) -> (r: Result<(), ProviderError>)
    ensures
        r matches Err(e) && provider_error_is(e, ProviderErrorKind::InvalidRequest, code@, message@, false),
{
    Err(ProviderError::invalid(code, message))
}

impl InferenceRequest {
    /// Checks the request id, the model, the messages and their total size,
    /// the output limit, the temperature, the timeout, and that streaming is
    /// off; the first problem decides the error.
    pub fn validate(&self) -> (r: Result<(), ProviderError>)
        ensures
            reports_request_problem(r, request_problem(*self)),
    {
        validate_request_id(self.request_id.as_str())?;
        let m = chars_of(self.model.as_str());
        let mlen = utf8_len_sat(m.as_slice());
        if mlen == 0 || mlen > 200 || !safe_chars(m.as_slice(), true) {
            return fail(
                "invalid_model",
                "model must be a configured, non-empty provider model identifier.",
            );
        }
        if self.messages.len() == 0 || self.messages.len() > 128 {
            return fail(
                "invalid_messages",
                "messages must contain between 1 and 128 text messages.",
            );
        }
        let mut total: usize = match &self.system {
            Some(s) => utf8_len_sat(chars_of(s.as_str()).as_slice()),
            None => 0,
        };
        let ghost ms = self.messages@;
        let mut i: usize = 0;
        assert(ms.take(0) =~= Seq::<Message>::empty());
        while i < self.messages.len()
            invariant
                i <= ms.len(),
                ms == self.messages@,
                1 <= ms.len() <= 128,
                request_id_ok(self.request_id@),
                model_ok(self.model@),
                bad_message_from(ms, 0) == bad_message_from(ms, i as int),
                total == (if text_bytes(self.system, ms.take(i as int)) > usize::MAX {
                    usize::MAX as int
                } else {
                    text_bytes(self.system, ms.take(i as int))
                }),
            decreases ms.len() - i,
        {
            let n = utf8_len_sat(chars_of(self.messages[i].content.as_str()).as_slice());
            if n == 0 || n > 262_144 {
                assert(bad_message_from(ms, i as int));
                return fail(
                    "invalid_message_content",
                    "Each message must contain 1-262144 bytes of text.",
                );
            }
            assert(ms.take(i + 1).drop_last() =~= ms.take(i as int));
            total = total.saturating_add(n);
            i = i + 1;
        }
        assert(ms.take(ms.len() as int) =~= ms);
        if total > MAX_TEXT_BYTES {
            return fail(
                "request_too_large",
                "The sanitized request text exceeds the worker limit.",
            );
        }
        if self.max_output_tokens < 1 || self.max_output_tokens > 65_536 {
            return fail(
                "invalid_max_output_tokens",
                "max_output_tokens must be between 1 and 65536.",
            );
        }
        if let Some(bits) = self.temperature_bits {
            if !(bits <= 0x4000_0000 || bits == 0x8000_0000) {
                return fail(
                    "invalid_temperature",
                    "temperature must be finite and between 0 and 2.",
                );
            }
        }
        if let Some(t) = self.timeout_ms {
            if t < 100 || t > MAX_TIMEOUT_MS {
                return fail("invalid_timeout", "timeout_ms must be between 100 and 300000.");
            }
        }
        if self.stream {
            return Err(
                ProviderError::unsupported(
                    "streaming_not_enabled",
                    "Remote streaming is not enabled in protocol version 1.",
                ),
            );
        }
        Ok(())
    }

    /// The deadline of the request in milliseconds: its own or the default.
    pub fn timeout(&self) -> (r: u64)
        ensures
            r == (match self.timeout_ms {
                Some(t) => t,
                None => DEFAULT_TIMEOUT_MS,
            }),
    {
        match self.timeout_ms {
            Some(t) => t,
            None => DEFAULT_TIMEOUT_MS,
        }
    }
}

#[derive(Debug, Clone, Copy, PartialEq, Eq, Structural)]
pub enum FinishReason {
    Stop,
    Length,
    Refusal,
    Incomplete,
    Other,
}

#[derive(Debug, Clone, Copy, PartialEq, Eq, Structural)]
pub struct TokenUsage {
    pub input_tokens: Option<u64>,
    pub output_tokens: Option<u64>,
    pub total_tokens: Option<u64>,
}

impl Default for TokenUsage {
    fn default() -> (r: Self)
        ensures
            r == (TokenUsage { input_tokens: None, output_tokens: None, total_tokens: None }),
    {
        TokenUsage { input_tokens: None, output_tokens: None, total_tokens: None }
    }
}

#[derive(Debug, Clone, PartialEq, Eq)]
pub struct InferenceResponse {
    pub provider: ProviderId,
    pub requested_model: String,
    pub text: String,
    pub finish_reason: FinishReason,
    pub incomplete: bool,
    pub usage: Option<TokenUsage>,
}

#[derive(Debug, Clone, Copy, PartialEq, Eq, Structural)]
pub enum ApiBilling {
    SeparatelyBilledApiUsage,
}

#[derive(Debug, Clone, Copy, PartialEq, Eq, Structural)]
pub enum ConsumerSubscription {
    NotAnApiBillingEntitlement,
}

#[derive(Debug, Clone, Copy, PartialEq, Eq, Structural)]
pub enum ProviderVerification {
    OfficialDocsAndOfflineFixturesOnly,
}

#[derive(Debug, Clone, Copy, PartialEq, Eq, Structural)]
pub struct ProviderCapabilities {
    pub provider: ProviderId,
    pub remote_egress: bool,
    pub requires_router_consent: bool,
    pub privacy_classification: bool,
    pub text_generation: bool,
    pub streaming: bool,
    pub cancellation: bool,
    pub tool_calls: bool,
    pub server_state_requested: bool,
    pub max_input_bytes: u32,
    pub max_response_bytes: u32,
    pub live_tested: bool,
    pub enabled_by_default: bool,
    pub billing: ApiBilling,
    pub consumer_subscription: ConsumerSubscription,
    pub verification: ProviderVerification,
}

/// What every provider worker declares: remote egress behind router consent,
/// text only, no tools, no streaming, no server-side state, separately
/// billed API usage, not live-tested and off by default.
pub open spec fn declared_capabilities(provider: ProviderId) -> ProviderCapabilities {
    ProviderCapabilities {
        provider,
        remote_egress: true,
        requires_router_consent: true,
        privacy_classification: false,
        text_generation: true,
        streaming: false,
        cancellation: true,
        tool_calls: false,
        server_state_requested: false,
        max_input_bytes: MAX_COMMAND_BYTES as u32,
        max_response_bytes: MAX_RESPONSE_BYTES as u32,
        live_tested: false,
        enabled_by_default: false,
        billing: ApiBilling::SeparatelyBilledApiUsage,
        consumer_subscription: ConsumerSubscription::NotAnApiBillingEntitlement,
        verification: ProviderVerification::OfficialDocsAndOfflineFixturesOnly,
    }
}

impl ProviderCapabilities {
    pub fn for_provider(provider: ProviderId) -> (r: Self)
        ensures
            r == declared_capabilities(provider),
    {
        ProviderCapabilities {
            provider,
            remote_egress: true,
            requires_router_consent: true,
            privacy_classification: false,
            text_generation: true,
            streaming: false,
            cancellation: true,
            tool_calls: false,
            server_state_requested: false,
            max_input_bytes: MAX_COMMAND_BYTES as u32,
            max_response_bytes: MAX_RESPONSE_BYTES as u32,
            live_tested: false,
            enabled_by_default: false,
            billing: ApiBilling::SeparatelyBilledApiUsage,
            consumer_subscription: ConsumerSubscription::NotAnApiBillingEntitlement,
            verification: ProviderVerification::OfficialDocsAndOfflineFixturesOnly,
        }
    }
}

#[derive(Debug, Clone, PartialEq, Eq)]
pub enum WorkerCommand {
    Infer { protocol_version: u16, request: InferenceRequest },
    Cancel { protocol_version: u16, request_id: String },
}

impl WorkerCommand {
    pub fn protocol_version(&self) -> (r: u16)
        ensures
            r == (match *self {
                WorkerCommand::Infer { protocol_version, .. } => protocol_version,
                WorkerCommand::Cancel { protocol_version, .. } => protocol_version,
            }),
    {
        match self {
            WorkerCommand::Infer { protocol_version, .. } => *protocol_version,
            WorkerCommand::Cancel { protocol_version, .. } => *protocol_version,
        }
    }
}

#[derive(Debug, Clone, PartialEq, Eq)]
pub enum WorkerEvent {
    Ready { protocol_version: u16, capabilities: ProviderCapabilities },
    Started { protocol_version: u16, request_id: String },
    Completed { protocol_version: u16, request_id: String, response: InferenceResponse },
    Error { protocol_version: u16, request_id: Option<String>, error: ProviderError },
}

impl WorkerEvent {
    pub fn protocol_version(&self) -> (r: u16)
        ensures
            r == (match *self {
                WorkerEvent::Ready { protocol_version, .. } => protocol_version,
                WorkerEvent::Started { protocol_version, .. } => protocol_version,
                WorkerEvent::Completed { protocol_version, .. } => protocol_version,
                WorkerEvent::Error { protocol_version, .. } => protocol_version,
            }),
    {
        match self {
            WorkerEvent::Ready { protocol_version, .. } => *protocol_version,
            WorkerEvent::Started { protocol_version, .. } => *protocol_version,
            WorkerEvent::Completed { protocol_version, .. } => *protocol_version,
            WorkerEvent::Error { protocol_version, .. } => *protocol_version,
        }
    }
}

} // verus!
