//! The decisions of a broker connection: which requests are accepted, what
//! each is answered, how frames are cut from the byte stream, and what a
//! chat request reports as it waits, runs and ends.
use super::config::BrokerConfig;
use super::llama::{error_is, LErr, LlamaError, LlamaOutput};
use super::protocol::{
    BrokerEvent, BrokerMessage, BrokerRequest, BrokerTool, BROKER_PROTOCOL_VERSION,
};
use super::queue::{reserve_refusal, after_reserve, queue_error_text, InferenceQueue, QueueError, Reservation, Phase};
use crate::protocol::errors::{ContractError, ContractErrorCode};
use crate::protocol::provider::{ProviderErrorCode, ProviderHealth};
use crate::text::{chars_of, owned, str_eq, utf8_len, utf8_len_sat};
use vstd::prelude::*;

verus! {

pub open spec fn opt_len(o: Option<String>) -> nat {
    match o {
        Some(s) => utf8_len(s@),
        None => 0,
    }
}

/// A message has a known role and bounded optional fields.
pub open spec fn message_ok(m: BrokerMessage) -> bool {
    &&& (m.role@ == "system"@ || m.role@ == "user"@ || m.role@ == "assistant"@ || m.role@
        == "tool"@)
    &&& utf8_len(m.role@) <= 16
    &&& opt_len(m.name) <= 128
    &&& opt_len(m.tool_call_id) <= 128
}

/// The bytes of all message contents.
pub open spec fn content_total(ms: Seq<BrokerMessage>) -> int
    decreases ms.len(),
{
    if ms.len() == 0 {
        0
    } else {
        content_total(ms.drop_last()) + utf8_len(ms.last().content@)
    }
}

pub open spec fn tool_ok(t: BrokerTool) -> bool {
    &&& 1 <= utf8_len(t.name@) <= 128
    &&& utf8_len(t.description@) <= 4096
    &&& utf8_len(t.parameters@) <= 65_536
}

/// The first problem of a chat request, as its message.
pub open spec fn chat_problem(
    config: BrokerConfig,
    ms: Seq<BrokerMessage>,
    tools: Seq<BrokerTool>,
    max_tokens: u32,
) -> Option<Seq<char>> {
    if ms.len() == 0 || ms.len() > config.max_messages {
        Some("message count is outside configured bounds"@)
    } else if (exists|i: int| 0 <= i < ms.len() && !message_ok(#[trigger] ms[i])) || content_total(
        ms,
    ) > usize::MAX {
        Some("messages contain invalid fields"@)
    } else if content_total(ms) > config.max_prompt_bytes {
        Some("prompt exceeds configured size limit"@)
    } else if max_tokens == 0 || max_tokens > config.max_generation_tokens {
        Some("max_tokens is outside configured bounds"@)
    } else if tools.len() > 64 || exists|i: int| 0 <= i < tools.len() && !tool_ok(#[trigger] tools[i]) {
        Some("tool definitions are outside configured bounds"@)
    } else {
        None
    }
}

proof fn lemma_content_total_prefix(ms: Seq<BrokerMessage>, j: int)
    requires
        0 <= j <= ms.len(),
    ensures
        content_total(ms.take(j)) <= content_total(ms),
        content_total(ms.take(j)) >= 0,
    decreases ms.len(),
{
    if j == ms.len() {
        assert(ms.take(j) =~= ms);
        if ms.len() > 0 {
            lemma_content_total_prefix(ms.drop_last(), j - 1);
        }
    } else {
        assert(ms.drop_last().take(j) =~= ms.take(j));
        lemma_content_total_prefix(ms.drop_last(), j);
    }
}

fn len_of(s: &String) -> (r: usize)
    ensures
        r == (if utf8_len(s@) > usize::MAX {
            usize::MAX as nat
        } else {
            utf8_len(s@)
        }),
{
    let c = chars_of(s.as_str());
    utf8_len_sat(c.as_slice())
}

fn opt_len_of(o: &Option<String>) -> (r: usize)
    ensures
        r == (if opt_len(*o) > usize::MAX {
            usize::MAX as nat
        } else {
            opt_len(*o)
        }),
{
    match o {
        Some(s) => len_of(s),
        None => 0,
    }
}

/// Checks a chat request against the configured bounds.
pub fn validate_chat(
    config: &BrokerConfig,
    messages: &Vec<BrokerMessage>,
    tools: &Vec<BrokerTool>,
    max_tokens: u32,
) -> (r: Result<(), &'static str>)
    ensures
        match chat_problem(*config, messages@, tools@, max_tokens) {
            None => r is Ok,
            Some(m) => r matches Err(e) && e@ == m,
        },
{
    if messages.len() == 0 || messages.len() > config.max_messages {
        return Err("message count is outside configured bounds");
    }
    let ghost ms = messages@;
    let mut total: usize = 0;
    let mut i: usize = 0;
    assert(ms.take(0) =~= Seq::<BrokerMessage>::empty());
    while i < messages.len()
        invariant
            i <= ms.len(),
            ms == messages@,
            1 <= ms.len() <= config.max_messages,
            forall|j: int| 0 <= j < i ==> message_ok(#[trigger] ms[j]),
            total == content_total(ms.take(i as int)),
        decreases ms.len() - i,
    {
        let m = &messages[i];
        let role = m.role.as_str();
        let known = str_eq(role, "system") || str_eq(role, "user") || str_eq(role, "assistant")
            || str_eq(role, "tool");
        if !known || len_of(&m.role) > 16 || opt_len_of(&m.name) > 128 || opt_len_of(&m.tool_call_id)
            > 128 {
            assert(!message_ok(ms[i as int]));
            return Err("messages contain invalid fields");
        }
        let cc = chars_of(m.content.as_str());
        assert(ms.take(i + 1).drop_last() =~= ms.take(i as int));
        let n = match crate::text::utf8_len_exact(cc.as_slice()) {
            Some(n) => n,
            None => {
                proof {
                    lemma_content_total_prefix(ms, i + 1);
                    lemma_content_total_prefix(ms, i as int);
                }
                return Err("messages contain invalid fields");
            },
        };
        if n > usize::MAX - total {
            proof {
                lemma_content_total_prefix(ms, i + 1);
            }
            return Err("messages contain invalid fields");
        }
        total = total + n;
        i = i + 1;
    }
    assert(ms.take(ms.len() as int) =~= ms);
    if total > config.max_prompt_bytes {
        return Err("prompt exceeds configured size limit");
    }
    if max_tokens == 0 || max_tokens > config.max_generation_tokens {
        return Err("max_tokens is outside configured bounds");
    }
    if tools.len() > 64 {
        return Err("tool definitions are outside configured bounds");
    }
    let mut k: usize = 0;
    while k < tools.len()
        invariant
            k <= tools.len(),
            tools.len() <= 64,
            ms == messages@,
            1 <= ms.len() <= config.max_messages,
            forall|j: int| 0 <= j < ms.len() ==> message_ok(#[trigger] ms[j]),
            content_total(ms) == total,
            total <= config.max_prompt_bytes,
            !(max_tokens == 0 || max_tokens > config.max_generation_tokens),
            forall|j: int| 0 <= j < k ==> tool_ok(#[trigger] tools@[j]),
        decreases tools.len() - k,
    {
        let t = &tools[k];
        let nl = len_of(&t.name);
        if nl == 0 || nl > 128 || len_of(&t.description) > 4096 || len_of(&t.parameters) > 65_536 {
            assert(!tool_ok(tools@[k as int]));
            return Err("tool definitions are outside configured bounds");
        }
        k = k + 1;
    }
    Ok(())
}

// ---------------------------------------------------------------------------
// Events.
// ---------------------------------------------------------------------------

/// `e` is the error event for `request_id` with this code, provider error,
/// message and retry flag.
pub open spec fn error_event_is(
    e: BrokerEvent,
    request_id: Seq<char>,
    code: ContractErrorCode,
    provider_error: ProviderErrorCode,
    message: Seq<char>,
    retryable: bool,
) -> bool {
    &&& e matches BrokerEvent::Error { version, request_id: rid, error, provider_error: pe }
    &&& version@ == BROKER_PROTOCOL_VERSION@
    &&& rid@ == request_id
    &&& error.code == code && error.message@ == message && error.retryable == retryable
    &&& error.details@ == Map::<String, serde_json::Value>::empty()
    &&& pe == provider_error
}

pub fn error_event(
    request_id: &str,
    code: ContractErrorCode,
    provider_error: ProviderErrorCode,
    message: &str,
    retryable: bool,
) -> (r: BrokerEvent)
    ensures
        error_event_is(r, request_id@, code, provider_error, message@, retryable),
{
    BrokerEvent::Error {
        version: owned(BROKER_PROTOCOL_VERSION),
        request_id: owned(request_id),
        error: ContractError::new(code, owned(message), retryable),
        provider_error,
    }
}

/// The error event for a backend error: a timeout is reported as such, any
/// other error as the provider being unavailable.
pub open spec fn llama_error_event_is(e: BrokerEvent, request_id: Seq<char>, err: LlamaError) -> bool {
    error_event_is(
        e,
        request_id,
        if err.kind == ProviderErrorCode::Timeout {
            ContractErrorCode::Timeout
        } else {
            ContractErrorCode::ProviderUnavailable
        },
        err.kind,
        err.message@,
        err.retryable,
    )
}

pub fn llama_error_event(request_id: &str, error: &LlamaError) -> (r: BrokerEvent)
    ensures
        llama_error_event_is(r, request_id@, *error),
{
    let code = if error.kind == ProviderErrorCode::Timeout {
        ContractErrorCode::Timeout
    } else {
        ContractErrorCode::ProviderUnavailable
    };
    error_event(request_id, code, error.kind, error.message.as_str(), error.retryable)
}

pub open spec fn cancelled_event_is(e: BrokerEvent, request_id: Seq<char>, target: Seq<char>) -> bool {
    e matches BrokerEvent::Cancelled { version, request_id: rid, target_request_id: t }
        && version@ == BROKER_PROTOCOL_VERSION@ && rid@ == request_id && t@ == target
}

pub fn cancelled_event(request_id: &str, target: &str) -> (r: BrokerEvent)
    ensures
        cancelled_event_is(r, request_id@, target@),
{
    BrokerEvent::Cancelled {
        version: owned(BROKER_PROTOCOL_VERSION),
        request_id: owned(request_id),
        target_request_id: owned(target),
    }
}

pub open spec fn progress_event_is(e: BrokerEvent, request_id: Seq<char>, state: Seq<char>, detail: Seq<char>) -> bool {
    e matches BrokerEvent::Progress { version, request_id: rid, state: s, detail: d }
        && version@ == BROKER_PROTOCOL_VERSION@ && rid@ == request_id && s@ == state && d@
        == detail
}

pub fn progress_event(request_id: &str, state: &str, detail: &str) -> (r: BrokerEvent)
    ensures
        progress_event_is(r, request_id@, state@, detail@),
{
    BrokerEvent::Progress {
        version: owned(BROKER_PROTOCOL_VERSION),
        request_id: owned(request_id),
        state: owned(state),
        detail: owned(detail),
    }
}

/// The envelope of a request: its version must be the broker's and its id
/// 1 to 128 bytes. The answer to a bad envelope.
pub open spec fn envelope_refusal(version: Seq<char>, request_id: Seq<char>, e: BrokerEvent) -> bool {
    if version != BROKER_PROTOCOL_VERSION@ {
        error_event_is(
            e,
            request_id,
            ContractErrorCode::UnsupportedVersion,
            ProviderErrorCode::UnsupportedCapability,
            "unsupported broker protocol version"@,
            false,
        )
    } else {
        error_event_is(
            e,
            "unknown"@,
            ContractErrorCode::InvalidRequest,
            ProviderErrorCode::MalformedResponse,
            "request_id must contain 1 to 128 bytes"@,
            false,
        )
    }
}

pub open spec fn envelope_ok(version: Seq<char>, request_id: Seq<char>) -> bool {
    version == BROKER_PROTOCOL_VERSION@ && 1 <= utf8_len(request_id) <= 128
}

pub fn check_envelope(version: &str, request_id: &str) -> (r: Option<BrokerEvent>)
    ensures
        r is None <==> envelope_ok(version@, request_id@),
        r matches Some(e) ==> envelope_refusal(version@, request_id@, e),
{
    if !str_eq(version, BROKER_PROTOCOL_VERSION) {
        return Some(
            error_event(
                request_id,
                ContractErrorCode::UnsupportedVersion,
                ProviderErrorCode::UnsupportedCapability,
                "unsupported broker protocol version",
                false,
            ),
        );
    }
    let c = chars_of(request_id);
    let n = utf8_len_sat(c.as_slice());
    if n == 0 || n > 128 {
        return Some(
            error_event(
                "unknown",
                ContractErrorCode::InvalidRequest,
                ProviderErrorCode::MalformedResponse,
                "request_id must contain 1 to 128 bytes",
                false,
            ),
        );
    }
    None
}

/// The answer to a frame that could not be read, or did not decode: an
/// invalid request from an unknown sender.
pub fn frame_error_event(message: &str) -> (r: BrokerEvent)
    ensures
        error_event_is(
            r,
            "unknown"@,
            ContractErrorCode::InvalidRequest,
            ProviderErrorCode::MalformedResponse,
            message@,
            false,
        ),
{
    error_event(
        "unknown",
        ContractErrorCode::InvalidRequest,
        ProviderErrorCode::MalformedResponse,
        message,
        false,
    )
}

// ---------------------------------------------------------------------------
// The connection.
// ---------------------------------------------------------------------------

/// What the connection does about one request.
pub enum ConnectionAction {
    /// Write this event and go on.
    Reply(BrokerEvent),
    /// Ask the backend for its health and answer the request with it.
    CheckHealth { request_id: String },
    /// Cancel the running request with this id, if there is one, and write
    /// the event.
    Cancel { target_request_id: String, event: BrokerEvent },
    /// Write the queued event and run the chat with its place in the queue.
    StartChat {
        queued: BrokerEvent,
        reservation: Reservation,
        request_id: String,
        messages: Vec<BrokerMessage>,
        tools: Vec<BrokerTool>,
        max_tokens: u32,
    },
}

/// The requests that run on one connection, by id.
pub struct Connection {
    uid: u32,
    active: Vec<String>,
}

pub open spec fn ids_view(v: Seq<String>) -> Seq<Seq<char>> {
    v.map_values(|s: String| s@)
}

impl Connection {
    pub closed spec fn peer(&self) -> u32 {
        self.uid
    }

    /// The peer's user id.
    pub fn uid(&self) -> (r: u32)
        ensures
            r == self.peer(),
    {
        self.uid
    }

    pub closed spec fn active_ids(&self) -> Set<Seq<char>> {
        Set::new(|x: Seq<char>| ids_view(self.active@).contains(x))
    }

    pub fn new(uid: u32) -> (r: Self)
        ensures
            r.peer() == uid,
            r.active_ids() == Set::<Seq<char>>::empty(),
    {
        let r = Connection { uid, active: Vec::new() };
        assert(ids_view(r.active@) =~= Seq::<Seq<char>>::empty());
        assert(r.active_ids() =~= Set::<Seq<char>>::empty());
        r
    }

    pub fn is_active(&self, request_id: &str) -> (r: bool)
        ensures
            r == self.active_ids().contains(request_id@),
    {
        let mut i: usize = 0;
        while i < self.active.len()
            invariant
                i <= self.active.len(),
                forall|j: int| 0 <= j < i ==> self.active@[j]@ != request_id@,
            decreases self.active.len() - i,
        {
            if str_eq(self.active[i].as_str(), request_id) {
                assert(ids_view(self.active@)[i as int] == request_id@);
                return true;
            }
            i = i + 1;
        }
        assert(!ids_view(self.active@).contains(request_id@));
        false
    }

    /// A chat on this connection has ended.
    pub fn finish(&mut self, request_id: &str)
        ensures
            final(self).peer() == old(self).peer(),
            final(self).active_ids() == old(self).active_ids().remove(request_id@),
    {
        let mut kept: Vec<String> = Vec::new();
        let mut i: usize = 0;
        while i < self.active.len()
            invariant
                i <= self.active.len(),
                forall|x: Seq<char>|
                    ids_view(kept@).contains(x) <==> (ids_view(self.active@.take(i as int)).contains(
                        x,
                    ) && x != request_id@),
            decreases self.active.len() - i,
        {
            let ghost before = kept@;
            let ghost a = self.active@[i as int]@;
            proof {
                assert(ids_view(self.active@.take(i + 1)) =~= ids_view(self.active@.take(i as int)).push(a));
                lemma_push_contains(ids_view(self.active@.take(i as int)), a);
            }
            if !str_eq(self.active[i].as_str(), request_id) {
                kept.push(self.active[i].clone());
                proof {
                    assert(ids_view(kept@) =~= ids_view(before).push(a));
                    lemma_push_contains(ids_view(before), a);
                }
            }
            i = i + 1;
        }
        assert(self.active@.take(self.active.len() as int) =~= self.active@);
        self.active = kept;
        assert(self.active_ids() =~= old(self).active_ids().remove(request_id@));
    }

    /// Decides what to do about one request.
    pub fn on_request(
        &mut self,
        request: BrokerRequest,
        config: &BrokerConfig,
        queue: &mut InferenceQueue,
    ) -> (r: ConnectionAction)
        ensures
            final(self).peer() == old(self).peer(),
            match request {
                BrokerRequest::Health { version, request_id } => if !envelope_ok(version@, request_id@) {
                    r matches ConnectionAction::Reply(e) && envelope_refusal(version@, request_id@, e)
                        && final(self).active_ids() == old(self).active_ids()
                        && final(queue).view() == old(queue).view()
                } else {
                    r matches ConnectionAction::CheckHealth { request_id: rid } && rid@
                        == request_id@ && final(self).active_ids() == old(self).active_ids()
                        && final(queue).view() == old(queue).view()
                },
                BrokerRequest::Cancel { version, request_id, target_request_id } => if !envelope_ok(
                    version@,
                    request_id@,
                ) {
                    r matches ConnectionAction::Reply(e) && envelope_refusal(version@, request_id@, e)
                        && final(self).active_ids() == old(self).active_ids()
                        && final(queue).view() == old(queue).view()
                } else {
                    r matches ConnectionAction::Cancel { target_request_id: t, event }
                        && t@ == target_request_id@ && cancelled_event_is(
                        event,
                        request_id@,
                        target_request_id@,
                    ) && final(self).active_ids() == old(self).active_ids()
                        && final(queue).view() == old(queue).view()
                },
                BrokerRequest::Chat { version, request_id, messages, tools, max_tokens } => {
                    if !envelope_ok(version@, request_id@) {
                        r matches ConnectionAction::Reply(e) && envelope_refusal(
                            version@,
                            request_id@,
                            e,
                        ) && final(self).active_ids() == old(self).active_ids()
                            && final(queue).view() == old(queue).view()
                    } else if chat_problem(*config, messages@, tools@, max_tokens) is Some {
                        r matches ConnectionAction::Reply(e) && error_event_is(
                            e,
                            request_id@,
                            ContractErrorCode::InvalidRequest,
                            ProviderErrorCode::UnsupportedCapability,
                            chat_problem(*config, messages@, tools@, max_tokens)->0,
                            false,
                        ) && final(self).active_ids() == old(self).active_ids()
                            && final(queue).view() == old(queue).view()
                    } else if old(self).active_ids().contains(request_id@) {
                        r matches ConnectionAction::Reply(e) && error_event_is(
                            e,
                            request_id@,
                            ContractErrorCode::InvalidRequest,
                            ProviderErrorCode::MalformedResponse,
                            "request_id is already active on this connection"@,
                            false,
                        ) && final(self).active_ids() == old(self).active_ids()
                            && final(queue).view() == old(queue).view()
                    } else if reserve_refusal(old(queue).view(), old(self).peer()) is Some {
                        r matches ConnectionAction::Reply(e) && error_event_is(
                            e,
                            request_id@,
                            ContractErrorCode::ProviderUnavailable,
                            ProviderErrorCode::Quota,
                            queue_error_text(reserve_refusal(old(queue).view(), old(self).peer())->0),
                            true,
                        ) && final(self).active_ids() == old(self).active_ids()
                            && final(queue).view() == old(queue).view()
                    } else {
                        &&& final(queue).view() == after_reserve(old(queue).view(), old(self).peer())
                        &&& final(self).active_ids() == old(self).active_ids().insert(request_id@)
                        &&& r matches ConnectionAction::StartChat {
                            queued,
                            reservation,
                            request_id: rid,
                            messages: ms,
                            tools: ts,
                            max_tokens: mt,
                        }
                        &&& queued matches BrokerEvent::Queued { version: v, request_id: qid, position }
                        &&& v@ == BROKER_PROTOCOL_VERSION@ && qid@ == request_id@
                        &&& position == (final(queue).view().queued as u32)
                        &&& reservation == (Reservation { uid: old(self).peer(), phase: Phase::Queued })
                        &&& rid@ == request_id@ && ms == messages && ts == tools && mt == max_tokens
                    }
                },
            },
    {
        match request {
            BrokerRequest::Health { version, request_id } => {
                match check_envelope(version.as_str(), request_id.as_str()) {
                    Some(e) => ConnectionAction::Reply(e),
                    None => ConnectionAction::CheckHealth { request_id },
                }
            },
            BrokerRequest::Cancel { version, request_id, target_request_id } => {
                match check_envelope(version.as_str(), request_id.as_str()) {
                    Some(e) => ConnectionAction::Reply(e),
                    None => {
                        let event = cancelled_event(request_id.as_str(), target_request_id.as_str());
                        ConnectionAction::Cancel { target_request_id, event }
                    },
                }
            },
            BrokerRequest::Chat { version, request_id, messages, tools, max_tokens } => {
                match check_envelope(version.as_str(), request_id.as_str()) {
                    Some(e) => {
                        return ConnectionAction::Reply(e);
                    },
                    None => {},
                }
                match validate_chat(config, &messages, &tools, max_tokens) {
                    Err(m) => {
                        return ConnectionAction::Reply(
                            error_event(
                                request_id.as_str(),
                                ContractErrorCode::InvalidRequest,
                                ProviderErrorCode::UnsupportedCapability,
                                m,
                                false,
                            ),
                        );
                    },
                    Ok(()) => {},
                }
                if self.is_active(request_id.as_str()) {
                    return ConnectionAction::Reply(
                        error_event(
                            request_id.as_str(),
                            ContractErrorCode::InvalidRequest,
                            ProviderErrorCode::MalformedResponse,
                            "request_id is already active on this connection",
                            false,
                        ),
                    );
                }
                match queue.reserve(self.uid) {
                    Err(e) => ConnectionAction::Reply(
                        error_event(
                            request_id.as_str(),
                            ContractErrorCode::ProviderUnavailable,
                            ProviderErrorCode::Quota,
                            e.message(),
                            true,
                        ),
                    ),
                    Ok((reservation, position)) => {
                        let queued = BrokerEvent::Queued {
                            version: owned(BROKER_PROTOCOL_VERSION),
                            request_id: request_id.clone(),
                            position,
                        };
                        let ghost before = self.active@;
                        self.active.push(request_id.clone());
                        proof {
                            assert(ids_view(self.active@) =~= ids_view(before).push(request_id@));
                            lemma_push_contains(ids_view(before), request_id@);
                            assert(self.active_ids() =~= old(self).active_ids().insert(
                                request_id@,
                            ));
                        }
                        ConnectionAction::StartChat {
                            queued,
                            reservation,
                            request_id,
                            messages,
                            tools,
                            max_tokens,
                        }
                    },
                }
            },
        }
    }
}

proof fn lemma_push_contains(s: Seq<Seq<char>>, a: Seq<char>)
    ensures
        forall|x: Seq<char>| #[trigger] s.push(a).contains(x) <==> (s.contains(x) || x == a),
{
    assert forall|x: Seq<char>| #[trigger] s.push(a).contains(x) <==> (s.contains(x) || x == a) by {
        if s.contains(x) {
            let j = choose|j: int| 0 <= j < s.len() && s[j] == x;
            assert(s.push(a)[j] == x);
        }
        if x == a {
            assert(s.push(a)[s.len() as int] == a);
        }
        if s.push(a).contains(x) {
            let j = choose|j: int| 0 <= j < s.push(a).len() && s.push(a)[j] == x;
            if j < s.len() {
                assert(s[j] == x);
            }
        }
    }
}

/// Only login users other than the broker itself may connect.
pub fn validate_peer(uid: u32, minimum_uid: u32, broker_uid: u32) -> (r: Result<u32, String>)
    ensures
        r is Ok <==> !(uid < minimum_uid || uid == broker_uid),
        r matches Ok(u) ==> u == uid,
        r matches Err(m) ==> m@ == "local broker rejected non-login or broker peer UID"@,
{
    if uid < minimum_uid || uid == broker_uid {
        return Err(owned("local broker rejected non-login or broker peer UID"));
    }
    Ok(uid)
}

// ---------------------------------------------------------------------------
// Frames.
// ---------------------------------------------------------------------------

/// What one look at the incoming bytes gives.
#[derive(Debug, Clone, PartialEq, Eq)]
pub enum FrameStep {
    /// No line end yet: read more.
    NeedMore,
    /// A complete frame, without its line end.
    Frame(Vec<u8>),
    /// The frame would exceed the limit.
    TooLarge,
}

/// Cuts JSONL frames out of the byte stream: each frame is one line of at
/// most `maximum` bytes (line end included), without its `\n` or `\r\n`;
/// empty lines are skipped.
pub struct FrameReader {
    maximum: usize,
    pending: Vec<u8>,
}

pub open spec fn index_of_byte(b: Seq<u8>, x: u8) -> int
    decreases b.len(),
{
    if b.len() == 0 {
        0
    } else if b[0] == x {
        0
    } else {
        1 + index_of_byte(b.drop_first(), x)
    }
}

proof fn lemma_index_of_byte(b: Seq<u8>, x: u8)
    ensures
        0 <= index_of_byte(b, x) <= b.len(),
        index_of_byte(b, x) < b.len() ==> b[index_of_byte(b, x)] == x,
        forall|j: int| 0 <= j < index_of_byte(b, x) ==> b[j] != x,
    decreases b.len(),
{
    if b.len() > 0 && b[0] != x {
        lemma_index_of_byte(b.drop_first(), x);
        assert forall|j: int| 0 <= j < index_of_byte(b, x) implies b[j] != x by {
            if j > 0 {
                assert(b[j] == b.drop_first()[j - 1]);
            }
        }
    }
}

/// How many bytes of `available` belong to the current frame: through the
/// first line feed, or all of them.
pub open spec fn take_len(available: Seq<u8>) -> int {
    let i = index_of_byte(available, 10u8);
    if i < available.len() {
        i + 1
    } else {
        available.len() as int
    }
}

/// A finished line without its line end.
pub open spec fn strip_frame_end(line: Seq<u8>) -> Seq<u8> {
    let l = line.drop_last();
    if l.len() > 0 && l.last() == 13u8 {
        l.drop_last()
    } else {
        l
    }
}

impl FrameReader {
    pub closed spec fn pending_view(&self) -> Seq<u8> {
        self.pending@
    }

    pub closed spec fn limit(&self) -> usize {
        self.maximum
    }

    pub fn new(maximum: usize) -> (r: Self)
        ensures
            r.limit() == maximum,
            r.pending_view() == Seq::<u8>::empty(),
    {
        FrameReader { maximum, pending: Vec::new() }
    }

    /// Looks at the bytes now available (not empty): returns how many it
    /// consumed and what they gave.
    pub fn feed(&mut self, available: &[u8]) -> (r: (usize, FrameStep))
        requires
            available@.len() > 0,
        ensures
            final(self).limit() == old(self).limit(),
            ({
                let take = take_len(available@);
                let line = old(self).pending_view() + available@.take(take);
                if old(self).pending_view().len() + take > old(self).limit() {
                    &&& r.0 == take
                    &&& r.1 == FrameStep::TooLarge
                    &&& final(self).pending_view() == old(self).pending_view()
                } else if available@[take - 1] == 10u8 {
                    &&& r.0 == take
                    &&& final(self).pending_view() == Seq::<u8>::empty()
                    &&& if strip_frame_end(line).len() == 0 {
                        r.1 == FrameStep::NeedMore
                    } else {
                        r.1 matches FrameStep::Frame(f) && f@ == strip_frame_end(line)
                    }
                } else {
                    r.0 == take && r.1 == FrameStep::NeedMore && final(self).pending_view() == line
                }
            }),
    {
        let mut i: usize = 0;
        while i < available.len() && available[i] != 10u8
            invariant
                i <= available.len(),
                forall|j: int| 0 <= j < i ==> available@[j] != 10u8,
            decreases available.len() - i,
        {
            i = i + 1;
        }
        proof {
            lemma_index_of_byte(available@, 10u8);
            if index_of_byte(available@, 10u8) < i {
                assert(available@[index_of_byte(available@, 10u8)] == 10u8);
            }
            if i < available@.len() {
                assert(index_of_byte(available@, 10u8) <= i);
            }
        }
        let take = if i < available.len() {
            i + 1
        } else {
            available.len()
        };
        assert(take == take_len(available@));
        if take > self.maximum || self.pending.len() > self.maximum - take {
            return (take, FrameStep::TooLarge);
        }
        let mut k: usize = 0;
        let ghost start = self.pending@;
        while k < take
            invariant
                k <= take <= available.len(),
                self.pending@ == start + available@.take(k as int),
                self.maximum == old(self).maximum,
            decreases take - k,
        {
            self.pending.push(available[k]);
            k = k + 1;
            assert(self.pending@ =~= start + available@.take(k as int));
        }
        if available[take - 1] == 10u8 {
            let mut line = Vec::new();
            std::mem::swap(&mut line, &mut self.pending);
            line.pop();
            if line.len() > 0 && line[line.len() - 1] == 13u8 {
                line.pop();
            }
            if line.len() == 0 {
                return (take, FrameStep::NeedMore);
            }
            (take, FrameStep::Frame(line))
        } else {
            (take, FrameStep::NeedMore)
        }
    }

    /// The stream has ended: a clean end between frames, or an error for a
    /// frame cut short.
    pub fn at_end(&self) -> (r: Result<(), String>)
        ensures
            r is Ok <==> self.pending_view().len() == 0,
            r matches Err(m) ==> m@ == "unterminated JSONL broker frame"@,
    {
        if self.pending.len() == 0 {
            Ok(())
        } else {
            Err(owned("unterminated JSONL broker frame"))
        }
    }
}

/// No frame is longer than the limit: a frame is what was pending and what
/// was taken, which together the reader keeps within the limit, less its
/// line end.
pub proof fn lemma_frames_within_limit(pending: Seq<u8>, available: Seq<u8>, limit: usize)
    requires
        available.len() > 0,
        pending.len() + take_len(available) <= limit,
    ensures
        strip_frame_end(pending + available.take(take_len(available))).len() <= limit,
{
    lemma_index_of_byte(available, 10u8);
}

// ---------------------------------------------------------------------------
// A chat request's life.
// ---------------------------------------------------------------------------

/// The answer when a queued request could not get its turn.
pub fn acquire_failed_event(request_id: &str, error: QueueError) -> (r: BrokerEvent)
    ensures
        error == QueueError::Cancelled ==> cancelled_event_is(r, request_id@, request_id@),
        error != QueueError::Cancelled ==> error_event_is(
            r,
            request_id@,
            ContractErrorCode::ProviderUnavailable,
            ProviderErrorCode::Quota,
            queue_error_text(error),
            true,
        ),
{
    if error == QueueError::Cancelled {
        cancelled_event(request_id, request_id)
    } else {
        error_event(
            request_id,
            ContractErrorCode::ProviderUnavailable,
            ProviderErrorCode::Quota,
            error.message(),
            true,
        )
    }
}

/// What one health look, while waiting for the backend, decides.
pub enum ReadyStep {
    Ready,
    /// Report this progress, wait a moment, and look again.
    Retry(BrokerEvent),
    Fail(LlamaError),
}

pub open spec fn ready_step_is(
    s: ReadyStep,
    request_id: Seq<char>,
    health: Result<(ProviderHealth, String), LlamaError>,
    before_deadline: bool,
) -> bool {
    match health {
        Err(e) => if e.retryable && before_deadline {
            s matches ReadyStep::Retry(ev) && progress_event_is(
                ev,
                request_id,
                "backend_starting"@,
                "Waiting for the shared local inference service"@,
            )
        } else {
            s matches ReadyStep::Fail(x) && x == e
        },
        Ok((state, detail)) => if state == ProviderHealth::Healthy {
            s is Ready
        } else if state == ProviderHealth::Starting && before_deadline {
            s matches ReadyStep::Retry(ev) && progress_event_is(
                ev,
                request_id,
                "model_loading"@,
                "Waiting for the shared local model"@,
            )
        } else if state == ProviderHealth::Starting {
            s matches ReadyStep::Fail(x) && error_is(
                x,
                (
                    ProviderErrorCode::Timeout,
                    "shared local model did not become ready in time"@,
                    true,
                ),
            )
        } else {
            s matches ReadyStep::Fail(x) && error_is(x, (ProviderErrorCode::ProcessFailure, detail@, true))
        },
    }
}

pub fn ready_step(
    request_id: &str,
    health: Result<(ProviderHealth, String), LlamaError>,
    before_deadline: bool,
) -> (r: ReadyStep)
    ensures
        ready_step_is(r, request_id@, health, before_deadline),
{
    match health {
        Err(e) => {
            if e.retryable && before_deadline {
                ReadyStep::Retry(
                    progress_event(
                        request_id,
                        "backend_starting",
                        "Waiting for the shared local inference service",
                    ),
                )
            } else {
                ReadyStep::Fail(e)
            }
        },
        Ok((state, detail)) => {
            if state == ProviderHealth::Healthy {
                ReadyStep::Ready
            } else if state == ProviderHealth::Starting && before_deadline {
                ReadyStep::Retry(
                    progress_event(request_id, "model_loading", "Waiting for the shared local model"),
                )
            } else if state == ProviderHealth::Starting {
                ReadyStep::Fail(
                    super::llama::llama_error(
                        ProviderErrorCode::Timeout,
                        "shared local model did not become ready in time",
                        true,
                    ),
                )
            } else {
                ReadyStep::Fail(
                    LlamaError { kind: ProviderErrorCode::ProcessFailure, message: detail, retryable: true },
                )
            }
        },
    }
}

/// How a chat ended: with an output, with a backend error, or past its
/// time limit.
pub enum ChatEnd {
    Output(LlamaOutput),
    Failed(LlamaError),
    TimedOut,
}

/// The last event of a chat: its completion or its tool calls; a failure
/// is reported as a cancellation when the request was cancelled.
pub open spec fn chat_end_is(e: BrokerEvent, request_id: Seq<char>, end: ChatEnd, cancelled: bool) -> bool {
    match end {
        ChatEnd::Output(o) => if o.tool_calls@.len() == 0 {
            e matches BrokerEvent::Complete { version, request_id: rid, finish_reason }
                && version@ == BROKER_PROTOCOL_VERSION@ && rid@ == request_id && finish_reason
                == o.finish_reason
        } else {
            e matches BrokerEvent::ToolCalls { version, request_id: rid, calls }
                && version@ == BROKER_PROTOCOL_VERSION@ && rid@ == request_id && calls
                == o.tool_calls
        },
        ChatEnd::Failed(err) => if cancelled {
            cancelled_event_is(e, request_id, request_id)
        } else {
            llama_error_event_is(e, request_id, err)
        },
        ChatEnd::TimedOut => error_event_is(
            e,
            request_id,
            ContractErrorCode::Timeout,
            ProviderErrorCode::Timeout,
            "local inference request exceeded its time limit"@,
            true,
        ),
    }
}

pub fn chat_end_event(request_id: &str, end: ChatEnd, cancelled: bool) -> (r: BrokerEvent)
    ensures
        chat_end_is(r, request_id@, end, cancelled),
{
    match end {
        ChatEnd::Output(o) => {
            if o.tool_calls.len() == 0 {
                BrokerEvent::Complete {
                    version: owned(BROKER_PROTOCOL_VERSION),
                    request_id: owned(request_id),
                    finish_reason: o.finish_reason,
                }
            } else {
                BrokerEvent::ToolCalls {
                    version: owned(BROKER_PROTOCOL_VERSION),
                    request_id: owned(request_id),
                    calls: o.tool_calls,
                }
            }
        },
        ChatEnd::Failed(err) => {
            if cancelled {
                cancelled_event(request_id, request_id)
            } else {
                llama_error_event(request_id, &err)
            }
        },
        ChatEnd::TimedOut => error_event(
            request_id,
            ContractErrorCode::Timeout,
            ProviderErrorCode::Timeout,
            "local inference request exceeded its time limit",
            true,
        ),
    }
}

/// The answer to a health request: the backend's health, or unavailable
/// with the error's message (or the timeout).
pub fn health_event(
    request_id: &str,
    result: Option<Result<(ProviderHealth, String), LlamaError>>,
) -> (r: BrokerEvent)
    ensures
        r matches BrokerEvent::Health { version, request_id: rid, health, detail }
            && version@ == BROKER_PROTOCOL_VERSION@ && rid@ == request_id@ && match result {
            Some(Ok((h, d))) => health == h && detail@ == d@,
            Some(Err(e)) => health == ProviderHealth::Unavailable && detail@ == e.message@,
            None => health == ProviderHealth::Unavailable && detail@
                == "local inference health check timed out"@,
        },
{
    let (health, detail) = match result {
        Some(Ok((h, d))) => (h, d),
        Some(Err(e)) => (ProviderHealth::Unavailable, e.message),
        None => (ProviderHealth::Unavailable, owned("local inference health check timed out")),
    };
    BrokerEvent::Health {
        version: owned(BROKER_PROTOCOL_VERSION),
        request_id: owned(request_id),
        health,
        detail,
    }
}

} // verus!
