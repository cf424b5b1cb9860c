//! What a provider request consists of: its fixed endpoint, how the
//! credential is presented, and the messages in the order and with the
//! roles that the vendor contract names. The HTTP request is written from
//! this plan.
use super::adapter::{role_name, role_text};
use super::error::{provider_error_is, ProviderError, ProviderErrorKind};
use super::protocol::{InferenceRequest, Message, ProviderId, Role};
use crate::text::{concat, owned};
use vstd::prelude::*;

verus! {

/// How the credential is presented.
#[derive(Debug, Clone, Copy, PartialEq, Eq, Structural)]
pub enum AuthHeader {
    /// `Authorization: Bearer <credential>`.
    Bearer,
    /// `x-api-key: <credential>`.
    XApiKey,
    /// `x-goog-api-key: <credential>`.
    XGoogApiKey,
}

pub const USER_AGENT: &'static str = "sentia-provider-worker/0.1";

pub const ANTHROPIC_VERSION: &'static str = "2023-06-01";

#[derive(Debug, Clone, PartialEq, Eq)]
pub struct WireMessage {
    pub role: String,
    pub content: String,
}

#[derive(Debug, Clone, PartialEq, Eq)]
pub struct RequestPlan {
    pub provider: ProviderId,
    pub endpoint: String,
    pub auth: AuthHeader,
    /// Whether the `anthropic-version` header is sent.
    pub anthropic_version: bool,
    /// The system text, where the contract has a field of its own for it.
    pub system: Option<String>,
    /// The messages in wire order, with the contract's role names.
    pub messages: Vec<WireMessage>,
    pub model: String,
    pub max_output_tokens: u32,
    pub temperature_bits: Option<u32>,
}

pub open spec fn endpoint_of(provider: ProviderId, model: Seq<char>) -> Seq<char> {
    match provider {
        ProviderId::OpenAi => "https://api.openai.com/v1/responses"@,
        ProviderId::Anthropic => "https://api.anthropic.com/v1/messages"@,
        ProviderId::Gemini => "https://generativelanguage.googleapis.com/v1beta/models/"@ + model
            + ":generateContent"@,
        ProviderId::Xai => "https://api.x.ai/v1/responses"@,
        ProviderId::DeepSeek => "https://api.deepseek.com/chat/completions"@,
    }
}

pub open spec fn auth_of(provider: ProviderId) -> AuthHeader {
    match provider {
        ProviderId::Anthropic => AuthHeader::XApiKey,
        ProviderId::Gemini => AuthHeader::XGoogApiKey,
        _ => AuthHeader::Bearer,
    }
}

/// The contract carries the system text as a leading message.
pub open spec fn system_inline(provider: ProviderId) -> bool {
    provider == ProviderId::OpenAi || provider == ProviderId::Xai || provider == ProviderId::DeepSeek
}

pub open spec fn wire_role(provider: ProviderId, role: Role) -> Seq<char> {
    if provider == ProviderId::Gemini && role == Role::Assistant {
        "model"@
    } else {
        role_text(role)
    }
}

pub open spec fn wire_list(provider: ProviderId, ms: Seq<Message>) -> Seq<(Seq<char>, Seq<char>)> {
    Seq::new(ms.len(), |i: int| (wire_role(provider, ms[i].role), ms[i].content@))
}

pub open spec fn planned_messages(provider: ProviderId, r: InferenceRequest) -> Seq<
    (Seq<char>, Seq<char>),
> {
    if system_inline(provider) && r.system is Some {
        seq![("system"@, r.system->0@)] + wire_list(provider, r.messages@)
    } else {
        wire_list(provider, r.messages@)
    }
}

pub open spec fn wire_view(ms: Seq<WireMessage>) -> Seq<(Seq<char>, Seq<char>)> {
    Seq::new(ms.len(), |i: int| (ms[i].role@, ms[i].content@))
}

/// A temperature above 1.0, by its bit pattern: a positive float greater
/// than one, infinity included (NaN compares false).
pub open spec fn above_one(bits: u32) -> bool {
    0x3F80_0000 < bits <= 0x7F80_0000
}

/// The plan of the request for `r` to its own provider, or the refusal of a
/// temperature that Anthropic does not accept.
pub open spec fn plan_matches(r: InferenceRequest, p: RequestPlan) -> bool {
    let provider = r.provider;
    &&& p.provider == provider
    &&& p.endpoint@ == endpoint_of(provider, r.model@)
    &&& p.auth == auth_of(provider)
    &&& p.anthropic_version == (provider == ProviderId::Anthropic)
    &&& p.system == (if system_inline(provider) {
        None
    } else {
        r.system
    })
    &&& wire_view(p.messages@) == planned_messages(provider, r)
    &&& p.model == r.model
    &&& p.max_output_tokens == r.max_output_tokens
    &&& p.temperature_bits == r.temperature_bits
}

fn wire_message(provider: ProviderId, m: &Message) -> (r: WireMessage)
    ensures
        r.role@ == wire_role(provider, m.role),
        r.content@ == m.content@,
{
    let role = if provider == ProviderId::Gemini && m.role == Role::Assistant {
        owned("model")
    } else {
        owned(role_name(m.role))
    };
    WireMessage { role, content: m.content.clone() }
}

pub fn plan_request(r: &InferenceRequest) -> (out: Result<RequestPlan, ProviderError>)
    ensures
        r.provider == ProviderId::Anthropic && (r.temperature_bits matches Some(b) && above_one(b))
            ==> (out matches Err(e) && provider_error_is(
            e,
            ProviderErrorKind::InvalidRequest,
            "invalid_temperature"@,
            "Anthropic Messages accepts temperature values between 0 and 1."@,
            false,
        )),
        !(r.provider == ProviderId::Anthropic && (r.temperature_bits matches Some(b) && above_one(
            b,
        ))) ==> (out matches Ok(p) && plan_matches(*r, p)),
{
    let provider = r.provider;
    if provider == ProviderId::Anthropic {
        if let Some(b) = r.temperature_bits {
            if 0x3F80_0000 < b && b <= 0x7F80_0000 {
                return Err(
                    ProviderError::invalid(
                        "invalid_temperature",
                        "Anthropic Messages accepts temperature values between 0 and 1.",
                    ),
                );
            }
        }
    }
    let endpoint = match provider {
        ProviderId::OpenAi => owned("https://api.openai.com/v1/responses"),
        ProviderId::Anthropic => owned("https://api.anthropic.com/v1/messages"),
        ProviderId::Gemini => {
            let a = concat(
                "https://generativelanguage.googleapis.com/v1beta/models/",
                r.model.as_str(),
            );
            concat(a.as_str(), ":generateContent")
        },
        ProviderId::Xai => owned("https://api.x.ai/v1/responses"),
        ProviderId::DeepSeek => owned("https://api.deepseek.com/chat/completions"),
    };
    let auth = match provider {
        ProviderId::Anthropic => AuthHeader::XApiKey,
        ProviderId::Gemini => AuthHeader::XGoogApiKey,
        _ => AuthHeader::Bearer,
    };
    let inline = provider == ProviderId::OpenAi || provider == ProviderId::Xai || provider
        == ProviderId::DeepSeek;
    let mut messages: Vec<WireMessage> = Vec::new();
    let mut system: Option<String> = None;
    match &r.system {
        Some(s) => {
            if inline {
                messages.push(WireMessage { role: owned("system"), content: s.clone() });
            } else {
                system = Some(s.clone());
            }
        },
        None => {},
    }
    let ghost head = wire_view(messages@);
    let ghost ms = r.messages@;
    let mut i: usize = 0;
    assert(wire_list(provider, ms.take(0)) =~= Seq::<(Seq<char>, Seq<char>)>::empty());
    assert(wire_view(messages@) =~= head + wire_list(provider, ms.take(0)));
    while i < r.messages.len()
        invariant
            i <= ms.len(),
            ms == r.messages@,
            wire_view(messages@) == head + wire_list(provider, ms.take(i as int)),
        decreases ms.len() - i,
    {
        let w = wire_message(provider, &r.messages[i]);
        let ghost before = messages@;
        messages.push(w);
        proof {
            assert(messages@ =~= before.push(w));
            assert(wire_view(messages@) =~= wire_view(before).push((w.role@, w.content@)));
            assert(wire_list(provider, ms.take(i + 1)) =~= wire_list(provider, ms.take(i as int)).push(
                (wire_role(provider, ms[i as int].role), ms[i as int].content@),
            ));
        }
        i = i + 1;
    }
    proof {
        assert(ms.take(ms.len() as int) =~= ms);
        let want = planned_messages(provider, *r);
        if inline && r.system is Some {
            assert(head =~= seq![("system"@, r.system->0@)]);
        } else {
            assert(head =~= Seq::<(Seq<char>, Seq<char>)>::empty());
        }
        assert(want =~= head + wire_list(provider, ms));
    }
    Ok(
        RequestPlan {
            provider,
            endpoint,
            auth,
            anthropic_version: provider == ProviderId::Anthropic,
            system,
            messages,
            model: r.model.clone(),
            max_output_tokens: r.max_output_tokens,
            temperature_bits: r.temperature_bits,
        },
    )
}

} // verus!
