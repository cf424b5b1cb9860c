//! Reading provider answers: each vendor contract is checked field by field,
//! only text comes back, and errors never carry vendor text.
use super::error::{malformed_message, provider_error_is, ProviderError, ProviderErrorKind};
use super::protocol::{FinishReason, ProviderId, Role, TokenUsage};
use crate::json::{
    json_array_len, json_array_len_at, json_bool, json_bool_at, json_doc_parses, json_parses,
    json_present, json_present_at, json_text, json_text_at, json_u64, json_u64_at, opt_text,
};
use crate::text::{
    chars_contains, chars_eq, chars_of, concat, contains, decimal, is_digit, is_lower, is_upper,
    lower, lower_chars, lower_seq, push_chars, string_of, u64_to_text,
};
use vstd::prelude::*;

verus! {

/// A refusal: its kind, code and message (never retryable).
pub type Failure = (ProviderErrorKind, Seq<char>, Seq<char>);

/// What a parser gives back: the text, the finish reason, whether the answer
/// was cut short, and the token counts.
pub type ParsedSpec = (Seq<char>, FinishReason, bool, Option<TokenUsage>);

pub open spec fn malformed(code: Seq<char>) -> Failure {
    (ProviderErrorKind::MalformedResponse, code, malformed_message())
}

pub open spec fn error_is(e: ProviderError, f: Failure) -> bool {
    provider_error_is(e, f.0, f.1, f.2, false)
}

#[derive(Debug)]
pub struct ParsedResponse {
    pub text: String,
    pub finish_reason: FinishReason,
    pub incomplete: bool,
    pub usage: Option<TokenUsage>,
}

/// `r` is the outcome `o`.
pub open spec fn parsed_as(r: Result<ParsedResponse, ProviderError>, o: Result<ParsedSpec, Failure>) -> bool {
    match o {
        Ok(p) => r matches Ok(v) && v.text@ == p.0 && v.finish_reason == p.1 && v.incomplete == p.2
            && v.usage == p.3,
        Err(f) => r matches Err(e) && error_is(e, f),
    }
}

pub open spec fn usage_of(input: Option<u64>, output: Option<u64>, total: Option<u64>) -> Option<
    TokenUsage,
> {
    if input is None && output is None && total is None {
        None
    } else {
        Some(TokenUsage { input_tokens: input, output_tokens: output, total_tokens: total })
    }
}

/// Token counts, or none when the provider reported none of them.
pub fn token_usage(input: Option<u64>, output: Option<u64>, total: Option<u64>) -> (r: Option<
    TokenUsage,
>)
    ensures
        r == usage_of(input, output, total),
{
    if input.is_none() && output.is_none() && total.is_none() {
        None
    } else {
        Some(TokenUsage { input_tokens: input, output_tokens: output, total_tokens: total })
    }
}

pub open spec fn role_text(role: Role) -> Seq<char> {
    match role {
        Role::User => "user"@,
        Role::Assistant => "assistant"@,
    }
}

pub fn role_name(role: Role) -> (r: &'static str)
    ensures
        r@ == role_text(role),
{
    match role {
        Role::User => "user",
        Role::Assistant => "assistant",
    }
}

/// The finish reason that a vendor's stop reason names, compared without
/// regard to ASCII case; a cut-short answer is always `Incomplete`.
pub open spec fn finish_of(value: Option<Seq<char>>, incomplete: bool) -> FinishReason {
    if incomplete {
        FinishReason::Incomplete
    } else {
        let s = lower_seq(
            match value {
                Some(v) => v,
                None => Seq::empty(),
            },
        );
        if s == "stop"@ || s == "end_turn"@ || s == "stop_sequence"@ || s == "complete"@ || s
            == "completed"@ {
            FinishReason::Stop
        } else if s == "length"@ || s == "max_tokens"@ || s == "max_output_tokens"@ {
            FinishReason::Length
        } else if s == "refusal"@ || s == "safety"@ || s == "content_filter"@ || s == "blocked"@ {
            FinishReason::Refusal
        } else {
            FinishReason::Other
        }
    }
}

/// The stop reasons that say the answer ran into its token limit.
pub open spec fn names_token_limit(v: Seq<char>) -> bool {
    let s = lower_seq(v);
    s == seq!['l', 'e', 'n', 'g', 't', 'h'] || s == seq!['m', 'a', 'x', '_', 't', 'o', 'k', 'e', 'n', 's']
        || s == seq!['m', 'a', 'x', '_', 'o', 'u', 't', 'p', 'u', 't', '_', 't', 'o', 'k', 'e', 'n', 's']
}

/// An answer that ran into its token limit is reported as cut at that
/// limit, whatever the letter case of the vendor's stop reason (`length`
/// from OpenAI-compatible vendors, `max_tokens` from Anthropic,
/// `MAX_OUTPUT_TOKENS` from Gemini), unless the answer is marked incomplete.
/// And the letter case of a stop reason never changes what it means.
pub proof fn lemma_token_limit_means_length(v: Seq<char>, incomplete: bool)
    ensures
        names_token_limit(v) ==> finish_of(Some(v), false) == FinishReason::Length,
        incomplete ==> finish_of(Some(v), incomplete) == FinishReason::Incomplete,
        finish_of(Some(v), incomplete) == finish_of(Some(lower_seq(v)), incomplete),
{
    reveal_strlit("stop");
    reveal_strlit("end_turn");
    reveal_strlit("stop_sequence");
    reveal_strlit("complete");
    reveal_strlit("completed");
    reveal_strlit("length");
    reveal_strlit("max_tokens");
    reveal_strlit("max_output_tokens");
    reveal_strlit("refusal");
    reveal_strlit("safety");
    reveal_strlit("content_filter");
    reveal_strlit("blocked");
    assert(lower_seq(lower_seq(v)) =~= lower_seq(v)) by {
        assert forall|i: int| 0 <= i < v.len() implies lower(lower(#[trigger] v[i])) == lower(v[i]) by {
            let c = v[i];
            if is_upper(c) {
                assert(!is_upper(lower(c)));
            }
        }
    }
    if names_token_limit(v) {
        let s = lower_seq(v);
        assert(s != "stop"@ && s != "end_turn"@ && s != "stop_sequence"@ && s != "complete"@ && s
            != "completed"@) by {
            if s.len() == 6 {
                assert(s[0] == 'l');
            } else if s.len() == 10 {
                assert(s[0] == 'm');
            }
        }
        assert(s == "length"@ || s == "max_tokens"@ || s == "max_output_tokens"@);
    }
}

fn is_word(s: &[char], w: &str) -> (r: bool)
    ensures
        r == (s@ == w@),
{
    let c = chars_of(w);
    chars_eq(s, c.as_slice())
}

pub fn finish_reason(value: Option<&str>, incomplete: bool) -> (r: FinishReason)
    ensures
        r == finish_of(
            match value {
                Some(v) => Some(v@),
                None => None,
            },
            incomplete,
        ),
{
    if incomplete {
        return FinishReason::Incomplete;
    }
    let raw: Vec<char> = match value {
        Some(v) => chars_of(v),
        None => Vec::new(),
    };
    let s = lower_chars(raw.as_slice());
    let s = s.as_slice();
    if is_word(s, "stop") || is_word(s, "end_turn") || is_word(s, "stop_sequence") || is_word(
        s,
        "complete",
    ) || is_word(s, "completed") {
        FinishReason::Stop
    } else if is_word(s, "length") || is_word(s, "max_tokens") || is_word(s, "max_output_tokens") {
        FinishReason::Length
    } else if is_word(s, "refusal") || is_word(s, "safety") || is_word(s, "content_filter")
        || is_word(s, "blocked") {
        FinishReason::Refusal
    } else {
        FinishReason::Other
    }
}

/// `prefix` followed by the decimal digits of `i`.
pub fn indexed(prefix: &str, i: usize) -> (r: String)
    ensures
        r@ == prefix@ + decimal(i as nat),
{
    let n: u64 = i as u64;
    let d = u64_to_text(n);
    concat(prefix, d.as_str())
}

fn text_is(o: &Option<String>, w: &str) -> (r: bool)
    ensures
        r == (opt_text(*o) == Some(w@)),
{
    match o {
        Some(s) => {
            let c = chars_of(s.as_str());
            is_word(c.as_slice(), w)
        },
        None => false,
    }
}

fn fail(kind: ProviderErrorKind, code: &str, message: &str) -> (r: Result<ParsedResponse, ProviderError>)
    ensures
        r matches Err(e) && error_is(e, (kind, code@, message@)),
{
    Err(ProviderError::new(kind, code, message, false))
}

fn fail_malformed(code: &str) -> (r: Result<ParsedResponse, ProviderError>)
    ensures
        r matches Err(e) && error_is(e, malformed(code@)),
{
    Err(ProviderError::malformed(code))
}

// ---------------------------------------------------------------------------
// The Responses contract (OpenAI and xAI).
// ---------------------------------------------------------------------------

/// The content blocks `j..n` of output item `i`, read onto `acc`.
pub open spec fn responses_blocks(
    doc: Seq<u8>,
    i: int,
    j: int,
    n: int,
    acc: Seq<char>,
    refusal: bool,
) -> Result<(Seq<char>, bool), Failure>
    decreases n - j,
{
    if j >= n {
        Ok((acc, refusal))
    } else {
        let base = "/output/"@ + decimal(i as nat) + "/content/"@ + decimal(j as nat);
        let ty = json_text_at(doc, base + "/type"@);
        if ty == Some("output_text"@) {
            match json_text_at(doc, base + "/text"@) {
                None => Err(malformed("missing_output_text"@)),
                Some(t) => responses_blocks(doc, i, j + 1, n, acc + t, refusal),
            }
        } else if ty == Some("refusal"@) {
            let rt = if json_present_at(doc, base + "/refusal"@) {
                json_text_at(doc, base + "/refusal"@)
            } else {
                json_text_at(doc, base + "/text"@)
            };
            match rt {
                None => Err(malformed("missing_refusal_text"@)),
                Some(t) => responses_blocks(doc, i, j + 1, n, acc + t, true),
            }
        } else {
            Err(
                (
                    ProviderErrorKind::UnsupportedCapability,
                    "provider_content_not_text"@,
                    "The provider returned non-text content."@,
                ),
            )
        }
    }
}

/// The output items `i..n`, read onto `acc`.
pub open spec fn responses_items(doc: Seq<u8>, i: int, n: int, acc: Seq<char>, refusal: bool) -> Result<
    (Seq<char>, bool),
    Failure,
>
    decreases n - i,
{
    if i >= n {
        Ok((acc, refusal))
    } else {
        let base = "/output/"@ + decimal(i as nat);
        let ty = json_text_at(doc, base + "/type"@);
        if ty == Some("reasoning"@) {
            responses_items(doc, i + 1, n, acc, refusal)
        } else if ty == Some("message"@) {
            if json_text_at(doc, base + "/role"@) != Some("assistant"@) {
                Err(malformed("unexpected_message_role"@))
            } else {
                match json_array_len_at(doc, base + "/content"@) {
                    None => Err(malformed("missing_message_content"@)),
                    Some(m) => match responses_blocks(doc, i, 0, m as int, acc, refusal) {
                        Err(f) => Err(f),
                        Ok(p) => responses_items(doc, i + 1, n, p.0, p.1),
                    },
                }
            }
        } else {
            Err(
                (
                    ProviderErrorKind::UnsupportedCapability,
                    "provider_tool_or_unknown_output"@,
                    "The provider returned a tool call or unsupported output item."@,
                ),
            )
        }
    }
}

/// What a Responses answer reads as.
pub open spec fn responses_outcome(doc: Seq<u8>) -> Result<ParsedSpec, Failure> {
    if !json_parses(doc) {
        Err(malformed("invalid_json"@))
    } else if json_text_at(doc, "/object"@) != Some("response"@) {
        Err(malformed("unexpected_object"@))
    } else {
        match json_text_at(doc, "/status"@) {
            None => Err(malformed("missing_status"@)),
            Some(st) => if st != "completed"@ && st != "incomplete"@ {
                Err(malformed("unexpected_response_status"@))
            } else {
                match json_array_len_at(doc, "/output"@) {
                    None => Err(malformed("missing_output"@)),
                    Some(n) => match responses_items(doc, 0, n as int, Seq::empty(), false) {
                        Err(f) => Err(f),
                        Ok(p) => if p.0.len() == 0 {
                            Err(malformed("empty_text_output"@))
                        } else {
                            let incomplete = st == "incomplete"@;
                            let reason = match json_text_at(doc, "/incomplete_details/reason"@) {
                                Some(x) => x,
                                None => st,
                            };
                            Ok(
                                (
                                    p.0,
                                    if p.1 {
                                        FinishReason::Refusal
                                    } else {
                                        finish_of(Some(reason), incomplete)
                                    },
                                    incomplete,
                                    usage_of(
                                        json_u64_at(doc, "/usage/input_tokens"@),
                                        json_u64_at(doc, "/usage/output_tokens"@),
                                        json_u64_at(doc, "/usage/total_tokens"@),
                                    ),
                                ),
                            )
                        },
                    },
                }
            },
        }
    }
}

fn responses_read_blocks(
    body: &[u8],
    i: usize,
    m: usize,
    text: &mut Vec<char>,
    refusal: &mut bool,
) -> (r: Result<(), ProviderError>)
    ensures
        match responses_blocks(body@, i as int, 0, m as int, old(text)@, *old(refusal)) {
            Ok(p) => r is Ok && final(text)@ == p.0 && *final(refusal) == p.1,
            Err(f) => r matches Err(e) && error_is(e, f),
        },
{
    let item = indexed("/output/", i);
    let cbase = concat(item.as_str(), "/content/");
    let ghost doc = body@;
    let ghost text0 = text@;
    let ghost refusal0 = *refusal;
    let mut j: usize = 0;
    while j < m
        invariant
            j <= m,
            doc == body@,
            text0 == old(text)@,
            refusal0 == *old(refusal),
            cbase@ == "/output/"@ + decimal(i as nat) + "/content/"@,
            responses_blocks(doc, i as int, 0, m as int, text0, refusal0) == responses_blocks(
                doc,
                i as int,
                j as int,
                m as int,
                text@,
                *refusal,
            ),
        decreases m - j,
    {
        let b = indexed(cbase.as_str(), j);
        let ty = json_text(body, concat(b.as_str(), "/type").as_str());
        if text_is(&ty, "output_text") {
            match json_text(body, concat(b.as_str(), "/text").as_str()) {
                None => {
                    return Err(ProviderError::malformed("missing_output_text"));
                },
                Some(t) => {
                    let tc = chars_of(t.as_str());
                    push_chars(text, tc.as_slice());
                },
            }
        } else if text_is(&ty, "refusal") {
            let rp = concat(b.as_str(), "/refusal");
            let rt = if json_present(body, rp.as_str()) {
                json_text(body, rp.as_str())
            } else {
                json_text(body, concat(b.as_str(), "/text").as_str())
            };
            match rt {
                None => {
                    return Err(ProviderError::malformed("missing_refusal_text"));
                },
                Some(t) => {
                    let tc = chars_of(t.as_str());
                    push_chars(text, tc.as_slice());
                    *refusal = true;
                },
            }
        } else {
            return Err(
                ProviderError::unsupported(
                    "provider_content_not_text",
                    "The provider returned non-text content.",
                ),
            );
        }
        j = j + 1;
    }
    Ok(())
}

/// Reads an answer of the Responses contract, which OpenAI and xAI share.
pub fn parse_responses(body: &[u8]) -> (r: Result<ParsedResponse, ProviderError>)
    ensures
        parsed_as(r, responses_outcome(body@)),
{
    if !json_doc_parses(body) {
        return fail_malformed("invalid_json");
    }
    let object = json_text(body, "/object");
    if !text_is(&object, "response") {
        return fail_malformed("unexpected_object");
    }
    let status = match json_text(body, "/status") {
        Some(s) => s,
        None => {
            return fail_malformed("missing_status");
        },
    };
    let sc = chars_of(status.as_str());
    let completed = is_word(sc.as_slice(), "completed");
    let incomplete = is_word(sc.as_slice(), "incomplete");
    if !completed && !incomplete {
        return fail_malformed("unexpected_response_status");
    }
    let n = match json_array_len(body, "/output") {
        Some(n) => n,
        None => {
            return fail_malformed("missing_output");
        },
    };
    let ghost doc = body@;
    let mut text: Vec<char> = Vec::new();
    let mut refusal = false;
    let mut i: usize = 0;
    while i < n
        invariant
            i <= n,
            doc == body@,
            json_parses(doc),
            json_text_at(doc, "/object"@) == Some("response"@),
            json_text_at(doc, "/status"@) == Some(status@),
            status@ == "completed"@ || status@ == "incomplete"@,
            json_array_len_at(doc, "/output"@) == Some(n),
            responses_items(doc, 0, n as int, Seq::empty(), false) == responses_items(
                doc,
                i as int,
                n as int,
                text@,
                refusal,
            ),
        decreases n - i,
    {
        let item = indexed("/output/", i);
        let ty = json_text(body, concat(item.as_str(), "/type").as_str());
        if text_is(&ty, "reasoning") {
        } else if text_is(&ty, "message") {
            let role = json_text(body, concat(item.as_str(), "/role").as_str());
            if !text_is(&role, "assistant") {
                return fail_malformed("unexpected_message_role");
            }
            let m = match json_array_len(body, concat(item.as_str(), "/content").as_str()) {
                Some(m) => m,
                None => {
                    return fail_malformed("missing_message_content");
                },
            };
            match responses_read_blocks(body, i, m, &mut text, &mut refusal) {
                Ok(()) => {},
                Err(e) => {
                    return Err(e);
                },
            }
        } else {
            return fail(
                ProviderErrorKind::UnsupportedCapability,
                "provider_tool_or_unknown_output",
                "The provider returned a tool call or unsupported output item.",
            );
        }
        i = i + 1;
    }
    if text.len() == 0 {
        return fail_malformed("empty_text_output");
    }
    let usage = token_usage(
        json_u64(body, "/usage/input_tokens"),
        json_u64(body, "/usage/output_tokens"),
        json_u64(body, "/usage/total_tokens"),
    );
    let reason = match json_text(body, "/incomplete_details/reason") {
        Some(x) => x,
        None => status,
    };
    let finish = if refusal {
        FinishReason::Refusal
    } else {
        finish_reason(Some(reason.as_str()), incomplete)
    };
    Ok(ParsedResponse { text: string_of(text.as_slice()), finish_reason: finish, incomplete, usage })
}

// ---------------------------------------------------------------------------
// The Anthropic Messages contract.
// ---------------------------------------------------------------------------

/// The content blocks `k..n`, read onto `acc`.
pub open spec fn anthropic_blocks(doc: Seq<u8>, k: int, n: int, acc: Seq<char>) -> Result<
    Seq<char>,
    Failure,
>
    decreases n - k,
{
    if k >= n {
        Ok(acc)
    } else {
        let base = "/content/"@ + decimal(k as nat);
        let ty = json_text_at(doc, base + "/type"@);
        if ty == Some("text"@) {
            match json_text_at(doc, base + "/text"@) {
                None => Err(malformed("missing_text"@)),
                Some(t) => anthropic_blocks(doc, k + 1, n, acc + t),
            }
        } else if ty == Some("thinking"@) || ty == Some("redacted_thinking"@) {
            anthropic_blocks(doc, k + 1, n, acc)
        } else {
            Err(
                (
                    ProviderErrorKind::UnsupportedCapability,
                    "provider_tool_or_unknown_output"@,
                    "The provider returned a tool call or unsupported content block."@,
                ),
            )
        }
    }
}

/// What an Anthropic Messages answer reads as.
pub open spec fn anthropic_outcome(doc: Seq<u8>) -> Result<ParsedSpec, Failure> {
    if !json_parses(doc) {
        Err(malformed("invalid_json"@))
    } else if json_text_at(doc, "/type"@) != Some("message"@) || json_text_at(doc, "/role"@) != Some(
        "assistant"@,
    ) {
        Err(malformed("unexpected_message_envelope"@))
    } else {
        match json_array_len_at(doc, "/content"@) {
            None => Err(malformed("missing_content"@)),
            Some(n) => match anthropic_blocks(doc, 0, n as int, Seq::empty()) {
                Err(f) => Err(f),
                Ok(t) => if t.len() == 0 {
                    Err(malformed("empty_text_output"@))
                } else {
                    Ok(
                        (
                            t,
                            finish_of(json_text_at(doc, "/stop_reason"@), false),
                            false,
                            usage_of(
                                json_u64_at(doc, "/usage/input_tokens"@),
                                json_u64_at(doc, "/usage/output_tokens"@),
                                None,
                            ),
                        ),
                    )
                },
            },
        }
    }
}

/// Reads an answer of the Anthropic Messages contract.
pub fn parse_anthropic(body: &[u8]) -> (r: Result<ParsedResponse, ProviderError>)
    ensures
        parsed_as(r, anthropic_outcome(body@)),
{
    if !json_doc_parses(body) {
        return fail_malformed("invalid_json");
    }
    let ty = json_text(body, "/type");
    let role = json_text(body, "/role");
    if !text_is(&ty, "message") || !text_is(&role, "assistant") {
        return fail_malformed("unexpected_message_envelope");
    }
    let n = match json_array_len(body, "/content") {
        Some(n) => n,
        None => {
            return fail_malformed("missing_content");
        },
    };
    let ghost doc = body@;
    let mut text: Vec<char> = Vec::new();
    let mut k: usize = 0;
    while k < n
        invariant
            k <= n,
            doc == body@,
            json_parses(doc),
            !(json_text_at(doc, "/type"@) != Some("message"@) || json_text_at(doc, "/role"@)
                != Some("assistant"@)),
            json_array_len_at(doc, "/content"@) == Some(n),
            anthropic_blocks(doc, 0, n as int, Seq::empty()) == anthropic_blocks(
                doc,
                k as int,
                n as int,
                text@,
            ),
        decreases n - k,
    {
        let b = indexed("/content/", k);
        let bty = json_text(body, concat(b.as_str(), "/type").as_str());
        if text_is(&bty, "text") {
            match json_text(body, concat(b.as_str(), "/text").as_str()) {
                None => {
                    return fail_malformed("missing_text");
                },
                Some(t) => {
                    let tc = chars_of(t.as_str());
                    push_chars(&mut text, tc.as_slice());
                },
            }
        } else if text_is(&bty, "thinking") || text_is(&bty, "redacted_thinking") {
        } else {
            return fail(
                ProviderErrorKind::UnsupportedCapability,
                "provider_tool_or_unknown_output",
                "The provider returned a tool call or unsupported content block.",
            );
        }
        k = k + 1;
    }
    if text.len() == 0 {
        return fail_malformed("empty_text_output");
    }
    let stop = json_text(body, "/stop_reason");
    let finish = match &stop {
        Some(s) => finish_reason(Some(s.as_str()), false),
        None => finish_reason(None, false),
    };
    let usage = token_usage(
        json_u64(body, "/usage/input_tokens"),
        json_u64(body, "/usage/output_tokens"),
        None,
    );
    Ok(
        ParsedResponse {
            text: string_of(text.as_slice()),
            finish_reason: finish,
            incomplete: false,
            usage,
        },
    )
}

// ---------------------------------------------------------------------------
// The Gemini generateContent contract.
// ---------------------------------------------------------------------------

/// The parts `k..n` of the one candidate, read onto `acc`; thoughts are
/// skipped.
pub open spec fn gemini_parts(doc: Seq<u8>, k: int, n: int, acc: Seq<char>) -> Result<
    Seq<char>,
    Failure,
>
    decreases n - k,
{
    if k >= n {
        Ok(acc)
    } else {
        let base = "/candidates/0/content/parts/"@ + decimal(k as nat);
        if json_bool_at(doc, base + "/thought"@) == Some(true) {
            gemini_parts(doc, k + 1, n, acc)
        } else {
            match json_text_at(doc, base + "/text"@) {
                Some(t) => gemini_parts(doc, k + 1, n, acc + t),
                None => Err(
                    (
                        ProviderErrorKind::UnsupportedCapability,
                        "provider_tool_or_non_text_output"@,
                        "The provider returned a tool call or non-text output."@,
                    ),
                ),
            }
        }
    }
}

/// What a Gemini answer reads as.
pub open spec fn gemini_outcome(doc: Seq<u8>) -> Result<ParsedSpec, Failure> {
    if !json_parses(doc) {
        Err(malformed("invalid_json"@))
    } else {
        match json_array_len_at(doc, "/candidates"@) {
            None => if json_present_at(doc, "/promptFeedback/blockReason"@) {
                Err(
                    (
                        ProviderErrorKind::UnsupportedCapability,
                        "provider_blocked_prompt"@,
                        "The provider declined to generate text for this request."@,
                    ),
                )
            } else {
                Err(malformed("missing_candidates"@))
            },
            Some(c) => if c != 1 {
                Err(malformed("unexpected_candidate_count"@))
            } else {
                match json_array_len_at(doc, "/candidates/0/content/parts"@) {
                    None => Err(malformed("missing_content_parts"@)),
                    Some(n) => match gemini_parts(doc, 0, n as int, Seq::empty()) {
                        Err(f) => Err(f),
                        Ok(t) => if t.len() == 0 {
                            Err(malformed("empty_text_output"@))
                        } else {
                            Ok(
                                (
                                    t,
                                    finish_of(json_text_at(doc, "/candidates/0/finishReason"@), false),
                                    false,
                                    usage_of(
                                        json_u64_at(doc, "/usageMetadata/promptTokenCount"@),
                                        json_u64_at(doc, "/usageMetadata/candidatesTokenCount"@),
                                        json_u64_at(doc, "/usageMetadata/totalTokenCount"@),
                                    ),
                                ),
                            )
                        },
                    },
                }
            },
        }
    }
}

/// Reads an answer of the Gemini generateContent contract.
pub fn parse_gemini(body: &[u8]) -> (r: Result<ParsedResponse, ProviderError>)
    ensures
        parsed_as(r, gemini_outcome(body@)),
{
    if !json_doc_parses(body) {
        return fail_malformed("invalid_json");
    }
    let c = match json_array_len(body, "/candidates") {
        Some(c) => c,
        None => {
            if json_present(body, "/promptFeedback/blockReason") {
                return fail(
                    ProviderErrorKind::UnsupportedCapability,
                    "provider_blocked_prompt",
                    "The provider declined to generate text for this request.",
                );
            }
            return fail_malformed("missing_candidates");
        },
    };
    if c != 1 {
        return fail_malformed("unexpected_candidate_count");
    }
    let n = match json_array_len(body, "/candidates/0/content/parts") {
        Some(n) => n,
        None => {
            return fail_malformed("missing_content_parts");
        },
    };
    let ghost doc = body@;
    let mut text: Vec<char> = Vec::new();
    let mut k: usize = 0;
    while k < n
        invariant
            k <= n,
            doc == body@,
            json_parses(doc),
            json_array_len_at(doc, "/candidates"@) == Some(1usize),
            json_array_len_at(doc, "/candidates/0/content/parts"@) == Some(n),
            gemini_parts(doc, 0, n as int, Seq::empty()) == gemini_parts(
                doc,
                k as int,
                n as int,
                text@,
            ),
        decreases n - k,
    {
        let b = indexed("/candidates/0/content/parts/", k);
        let thought = json_bool(body, concat(b.as_str(), "/thought").as_str());
        let skip = match thought {
            Some(v) => v,
            None => false,
        };
        if !skip {
            match json_text(body, concat(b.as_str(), "/text").as_str()) {
                Some(t) => {
                    let tc = chars_of(t.as_str());
                    push_chars(&mut text, tc.as_slice());
                },
                None => {
                    return fail(
                        ProviderErrorKind::UnsupportedCapability,
                        "provider_tool_or_non_text_output",
                        "The provider returned a tool call or non-text output.",
                    );
                },
            }
        }
        k = k + 1;
    }
    if text.len() == 0 {
        return fail_malformed("empty_text_output");
    }
    let stop = json_text(body, "/candidates/0/finishReason");
    let finish = match &stop {
        Some(s) => finish_reason(Some(s.as_str()), false),
        None => finish_reason(None, false),
    };
    let usage = token_usage(
        json_u64(body, "/usageMetadata/promptTokenCount"),
        json_u64(body, "/usageMetadata/candidatesTokenCount"),
        json_u64(body, "/usageMetadata/totalTokenCount"),
    );
    Ok(
        ParsedResponse {
            text: string_of(text.as_slice()),
            finish_reason: finish,
            incomplete: false,
            usage,
        },
    )
}

// ---------------------------------------------------------------------------
// The DeepSeek chat-completions contract.
// ---------------------------------------------------------------------------

/// What a DeepSeek answer reads as.
pub open spec fn deepseek_outcome(doc: Seq<u8>) -> Result<ParsedSpec, Failure> {
    if !json_parses(doc) {
        Err(malformed("invalid_json"@))
    } else if json_text_at(doc, "/object"@) != Some("chat.completion"@) {
        Err(malformed("unexpected_object"@))
    } else {
        match json_array_len_at(doc, "/choices"@) {
            None => Err(malformed("missing_choices"@)),
            Some(c) => if c != 1 {
                Err(malformed("unexpected_choice_count"@))
            } else if !json_present_at(doc, "/choices/0/message"@) {
                Err(malformed("missing_message"@))
            } else if json_text_at(doc, "/choices/0/message/role"@) != Some("assistant"@) {
                Err(malformed("unexpected_message_role"@))
            } else if json_array_len_at(doc, "/choices/0/message/tool_calls"@) matches Some(k)
                && k > 0 {
                Err(
                    (
                        ProviderErrorKind::UnsupportedCapability,
                        "provider_tool_output"@,
                        "The provider returned a tool call even though tools were not requested."@,
                    ),
                )
            } else {
                match json_text_at(doc, "/choices/0/message/content"@) {
                    Some(t) => if t.len() == 0 {
                        Err(malformed("empty_text_output"@))
                    } else {
                        Ok(
                            (
                                t,
                                finish_of(json_text_at(doc, "/choices/0/finish_reason"@), false),
                                false,
                                usage_of(
                                    json_u64_at(doc, "/usage/prompt_tokens"@),
                                    json_u64_at(doc, "/usage/completion_tokens"@),
                                    json_u64_at(doc, "/usage/total_tokens"@),
                                ),
                            ),
                        )
                    },
                    None => Err(malformed("empty_text_output"@)),
                }
            },
        }
    }
}

/// Reads an answer of the DeepSeek chat-completions contract.
pub fn parse_deepseek(body: &[u8]) -> (r: Result<ParsedResponse, ProviderError>)
    ensures
        parsed_as(r, deepseek_outcome(body@)),
{
    if !json_doc_parses(body) {
        return fail_malformed("invalid_json");
    }
    let object = json_text(body, "/object");
    if !text_is(&object, "chat.completion") {
        return fail_malformed("unexpected_object");
    }
    let c = match json_array_len(body, "/choices") {
        Some(c) => c,
        None => {
            return fail_malformed("missing_choices");
        },
    };
    if c != 1 {
        return fail_malformed("unexpected_choice_count");
    }
    if !json_present(body, "/choices/0/message") {
        return fail_malformed("missing_message");
    }
    let role = json_text(body, "/choices/0/message/role");
    if !text_is(&role, "assistant") {
        return fail_malformed("unexpected_message_role");
    }
    match json_array_len(body, "/choices/0/message/tool_calls") {
        Some(k) => {
            if k > 0 {
                return fail(
                    ProviderErrorKind::UnsupportedCapability,
                    "provider_tool_output",
                    "The provider returned a tool call even though tools were not requested.",
                );
            }
        },
        None => {},
    }
    let text = match json_text(body, "/choices/0/message/content") {
        Some(t) => t,
        None => {
            return fail_malformed("empty_text_output");
        },
    };
    let tc = chars_of(text.as_str());
    if tc.len() == 0 {
        return fail_malformed("empty_text_output");
    }
    let stop = json_text(body, "/choices/0/finish_reason");
    let finish = match &stop {
        Some(s) => finish_reason(Some(s.as_str()), false),
        None => finish_reason(None, false),
    };
    let usage = token_usage(
        json_u64(body, "/usage/prompt_tokens"),
        json_u64(body, "/usage/completion_tokens"),
        json_u64(body, "/usage/total_tokens"),
    );
    Ok(ParsedResponse { text, finish_reason: finish, incomplete: false, usage })
}

// ---------------------------------------------------------------------------
// Provider errors.
// ---------------------------------------------------------------------------

pub open spec fn code_char_ok(c: char) -> bool {
    is_digit(c) || is_lower(c) || is_upper(c) || c == '-' || c == '_' || c == '.'
}

/// A vendor error code that may be passed on: 1 to 64 ASCII letters,
/// digits and `-_.`.
pub open spec fn code_ok(s: Seq<char>) -> bool {
    &&& 1 <= s.len() <= 64
    &&& forall|i: int| 0 <= i < s.len() ==> code_char_ok(#[trigger] s[i])
}

/// The vendor code as it is passed on, if it may be.
pub fn sanitize_code(value: &str) -> (r: Option<String>)
    ensures
        r matches Some(c) ==> c@ == value@,
        r is Some <==> code_ok(value@),
{
    let c = chars_of(value);
    if c.len() == 0 || c.len() > 64 {
        return None;
    }
    let mut i: usize = 0;
    while i < c.len()
        invariant
            i <= c.len(),
            c@ == value@,
            forall|j: int| 0 <= j < i ==> code_char_ok(#[trigger] c@[j]),
        decreases c.len() - i,
    {
        let x = c[i];
        if !(('0' <= x && x <= '9') || ('a' <= x && x <= 'z') || ('A' <= x && x <= 'Z') || x == '-'
            || x == '_' || x == '.') {
            return None;
        }
        i = i + 1;
    }
    Some(string_of(c.as_slice()))
}

/// The first of the vendor's error code, error type, top-level type and
/// error status that is a string, if it may be passed on.
pub open spec fn vendor_code(doc: Seq<u8>) -> Option<Seq<char>> {
    let first = if json_text_at(doc, "/error/code"@) is Some {
        json_text_at(doc, "/error/code"@)
    } else if json_text_at(doc, "/error/type"@) is Some {
        json_text_at(doc, "/error/type"@)
    } else if json_text_at(doc, "/type"@) is Some {
        json_text_at(doc, "/type"@)
    } else {
        json_text_at(doc, "/error/status"@)
    };
    match first {
        Some(s) => if code_ok(s) {
            Some(s)
        } else {
            None
        },
        None => None,
    }
}

pub fn safe_vendor_code(body: &[u8]) -> (r: Option<String>)
    ensures
        opt_text(r) == vendor_code(body@),
{
    let mut first = json_text(body, "/error/code");
    if first.is_none() {
        first = json_text(body, "/error/type");
    }
    if first.is_none() {
        first = json_text(body, "/type");
    }
    if first.is_none() {
        first = json_text(body, "/error/status");
    }
    match first {
        Some(s) => sanitize_code(s.as_str()),
        None => None,
    }
}

/// The code an HTTP error is reported under: the vendor's, or `http_` and
/// the status.
pub open spec fn http_error_code(status: u16, doc: Seq<u8>) -> Seq<char> {
    match vendor_code(doc) {
        Some(c) => c,
        None => "http_"@ + decimal(status as nat),
    }
}

pub open spec fn credential_expired(status: u16, doc: Seq<u8>) -> bool {
    contains(lower_seq(http_error_code(status, doc)), "expir"@) || (json_text_at(
        doc,
        "/error/message"@,
    ) matches Some(m) && contains(lower_seq(m), "expir"@))
}

pub open spec fn model_unsupported(status: u16, doc: Seq<u8>) -> bool {
    let n = lower_seq(http_error_code(status, doc));
    contains(n, "model"@) && (contains(n, "unsupported"@) || contains(n, "not_found"@) || contains(
        n,
        "deprecated"@,
    ))
}

/// The typed error for an HTTP error status: its kind, code, message and
/// whether a retry may help. Vendor messages never pass through.
pub open spec fn http_error_of(status: u16, doc: Seq<u8>) -> (ProviderErrorKind, Seq<char>, Seq<
    char,
>, bool) {
    let code = http_error_code(status, doc);
    if status == 401 && credential_expired(status, doc) {
        (
            ProviderErrorKind::AuthenticationExpired,
            "authentication_expired"@,
            "The provider credential has expired."@,
            false,
        )
    } else if status == 401 || status == 403 {
        (
            ProviderErrorKind::Authentication,
            code,
            "The provider rejected the credential or its permissions."@,
            false,
        )
    } else if status == 402 || status == 429 {
        (
            ProviderErrorKind::Quota,
            code,
            "The provider reported a billing, quota, or rate limit."@,
            status == 429,
        )
    } else if status == 408 || status == 504 {
        (ProviderErrorKind::Timeout, code, "The provider timed out."@, true)
    } else if (status == 400 || status == 404) && model_unsupported(status, doc) {
        (
            ProviderErrorKind::UnsupportedCapability,
            code,
            "The provider does not support the configured model for this request."@,
            false,
        )
    } else if status == 400 || status == 404 || status == 409 || status == 413 || status == 422 {
        (
            ProviderErrorKind::InvalidRequest,
            code,
            "The provider rejected the configured model or request."@,
            false,
        )
    } else if 500 <= status <= 599 {
        (
            ProviderErrorKind::Network,
            code,
            "The provider service is temporarily unavailable."@,
            true,
        )
    } else {
        (
            ProviderErrorKind::Network,
            code,
            "The provider returned an unexpected HTTP status."@,
            false,
        )
    }
}

/// The fixed texts that an HTTP failure may carry as its message.
pub open spec fn fixed_http_message(m: Seq<char>) -> bool {
    ||| m == "The provider credential has expired."@
    ||| m == "The provider rejected the credential or its permissions."@
    ||| m == "The provider reported a billing, quota, or rate limit."@
    ||| m == "The provider timed out."@
    ||| m == "The provider does not support the configured model for this request."@
    ||| m == "The provider rejected the configured model or request."@
    ||| m == "The provider service is temporarily unavailable."@
    ||| m == "The provider returned an unexpected HTTP status."@
}

/// Whatever a provider answers with an HTTP failure, its own words never
/// reach the error: the message is one of the fixed texts, and the code is
/// either a vendor code of at most 64 safe characters or `http_` and the
/// status.
pub proof fn lemma_http_errors_hide_vendor_text(status: u16, doc: Seq<u8>)
    ensures
        fixed_http_message(http_error_of(status, doc).2),
        code_ok(http_error_of(status, doc).1) || http_error_of(status, doc).1 == "http_"@
            + decimal(status as nat) || http_error_of(status, doc).1 == "authentication_expired"@,
{
}

fn has_word(s: &[char], w: &str) -> (r: bool)
    ensures
        r == contains(s@, w@),
{
    let c = chars_of(w);
    chars_contains(s, c.as_slice())
}

/// Maps an HTTP error status and its body to a typed error.
pub fn classify_http_error(status: u16, body: &[u8]) -> (r: ProviderError)
    ensures
        ({
            let t = http_error_of(status, body@);
            provider_error_is(r, t.0, t.1, t.2, t.3)
        }),
{
    let code = match safe_vendor_code(body) {
        Some(c) => c,
        None => indexed("http_", status as usize),
    };
    let cc = chars_of(code.as_str());
    let normalized = lower_chars(cc.as_slice());
    let n = normalized.as_slice();
    let mut expired = has_word(n, "expir");
    if !expired {
        match json_text(body, "/error/message") {
            Some(m) => {
                let mc = chars_of(m.as_str());
                let ml = lower_chars(mc.as_slice());
                expired = has_word(ml.as_slice(), "expir");
            },
            None => {},
        }
    }
    let unsupported_model = has_word(n, "model") && (has_word(n, "unsupported") || has_word(
        n,
        "not_found",
    ) || has_word(n, "deprecated"));
    if status == 401 && expired {
        ProviderError::new(
            ProviderErrorKind::AuthenticationExpired,
            "authentication_expired",
            "The provider credential has expired.",
            false,
        )
    } else if status == 401 || status == 403 {
        ProviderError::new(
            ProviderErrorKind::Authentication,
            code.as_str(),
            "The provider rejected the credential or its permissions.",
            false,
        )
    } else if status == 402 || status == 429 {
        ProviderError::new(
            ProviderErrorKind::Quota,
            code.as_str(),
            "The provider reported a billing, quota, or rate limit.",
            status == 429,
        )
    } else if status == 408 || status == 504 {
        ProviderError::new(ProviderErrorKind::Timeout, code.as_str(), "The provider timed out.", true)
    } else if (status == 400 || status == 404) && unsupported_model {
        ProviderError::new(
            ProviderErrorKind::UnsupportedCapability,
            code.as_str(),
            "The provider does not support the configured model for this request.",
            false,
        )
    } else if status == 400 || status == 404 || status == 409 || status == 413 || status == 422 {
        ProviderError::new(
            ProviderErrorKind::InvalidRequest,
            code.as_str(),
            "The provider rejected the configured model or request.",
            false,
        )
    } else if 500 <= status && status <= 599 {
        ProviderError::new(
            ProviderErrorKind::Network,
            code.as_str(),
            "The provider service is temporarily unavailable.",
            true,
        )
    } else {
        ProviderError::new(
            ProviderErrorKind::Network,
            code.as_str(),
            "The provider returned an unexpected HTTP status.",
            false,
        )
    }
}

/// The outcome of reading a success body under a provider's contract.
pub open spec fn success_outcome(provider: ProviderId, doc: Seq<u8>) -> Result<ParsedSpec, Failure> {
    match provider {
        ProviderId::OpenAi | ProviderId::Xai => responses_outcome(doc),
        ProviderId::Anthropic => anthropic_outcome(doc),
        ProviderId::Gemini => gemini_outcome(doc),
        ProviderId::DeepSeek => deepseek_outcome(doc),
    }
}

/// Reads a success body under the contract of `provider`.
pub fn parse_success(provider: ProviderId, body: &[u8]) -> (r: Result<ParsedResponse, ProviderError>)
    ensures
        parsed_as(r, success_outcome(provider, body@)),
{
    match provider {
        ProviderId::OpenAi | ProviderId::Xai => parse_responses(body),
        ProviderId::Anthropic => parse_anthropic(body),
        ProviderId::Gemini => parse_gemini(body),
        ProviderId::DeepSeek => parse_deepseek(body),
    }
}

} // verus!
