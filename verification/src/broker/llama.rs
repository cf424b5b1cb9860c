//! Reading the local backend: its HTTP head and body framing, its
//! server-sent events, its JSON answers and errors, and its health.
use super::config::BrokerConfig;
use super::protocol::BrokerToolCall;
use crate::json::{json_array_len, json_array_len_at, json_doc_parses, json_parses, json_present,
    json_present_at, json_text, json_text_at, json_u64, json_u64_at};
use crate::kv::{distinct_keys, entries_map, lookup_text, text_pairs_view, upsert_text};
use crate::protocol::provider::{ProviderErrorCode, ProviderHealth};
use crate::text::{char_utf8_len, char_width, chars_contains, chars_of, concat, contains, lower_chars,
    lower_seq, owned, string_of, utf8_len, utf8_len_sat};
use vstd::prelude::*;

verus! {

pub const MAX_HEADER_BYTES: usize = 65_536;

pub const MAX_HEALTH_BODY_BYTES: usize = 262_144;

pub const MAX_SSE_EVENT_BYTES: usize = 1_048_576;

/// The largest tool-call argument text, in bytes.
pub const MAX_TOOL_ARGUMENT_BYTES: usize = 65_536;

/// An error of the local backend: its kind, a bounded message, and whether
/// a retry may help.
#[derive(Debug, Clone, PartialEq, Eq)]
pub struct LlamaError {
    pub kind: ProviderErrorCode,
    pub message: String,
    pub retryable: bool,
}

/// A spec-level error: kind, message, retry flag.
pub type LErr = (ProviderErrorCode, Seq<char>, bool);

pub open spec fn error_is(e: LlamaError, s: LErr) -> bool {
    e.kind == s.0 && e.message@ == s.1 && e.retryable == s.2
}

pub fn llama_error(kind: ProviderErrorCode, message: &str, retryable: bool) -> (r: LlamaError)
    ensures
        error_is(r, (kind, message@, retryable)),
{
    LlamaError { kind, message: owned(message), retryable }
}

/// How many characters from `i` on fit within `budget` bytes.
pub open spec fn fit_count(s: Seq<char>, budget: int, i: int) -> int
    decreases s.len() - i,
{
    if i < 0 || i >= s.len() || char_utf8_len(s[i]) > budget {
        if i < 0 {
            0
        } else {
            i
        }
    } else {
        fit_count(s, budget - char_utf8_len(s[i]), i + 1)
    }
}

/// A message cut to at most 512 bytes, at the last character that fits.
pub open spec fn bounded_message(m: Seq<char>) -> Seq<char> {
    m.take(fit_count(m, 512, 0))
}

proof fn lemma_fit_count_bounds(s: Seq<char>, budget: int, i: int)
    requires
        0 <= i <= s.len(),
    ensures
        i <= fit_count(s, budget, i) <= s.len(),
    decreases s.len() - i,
{
    if i < s.len() && char_utf8_len(s[i]) <= budget {
        lemma_fit_count_bounds(s, budget - char_utf8_len(s[i]), i + 1);
    }
}

/// Cuts a message to at most 512 bytes without splitting a character.
pub fn bound_message(m: &str) -> (r: String)
    ensures
        r@ == bounded_message(m@),
{
    let c = chars_of(m);
    let mut budget: usize = 512;
    let mut i: usize = 0;
    proof {
        lemma_fit_count_bounds(c@, 512, 0);
    }
    while i < c.len() && char_width(c[i]) <= budget
        invariant
            i <= c.len(),
            c@ == m@,
            budget <= 512,
            fit_count(c@, 512, 0) == fit_count(c@, budget as int, i as int),
        decreases c.len() - i,
    {
        budget = budget - char_width(c[i]);
        i = i + 1;
    }
    let mut out: Vec<char> = Vec::new();
    let mut j: usize = 0;
    while j < i
        invariant
            j <= i <= c.len(),
            out@ == c@.take(j as int),
        decreases i - j,
    {
        out.push(c[j]);
        j = j + 1;
        assert(out@ =~= c@.take(j as int));
    }
    string_of(out.as_slice())
}

/// An HTTP error of the backend: its message (the backend's own, or a
/// description of the status), and a kind and retry flag by status.
pub open spec fn http_error_of(status: u16, message: Seq<char>) -> LErr {
    let (kind, retry) = if status == 401 || status == 403 {
        (ProviderErrorCode::Authentication, false)
    } else if status == 408 || status == 504 {
        (ProviderErrorCode::Timeout, true)
    } else if status == 429 {
        (ProviderErrorCode::Quota, true)
    } else if status == 400 || status == 404 || status == 405 || status == 422 {
        (ProviderErrorCode::UnsupportedCapability, false)
    } else if 500 <= status <= 599 {
        (ProviderErrorCode::ProcessFailure, true)
    } else {
        (ProviderErrorCode::MalformedResponse, false)
    };
    (kind, bounded_message(message), retry)
}

/// The message the backend gave in its error body, or else one naming the
/// status.
pub open spec fn http_error_message(status: u16, body: Seq<u8>) -> Seq<char> {
    match json_text_at(body, "/error/message"@) {
        Some(m) => m,
        None => "local inference backend returned HTTP "@ + crate::text::decimal(status as nat),
    }
}

pub fn http_error(status: u16, body: &[u8]) -> (r: LlamaError)
    ensures
        error_is(r, http_error_of(status, http_error_message(status, body@))),
{
    let message = match json_text(body, "/error/message") {
        Some(m) => m,
        None => crate::providers::adapter::indexed(
            "local inference backend returned HTTP ",
            status as usize,
        ),
    };
    let (kind, retryable) = if status == 401 || status == 403 {
        (ProviderErrorCode::Authentication, false)
    } else if status == 408 || status == 504 {
        (ProviderErrorCode::Timeout, true)
    } else if status == 429 {
        (ProviderErrorCode::Quota, true)
    } else if status == 400 || status == 404 || status == 405 || status == 422 {
        (ProviderErrorCode::UnsupportedCapability, false)
    } else if 500 <= status && status <= 599 {
        (ProviderErrorCode::ProcessFailure, true)
    } else {
        (ProviderErrorCode::MalformedResponse, false)
    };
    LlamaError { kind, message: bound_message(message.as_str()), retryable }
}

/// An error the backend reported inside its JSON answer (`/error` of
/// `doc`): its message, or a fixed one, as a retryable process failure.
pub open spec fn json_error_of(doc: Seq<u8>) -> LErr {
    (
        ProviderErrorCode::ProcessFailure,
        bounded_message(
            match json_text_at(doc, "/error/message"@) {
                Some(m) => m,
                None => "local inference backend reported an error"@,
            },
        ),
        true,
    )
}

pub fn provider_json_error(doc: &[u8]) -> (r: LlamaError)
    ensures
        error_is(r, json_error_of(doc@)),
{
    let message = match json_text(doc, "/error/message") {
        Some(m) => m,
        None => owned("local inference backend reported an error"),
    };
    LlamaError {
        kind: ProviderErrorCode::ProcessFailure,
        message: bound_message(message.as_str()),
        retryable: true,
    }
}

pub open spec fn no_answer_error() -> LErr {
    (
        ProviderErrorCode::MalformedResponse,
        "local inference produced no answer; if the model is a reasoning model, set SENTIA_REASONING=off or raise the token budget"@,
        false,
    )
}

/// A response with neither text nor a tool call is a failure, not an empty
/// answer.
pub fn ensure_answered(content_seen: bool, tool_calls: &Vec<BrokerToolCall>) -> (r: Result<
    (),
    LlamaError,
>)
    ensures
        r is Ok <==> (content_seen || tool_calls@.len() > 0),
        r matches Err(e) ==> error_is(e, no_answer_error()),
{
    if content_seen || tool_calls.len() > 0 {
        return Ok(());
    }
    Err(
        llama_error(
            ProviderErrorCode::MalformedResponse,
            "local inference produced no answer; if the model is a reasoning model, set SENTIA_REASONING=off or raise the token budget",
            false,
        ),
    )
}

pub open spec fn cancelled_error() -> LErr {
    (ProviderErrorCode::Internal, "local inference request cancelled"@, false)
}

pub fn cancelled() -> (r: LlamaError)
    ensures
        error_is(r, cancelled_error()),
{
    llama_error(ProviderErrorCode::Internal, "local inference request cancelled", false)
}

/// The backend's model name must not be able to break the request head.
pub fn check_backend_model(model: &str) -> (r: Result<(), LlamaError>)
    ensures
        r is Ok <==> !(model@.contains('\r') || model@.contains('\n')),
        r matches Err(e) ==> error_is(
            e,
            (ProviderErrorCode::MalformedResponse, "invalid configured backend model name"@, false),
        ),
{
    let c = chars_of(model);
    let mut i: usize = 0;
    while i < c.len()
        invariant
            i <= c.len(),
            c@ == model@,
            forall|j: int| 0 <= j < i ==> c@[j] != '\r' && c@[j] != '\n',
        decreases c.len() - i,
    {
        if c[i] == '\r' || c[i] == '\n' {
            assert(model@.contains(c@[i as int]));
            return Err(
                llama_error(
                    ProviderErrorCode::MalformedResponse,
                    "invalid configured backend model name",
                    false,
                ),
            );
        }
        i = i + 1;
    }
    Ok(())
}

// ---------------------------------------------------------------------------
// Health.
// ---------------------------------------------------------------------------

/// The health the backend reports: answering 200 is healthy unless it says
/// it is loading; answering 503 while loading is starting; anything else
/// is unavailable.
pub open spec fn health_of(status: u16, status_text: Seq<char>) -> (ProviderHealth, Seq<char>) {
    let loading = contains(lower_seq(status_text), "load"@);
    if status == 200 {
        if loading {
            (ProviderHealth::Starting, "local inference backend is loading the model"@)
        } else {
            (ProviderHealth::Healthy, "local inference backend passed its health check"@)
        }
    } else if status == 503 && loading {
        (ProviderHealth::Starting, "local inference backend is loading the model"@)
    } else {
        (
            ProviderHealth::Unavailable,
            "local inference backend health returned HTTP "@ + crate::text::decimal(status as nat),
        )
    }
}

pub fn health_from_reply(status: u16, status_text: &str) -> (r: (ProviderHealth, String))
    ensures
        r.0 == health_of(status, status_text@).0,
        r.1@ == health_of(status, status_text@).1,
{
    let c = chars_of(status_text);
    let l = lower_chars(c.as_slice());
    let w = chars_of("load");
    let loading = chars_contains(l.as_slice(), w.as_slice());
    if status == 200 {
        if loading {
            (ProviderHealth::Starting, owned("local inference backend is loading the model"))
        } else {
            (ProviderHealth::Healthy, owned("local inference backend passed its health check"))
        }
    } else if status == 503 && loading {
        (ProviderHealth::Starting, owned("local inference backend is loading the model"))
    } else {
        (
            ProviderHealth::Unavailable,
            crate::providers::adapter::indexed(
                "local inference backend health returned HTTP ",
                status as usize,
            ),
        )
    }
}

/// The backend socket may be used only when it is a socket owned by a
/// non-root user with mode 0600, in a directory of the same owner with mode
/// 0700.
pub open spec fn socket_safe(is_socket: bool, uid: u32, mode: u32, parent_uid: u32, parent_mode: u32) -> bool {
    is_socket && uid != 0 && mode % 512 == 0o600 && parent_uid == uid && parent_mode % 512 == 0o700
}

pub fn check_backend_socket(
    is_socket: bool,
    uid: u32,
    mode: u32,
    parent_uid: u32,
    parent_mode: u32,
) -> (r: Result<(), LlamaError>)
    ensures
        r is Ok <==> socket_safe(is_socket, uid, mode, parent_uid, parent_mode),
        r matches Err(e) ==> error_is(
            e,
            (
                ProviderErrorCode::ProcessFailure,
                "local inference socket ownership or permissions are unsafe"@,
                false,
            ),
        ),
{
    if !is_socket || uid == 0 || mode % 512 != 0o600 || parent_uid != uid || parent_mode % 512
        != 0o700 {
        return Err(
            llama_error(
                ProviderErrorCode::ProcessFailure,
                "local inference socket ownership or permissions are unsafe",
                false,
            ),
        );
    }
    Ok(())
}

/// The peer of the backend connection must run as the socket's owner.
pub fn check_backend_peer(peer_uid: u32, socket_uid: u32) -> (r: Result<(), LlamaError>)
    ensures
        r is Ok <==> peer_uid == socket_uid,
        r matches Err(e) ==> error_is(
            e,
            (
                ProviderErrorCode::ProcessFailure,
                "local inference peer credentials did not match socket ownership"@,
                false,
            ),
        ),
{
    if peer_uid != socket_uid {
        return Err(
            llama_error(
                ProviderErrorCode::ProcessFailure,
                "local inference peer credentials did not match socket ownership",
                false,
            ),
        );
    }
    Ok(())
}

// ---------------------------------------------------------------------------
// Server-sent event framing.
// ---------------------------------------------------------------------------

pub open spec fn occurs_bytes(b: Seq<u8>, p: Seq<u8>, i: int) -> bool {
    0 <= i && i + p.len() <= b.len() && b.subrange(i, i + p.len()) == p
}

/// The first position, from `i` on, where `p` occurs in `b`.
pub open spec fn first_from(b: Seq<u8>, p: Seq<u8>, i: int) -> Option<int>
    decreases b.len() + 1 - i,
{
    if i < 0 || i + p.len() > b.len() {
        None
    } else if occurs_bytes(b, p, i) {
        Some(i)
    } else {
        first_from(b, p, i + 1)
    }
}

pub open spec fn lf2() -> Seq<u8> {
    seq![10u8, 10u8]
}

pub open spec fn crlf2() -> Seq<u8> {
    seq![13u8, 10u8, 13u8, 10u8]
}

/// Where the first event of `b` ends and how long its separator is: the
/// earlier of a blank line (`\n\n`) and a CRLF blank line (`\r\n\r\n`).
pub open spec fn event_end(b: Seq<u8>) -> Option<(int, int)> {
    match (first_from(b, lf2(), 0), first_from(b, crlf2(), 0)) {
        (Some(l), Some(c)) => if l <= c {
            Some((l, 2))
        } else {
            Some((c, 4))
        },
        (Some(l), None) => Some((l, 2)),
        (None, Some(c)) => Some((c, 4)),
        (None, None) => None,
    }
}

proof fn lemma_first_from_skip(b: Seq<u8>, p: Seq<u8>, i: int, j: int)
    requires
        0 <= i <= j,
        p.len() > 0,
        forall|k: int| i <= k < j ==> !occurs_bytes(b, p, k),
    ensures
        first_from(b, p, i) == first_from(b, p, j),
    decreases j - i,
{
    if i < j {
        if i + p.len() > b.len() {
            lemma_first_from_none(b, p, j);
        } else {
            lemma_first_from_skip(b, p, i + 1, j);
        }
    }
}

proof fn lemma_first_from_none(b: Seq<u8>, p: Seq<u8>, j: int)
    requires
        j + p.len() > b.len(),
    ensures
        first_from(b, p, j) is None,
{
}

fn copy_range(b: &[u8], start: usize, end: usize) -> (r: Vec<u8>)
    requires
        start <= end <= b.len(),
    ensures
        r@ == b@.subrange(start as int, end as int),
{
    let mut r: Vec<u8> = Vec::new();
    let mut i = start;
    while i < end
        invariant
            start <= i <= end <= b.len(),
            r@ == b@.subrange(start as int, i as int),
        decreases end - i,
    {
        r.push(b[i]);
        i = i + 1;
        assert(r@ =~= b@.subrange(start as int, i as int));
    }
    r
}

fn lf2_at(b: &[u8], i: usize) -> (r: bool)
    ensures
        r == occurs_bytes(b@, lf2(), i as int),
{
    if i < b.len() && b.len() - i >= 2 {
        let r = b[i] == 10u8 && b[i + 1] == 10u8;
        assert(r == (b@.subrange(i as int, i + 2) =~= lf2()));
        r
    } else {
        false
    }
}

fn crlf2_at(b: &[u8], i: usize) -> (r: bool)
    ensures
        r == occurs_bytes(b@, crlf2(), i as int),
{
    if i < b.len() && b.len() - i >= 4 {
        let r = b[i] == 13u8 && b[i + 1] == 10u8 && b[i + 2] == 13u8 && b[i + 3] == 10u8;
        assert(r == (b@.subrange(i as int, i + 4) =~= crlf2()));
        r
    } else {
        false
    }
}

/// Takes the first complete event off the front of `buffer`, without its
/// separator; a buffer with no complete event is left as it is.
pub fn take_sse_event(buffer: &mut Vec<u8>) -> (r: Option<Vec<u8>>)
    ensures
        match event_end(old(buffer)@) {
            None => r is None && final(buffer)@ == old(buffer)@,
            Some((p, s)) => r matches Some(e) && e@ == old(buffer)@.take(p) && final(buffer)@
                == old(buffer)@.skip(p + s),
        },
{
    let ghost b = buffer@;
    let mut i: usize = 0;
    while i < buffer.len() && !lf2_at(buffer.as_slice(), i) && !crlf2_at(buffer.as_slice(), i)
        invariant
            i <= buffer.len(),
            buffer@ == b,
            forall|k: int| 0 <= k < i ==> !occurs_bytes(b, lf2(), k) && !occurs_bytes(b, crlf2(), k),
        decreases buffer.len() - i,
    {
        i = i + 1;
    }
    proof {
        lemma_first_from_skip(b, lf2(), 0, i as int);
        lemma_first_from_skip(b, crlf2(), 0, i as int);
    }
    if i >= buffer.len() {
        proof {
            lemma_first_from_none(b, lf2(), i as int);
            lemma_first_from_none(b, crlf2(), i as int);
        }
        return None;
    }
    let sep: usize = if lf2_at(buffer.as_slice(), i) {
        proof {
            assert(first_from(b, lf2(), i as int) == Some(i as int));
            lemma_first_from_ge(b, crlf2(), i as int);
        }
        2
    } else {
        proof {
            assert(occurs_bytes(b, crlf2(), i as int));
            assert(first_from(b, crlf2(), i as int) == Some(i as int));
            assert(first_from(b, lf2(), i as int) == first_from(b, lf2(), i + 1));
            lemma_first_from_ge(b, lf2(), i + 1);
        }
        4
    };
    let event = copy_range(buffer.as_slice(), 0, i);
    let rest = copy_range(buffer.as_slice(), i + sep, buffer.len());
    *buffer = rest;
    assert(event@ =~= b.take(i as int));
    assert(buffer@ =~= b.skip(i + sep));
    Some(event)
}

proof fn lemma_first_from_ge(b: Seq<u8>, p: Seq<u8>, i: int)
    requires
        0 <= i,
    ensures
        first_from(b, p, i) matches Some(k) ==> k >= i,
    decreases b.len() + 1 - i,
{
    if i + p.len() <= b.len() && !occurs_bytes(b, p, i) {
        lemma_first_from_ge(b, p, i + 1);
    }
}

// ---------------------------------------------------------------------------
// The HTTP head of a backend answer.
// ---------------------------------------------------------------------------

/// `u16::from_str`.
pub open spec fn parse_u16(s: Seq<char>) -> Option<u16> {
    match crate::text::parse_u64(s) {
        Some(v) => if v <= u16::MAX {
            Some(v as u16)
        } else {
            None
        },
        None => None,
    }
}

/// `usize::from_str`.
pub open spec fn parse_usize(s: Seq<char>) -> Option<usize> {
    match crate::text::parse_u64(s) {
        Some(v) => if v <= usize::MAX {
            Some(v as usize)
        } else {
            None
        },
        None => None,
    }
}

/// The status of a status line, or why it is refused: the second word must
/// be a status number and the first must name HTTP/1.x.
pub open spec fn status_of(line: Seq<char>) -> Result<u16, Seq<char>> {
    let w = crate::text::words(line);
    let version = if w.len() > 0 {
        w[0]
    } else {
        Seq::empty()
    };
    let status = if w.len() > 1 {
        parse_u16(w[1])
    } else {
        None
    };
    match status {
        None => Err("invalid HTTP status line"@),
        Some(st) => if !crate::text::starts_with(version, "HTTP/1."@) {
            Err("unsupported backend HTTP version"@)
        } else {
            Ok(st)
        },
    }
}

/// A header line as its lower-cased, trimmed name and its trimmed value.
pub open spec fn header_of(line: Seq<char>) -> Option<(Seq<char>, Seq<char>)> {
    match crate::text::split_once(line, ':') {
        None => None,
        Some((n, v)) => Some((lower_seq(crate::text::trim(n)), crate::text::trim(v))),
    }
}

/// The headers of the lines, in order, if every line is a header.
pub open spec fn headers_of(ls: Seq<Seq<char>>) -> Option<Seq<(Seq<char>, Seq<char>)>>
    decreases ls.len(),
{
    if ls.len() == 0 {
        Some(Seq::empty())
    } else {
        match headers_of(ls.drop_last()) {
            None => None,
            Some(h) => match header_of(ls.last()) {
                None => None,
                Some(e) => Some(h.push(e)),
            },
        }
    }
}

/// The parsed head: status, header map (a later header replaces an earlier
/// one), whether the body is chunked, and its declared length; or why the
/// head is refused.
pub open spec fn head_of(status_line: Seq<char>, ls: Seq<Seq<char>>) -> Result<
    (u16, Map<Seq<char>, Seq<char>>, bool, Option<usize>),
    Seq<char>,
> {
    match status_of(status_line) {
        Err(e) => Err(e),
        Ok(st) => match headers_of(ls) {
            None => Err("malformed backend HTTP header"@),
            Some(h) => {
                let m = entries_map(h);
                let chunked = m.contains_key("transfer-encoding"@) && contains(
                    lower_seq(m["transfer-encoding"@]),
                    "chunked"@,
                );
                if m.contains_key("content-length"@) {
                    match parse_usize(m["content-length"@]) {
                        None => Err("invalid HTTP content-length"@),
                        Some(n) => Ok((st, m, chunked, Some(n))),
                    }
                } else {
                    Ok((st, m, chunked, None))
                }
            },
        },
    }
}

#[derive(Debug, Clone, PartialEq, Eq)]
pub struct HttpHead {
    pub status: u16,
    pub headers: Vec<(String, String)>,
    pub chunked: bool,
    pub content_length: Option<usize>,
}

fn status_from_line(line: &str) -> (r: Result<u16, String>)
    ensures
        match status_of(line@) {
            Ok(st) => r == Ok::<u16, String>(st),
            Err(m) => r matches Err(e) && e@ == m,
        },
{
    let c = chars_of(line);
    let w = crate::text::split_words(c.as_slice());
    let status: Option<u16> = if w.len() > 1 {
        assert(w@[1]@ == crate::text::words(line@)[1]);
        match crate::text::parse_u64_chars(w[1].as_slice()) {
            Some(v) => if v <= 65535 {
                Some(v as u16)
            } else {
                None
            },
            None => None,
        }
    } else {
        None
    };
    match status {
        None => Err(owned("invalid HTTP status line")),
        Some(st) => {
            let p = chars_of("HTTP/1.");
            let ok = if w.len() > 0 {
                assert(w@[0]@ == crate::text::words(line@)[0]);
                crate::text::chars_starts_with(w[0].as_slice(), p.as_slice())
            } else {
                let e: Vec<char> = Vec::new();
                crate::text::chars_starts_with(e.as_slice(), p.as_slice())
            };
            if !ok {
                Err(owned("unsupported backend HTTP version"))
            } else {
                Ok(st)
            }
        },
    }
}

fn header_from_line(line: &str) -> (r: Option<(String, String)>)
    ensures
        match header_of(line@) {
            None => r is None,
            Some((n, v)) => r matches Some(p) && p.0@ == n && p.1@ == v,
        },
{
    let c = chars_of(line);
    let colon = crate::text::find_from(c.as_slice(), 0, ':');
    proof {
        assert(c@.skip(0) =~= c@);
        crate::text::lemma_index_of_bounds(c@, ':');
    }
    if colon == c.len() {
        return None;
    }
    let (a, b) = crate::text::trim_bounds(c.as_slice(), 0, colon);
    let (x, y) = crate::text::trim_bounds(c.as_slice(), colon + 1, c.len());
    assert(c@.subrange(0, colon as int) =~= c@.take(colon as int));
    assert(c@.subrange(colon + 1, c@.len() as int) =~= c@.skip(colon + 1));
    let name = crate::text::slice_of(c.as_slice(), a, b);
    let lname = lower_chars(name.as_slice());
    let value = crate::text::slice_of(c.as_slice(), x, y);
    Some((string_of(lname.as_slice()), string_of(value.as_slice())))
}

pub open spec fn line_views(ls: Seq<String>) -> Seq<Seq<char>> {
    ls.map_values(|l: String| l@)
}

impl HttpHead {
    /// Reads a head from its status line and its header lines (without
    /// their line ends).
    pub fn parse(status_line: &str, header_lines: &Vec<String>) -> (r: Result<HttpHead, String>)
        ensures
            match head_of(status_line@, line_views(header_lines@)) {
                Ok(h) => r matches Ok(v) && v.status == h.0 && distinct_keys(
                    text_pairs_view(v.headers@),
                ) && entries_map(text_pairs_view(v.headers@)) == h.1 && v.chunked == h.2
                    && v.content_length == h.3,
                Err(m) => r matches Err(e) && e@ == m,
            },
    {
        let status = match status_from_line(status_line) {
            Ok(s) => s,
            Err(e) => {
                return Err(e);
            },
        };
        let ghost ls = line_views(header_lines@);
        let mut headers: Vec<(String, String)> = Vec::new();
        let ghost mut hs: Seq<(Seq<char>, Seq<char>)> = Seq::empty();
        let mut i: usize = 0;
        assert(ls.take(0) =~= Seq::<Seq<char>>::empty());
        assert(text_pairs_view(headers@) =~= Seq::<(Seq<char>, Seq<char>)>::empty());
        while i < header_lines.len()
            invariant
                i <= header_lines.len(),
                ls == line_views(header_lines@),
                ls.len() == header_lines.len(),
                status_of(status_line@) == Ok::<u16, Seq<char>>(status),
                headers_of(ls.take(i as int)) == Some(hs),
                distinct_keys(text_pairs_view(headers@)),
                entries_map(text_pairs_view(headers@)) == entries_map(hs),
            decreases header_lines.len() - i,
        {
            assert(ls.take(i + 1).drop_last() =~= ls.take(i as int));
            assert(ls.take(i + 1).last() == header_lines@[i as int]@);
            match header_from_line(header_lines[i].as_str()) {
                None => {
                    proof {
                        lemma_headers_fail(ls, i as int);
                    }
                    return Err(owned("malformed backend HTTP header"));
                },
                Some((n, v)) => {
                    let ghost e = (n@, v@);
                    upsert_text(&mut headers, n, v);
                    proof {
                        assert(hs.push(e).drop_last() =~= hs);
                        assert(entries_map(hs.push(e)) == entries_map(hs).insert(e.0, e.1));
                        hs = hs.push(e);
                    }
                },
            }
            i = i + 1;
        }
        assert(ls.take(ls.len() as int) =~= ls);
        let chunked = match lookup_text(&headers, "transfer-encoding") {
            Some(v) => {
                let vc = chars_of(v.as_str());
                let l = lower_chars(vc.as_slice());
                let w = chars_of("chunked");
                chars_contains(l.as_slice(), w.as_slice())
            },
            None => false,
        };
        let content_length = match lookup_text(&headers, "content-length") {
            Some(v) => {
                let vc = chars_of(v.as_str());
                match crate::text::parse_u64_chars(vc.as_slice()) {
                    Some(n) => {
                        if n <= usize::MAX as u64 {
                            Some(n as usize)
                        } else {
                            return Err(owned("invalid HTTP content-length"));
                        }
                    },
                    None => {
                        return Err(owned("invalid HTTP content-length"));
                    },
                }
            },
            None => None,
        };
        Ok(HttpHead { status, headers, chunked, content_length })
    }
}

proof fn lemma_headers_fail(ls: Seq<Seq<char>>, i: int)
    requires
        0 <= i < ls.len(),
        header_of(ls[i]) is None,
    ensures
        headers_of(ls) is None,
    decreases ls.len(),
{
    if i == ls.len() - 1 {
    } else {
        assert(ls.drop_last()[i] == ls[i]);
        lemma_headers_fail(ls.drop_last(), i);
    }
}

/// A line as read, without its trailing line-end characters.
pub open spec fn without_line_end(s: Seq<char>) -> Seq<char>
    decreases s.len(),
{
    if s.len() > 0 && (s.last() == '\r' || s.last() == '\n') {
        without_line_end(s.drop_last())
    } else {
        s
    }
}

pub fn trim_line_end(line: &str) -> (r: String)
    ensures
        r@ == without_line_end(line@),
{
    let c = chars_of(line);
    let mut n = c.len();
    assert(c@.take(c.len() as int) =~= c@);
    while n > 0 && (c[n - 1] == '\r' || c[n - 1] == '\n')
        invariant
            n <= c.len(),
            without_line_end(line@) == without_line_end(c@.take(n as int)),
            c@ == line@,
        decreases n,
    {
        assert(c@.take(n as int).drop_last() =~= c@.take(n - 1));
        n = n - 1;
    }
    assert(c@.take(c.len() as int) =~= c@);
    let t = crate::text::slice_of(c.as_slice(), 0, n);
    assert(t@ =~= c@.take(n as int));
    string_of(t.as_slice())
}

/// Counts the bytes of the head read so far, and refuses a head larger than
/// the limit.
pub fn count_head_bytes(consumed: usize, count: usize) -> (r: Result<usize, String>)
    ensures
        ({
            let total = if consumed + count > usize::MAX {
                usize::MAX as int
            } else {
                consumed + count
            };
            &&& total > MAX_HEADER_BYTES ==> (r matches Err(e) && e@
                == "backend HTTP headers exceeded size limit"@)
            &&& total <= MAX_HEADER_BYTES ==> r == Ok::<usize, String>(total as usize)
        }),
{
    let total = consumed.saturating_add(count);
    if total > MAX_HEADER_BYTES {
        return Err(owned("backend HTTP headers exceeded size limit"));
    }
    Ok(total)
}

// ---------------------------------------------------------------------------
// Body framing.
// ---------------------------------------------------------------------------

#[derive(Debug, Clone, Copy, PartialEq, Eq, Structural)]
pub enum BodyMode {
    Chunked,
    Length(usize),
    UntilEof,
    Done,
}

impl BodyMode {
    /// Chunked bodies are read in chunks, others by their declared length
    /// or else to the end of the stream.
    pub fn for_head(head: &HttpHead) -> (r: BodyMode)
        ensures
            r == (if head.chunked {
                BodyMode::Chunked
            } else if head.content_length is Some {
                BodyMode::Length(head.content_length->0)
            } else {
                BodyMode::UntilEof
            }),
    {
        if head.chunked {
            BodyMode::Chunked
        } else {
            match head.content_length {
                Some(n) => BodyMode::Length(n),
                None => BodyMode::UntilEof,
            }
        }
    }
}

pub open spec fn hex_digit_value(c: char) -> int {
    if '0' <= c && c <= '9' {
        (c as int) - ('0' as int)
    } else if 'a' <= c && c <= 'f' {
        (c as int) - ('a' as int) + 10
    } else {
        (c as int) - ('A' as int) + 10
    }
}

pub open spec fn is_hex_digit(c: char) -> bool {
    ('0' <= c && c <= '9') || ('a' <= c && c <= 'f') || ('A' <= c && c <= 'F')
}

pub open spec fn hex_value(d: Seq<char>) -> int
    decreases d.len(),
{
    if d.len() == 0 {
        0
    } else {
        hex_value(d.drop_last()) * 16 + hex_digit_value(d.last())
    }
}

/// `usize::from_str_radix(s, 16)`: an optional `+`, then one or more hex
/// digits, in range.
pub open spec fn hex_digits_only(d: Seq<char>) -> bool {
    forall|i: int| 0 <= i < d.len() ==> is_hex_digit(#[trigger] d[i])
}

pub open spec fn unsigned_body(s: Seq<char>) -> Seq<char> {
    if s.len() > 0 && s[0] == '+' {
        s.drop_first()
    } else {
        s
    }
}

pub open spec fn parse_hex(s: Seq<char>) -> Option<usize> {
    let d = unsigned_body(s);
    if d.len() == 0 || !hex_digits_only(d) || hex_value(d) > usize::MAX {
        None
    } else {
        Some(hex_value(d) as usize)
    }
}

proof fn lemma_hex_value_nonneg(d: Seq<char>)
    requires
        forall|i: int| 0 <= i < d.len() ==> is_hex_digit(#[trigger] d[i]),
    ensures
        hex_value(d) >= 0,
    decreases d.len(),
{
    if d.len() > 0 {
        lemma_hex_value_nonneg(d.drop_last());
    }
}

proof fn lemma_hex_value_mono(d: Seq<char>, n: int)
    requires
        0 <= n <= d.len(),
        forall|i: int| 0 <= i < d.len() ==> is_hex_digit(#[trigger] d[i]),
    ensures
        hex_value(d.take(n)) <= hex_value(d),
    decreases d.len(),
{
    if n < d.len() {
        assert(d.drop_last().take(n) =~= d.take(n));
        lemma_hex_value_mono(d.drop_last(), n);
        lemma_hex_value_nonneg(d.drop_last());
    } else {
        assert(d.take(n) =~= d);
    }
}

fn parse_hex_chars(s: &[char]) -> (r: Option<usize>)
    ensures
        r == parse_hex(s@),
{
    let start: usize = if s.len() > 0 && s[0] == '+' {
        1
    } else {
        0
    };
    let ghost d = unsigned_body(s@);
    assert(d =~= s@.skip(start as int));
    if start >= s.len() {
        return None;
    }
    let mut k = start;
    while k < s.len()
        invariant
            start <= k <= s.len(),
            d == s@.skip(start as int),
            d == unsigned_body(s@),
            forall|j: int| 0 <= j < k - start ==> is_hex_digit(#[trigger] d[j]),
        decreases s.len() - k,
    {
        let c = s[k];
        if !(('0' <= c && c <= '9') || ('a' <= c && c <= 'f') || ('A' <= c && c <= 'F')) {
            assert(!is_hex_digit(d[k - start]));
            assert(!hex_digits_only(d));
            return None;
        }
        k = k + 1;
    }
    let mut acc: usize = 0;
    let mut i = start;
    assert(d.take(0) =~= Seq::<char>::empty());
    while i < s.len()
        invariant
            start <= i <= s.len(),
            d == s@.skip(start as int),
            d == unsigned_body(s@),
            forall|j: int| 0 <= j < d.len() ==> is_hex_digit(#[trigger] d[j]),
            acc == hex_value(d.take(i - start)),
        decreases s.len() - i,
    {
        let c = s[i];
        assert(is_hex_digit(d[i - start]));
        let v: usize = if '0' <= c && c <= '9' {
            (c as u32 - '0' as u32) as usize
        } else if 'a' <= c && c <= 'f' {
            (c as u32 - 'a' as u32 + 10) as usize
        } else {
            (c as u32 - 'A' as u32 + 10) as usize
        };
        assert(d.take(i - start + 1).drop_last() =~= d.take(i - start));
        assert(hex_value(d.take(i - start + 1)) == acc * 16 + v);
        if acc > (usize::MAX - v) / 16 {
            proof {
                assert(acc * 16 + v > usize::MAX) by (nonlinear_arith)
                    requires
                        acc > (usize::MAX - v) / 16,
                        v < 16,
                {
                }
                lemma_hex_value_mono(d, i - start + 1);
            }
            return None;
        }
        assert(acc * 16 + v <= usize::MAX) by (nonlinear_arith)
            requires
                acc <= (usize::MAX - v) / 16,
                v < 16,
        {
        }
        acc = acc * 16 + v;
        i = i + 1;
    }
    assert(d.take(s.len() - start) =~= d);
    Some(acc)
}

pub open spec fn chunk_size_of(line: Seq<char>) -> Result<usize, Seq<char>> {
    if utf8_len(line) > 128 {
        Err("invalid backend chunk size"@)
    } else {
        let t = crate::text::trim(line);
        let size_text = t.take(crate::text::index_of(t, ';'));
        match parse_hex(size_text) {
            None => Err("invalid backend chunk size"@),
            Some(n) => Ok(n),
        }
    }
}

/// The size of the next chunk, from its size line: the hex number before
/// any `;`, in a line of at most 128 bytes.
pub fn parse_chunk_size(line: &str) -> (r: Result<usize, String>)
    ensures
        match chunk_size_of(line@) {
            Ok(n) => r == Ok::<usize, String>(n),
            Err(m) => r matches Err(e) && e@ == m,
        },
{
    let c = chars_of(line);
    if utf8_len_sat(c.as_slice()) > 128 {
        return Err(owned("invalid backend chunk size"));
    }
    let (a, b) = crate::text::trim_bounds(c.as_slice(), 0, c.len());
    assert(c@.subrange(0, c@.len() as int) =~= c@);
    let t = crate::text::slice_of(c.as_slice(), a, b);
    let end = crate::text::find_from(t.as_slice(), 0, ';');
    proof {
        assert(t@.skip(0) =~= t@);
    }
    let size_text = crate::text::slice_of(t.as_slice(), 0, end);
    assert(size_text@ =~= t@.take(end as int));
    match parse_hex_chars(size_text.as_slice()) {
        None => Err(owned("invalid backend chunk size")),
        Some(n) => Ok(n),
    }
}

/// What a chunk size means: the end of the body, a chunk too large to
/// take, or a chunk to read.
#[derive(Debug, Clone, Copy, PartialEq, Eq, Structural)]
pub enum ChunkPlan {
    End,
    TooLarge,
    Read(usize),
}

pub fn plan_chunk(size: usize) -> (r: ChunkPlan)
    ensures
        r == (if size == 0 {
            ChunkPlan::End
        } else if size > MAX_SSE_EVENT_BYTES {
            ChunkPlan::TooLarge
        } else {
            ChunkPlan::Read(size)
        }),
{
    if size == 0 {
        ChunkPlan::End
    } else if size > MAX_SSE_EVENT_BYTES {
        ChunkPlan::TooLarge
    } else {
        ChunkPlan::Read(size)
    }
}

/// A body of known length is read in pieces of at most 8192 bytes: the
/// size of the next piece and the mode after it.
pub fn plan_length_read(remaining: usize) -> (r: (usize, BodyMode))
    ensures
        remaining == 0 ==> r == (0usize, BodyMode::Done),
        remaining > 0 ==> r == ((if remaining < 8192 {
            remaining
        } else {
            8192usize
        }), BodyMode::Length((remaining - (if remaining < 8192 {
            remaining
        } else {
            8192usize
        })) as usize)),
{
    if remaining == 0 {
        return (0, BodyMode::Done);
    }
    let amount = if remaining < 8192 {
        remaining
    } else {
        8192
    };
    (amount, BodyMode::Length(remaining - amount))
}

/// A body read whole is refused once it would exceed its limit.
pub fn body_fits(current: usize, chunk: usize, maximum: usize) -> (r: bool)
    ensures
        r == (current + chunk <= maximum),
{
    if chunk > maximum {
        false
    } else {
        current <= maximum - chunk
    }
}

// ---------------------------------------------------------------------------
// Server-sent events and JSON answers.
// ---------------------------------------------------------------------------

/// A tool call as it is assembled: id, name and argument text.
pub type Parts = (Seq<char>, Seq<char>, Seq<char>);

#[derive(Debug, Clone, PartialEq, Eq)]
pub struct ToolCallParts {
    pub id: String,
    pub name: String,
    pub arguments: String,
}

pub open spec fn parts_view(p: ToolCallParts) -> Parts {
    (p.id@, p.name@, p.arguments@)
}

pub open spec fn table_view(t: Seq<(usize, ToolCallParts)>) -> Seq<(usize, Parts)> {
    t.map_values(|e: (usize, ToolCallParts)| (e.0, parts_view(e.1)))
}

/// Adds text to the call at `k` of a table kept in the order of its keys
/// (a new key goes before the first larger one), as an ordered map whose
/// missing entries start empty.
pub open spec fn table_add(s: Seq<(usize, Parts)>, k: usize, d: Parts) -> Seq<(usize, Parts)>
    decreases s.len(),
{
    if s.len() == 0 {
        seq![(k, d)]
    } else if s[0].0 == k {
        seq![(k, (s[0].1.0 + d.0, s[0].1.1 + d.1, s[0].1.2 + d.2))] + s.drop_first()
    } else if k < s[0].0 {
        seq![(k, d)] + s
    } else {
        seq![s[0]] + table_add(s.drop_first(), k, d)
    }
}

proof fn lemma_table_add_skip(s: Seq<(usize, Parts)>, k: usize, d: Parts, i: int)
    requires
        0 <= i <= s.len(),
        forall|j: int| 0 <= j < i ==> #[trigger] s[j].0 < k,
    ensures
        table_add(s, k, d) == s.take(i) + table_add(s.skip(i), k, d),
    decreases i,
{
    if i == 0 {
        assert(s.take(0) + table_add(s.skip(0), k, d) =~= table_add(s, k, d)) by {
            assert(s.skip(0) =~= s);
        }
    } else {
        assert(s[0].0 < k);
        let t = s.drop_first();
        assert forall|j: int| 0 <= j < i - 1 implies #[trigger] t[j].0 < k by {
            assert(t[j] == s[j + 1]);
        }
        lemma_table_add_skip(t, k, d, i - 1);
        assert(t.take(i - 1) =~= s.take(i).drop_first());
        assert(t.skip(i - 1) =~= s.skip(i));
        assert(seq![s[0]] + t.take(i - 1) =~= s.take(i));
        assert(table_add(s, k, d) == seq![s[0]] + table_add(t, k, d));
        assert(seq![s[0]] + (t.take(i - 1) + table_add(t.skip(i - 1), k, d)) =~= s.take(i)
            + table_add(s.skip(i), k, d));
    }
}

fn table_insert(t: &mut Vec<(usize, ToolCallParts)>, k: usize, id: &str, name: &str, args: &str)
    ensures
        table_view(final(t)@) == table_add(table_view(old(t)@), k, (id@, name@, args@)),
{
    let ghost s = table_view(t@);
    let ghost d = (id@, name@, args@);
    let mut i: usize = 0;
    while i < t.len() && t[i].0 < k
        invariant
            i <= t.len(),
            s == table_view(t@),
            forall|j: int| 0 <= j < i ==> #[trigger] s[j].0 < k,
        decreases t.len() - i,
    {
        i = i + 1;
    }
    proof {
        lemma_table_add_skip(s, k, d, i as int);
    }
    if i < t.len() && t[i].0 == k {
        let np = ToolCallParts {
            id: concat(t[i].1.id.as_str(), id),
            name: concat(t[i].1.name.as_str(), name),
            arguments: concat(t[i].1.arguments.as_str(), args),
        };
        let ghost rest = s.skip(i as int);
        assert(rest[0] == s[i as int]);
        t.set(i, (k, np));
        proof {
            assert(rest.drop_first() =~= s.skip(i + 1));
            assert(table_view(t@) =~= s.take(i as int) + table_add(rest, k, d));
        }
    } else {
        t.insert(i, (k, ToolCallParts { id: owned(id), name: owned(name), arguments: owned(args) }));
        proof {
            let rest = s.skip(i as int);
            if rest.len() > 0 {
                assert(rest[0] == s[i as int]);
            }
            assert(table_view(t@) =~= s.take(i as int) + table_add(rest, k, d));
        }
    }
}

/// The data of an event: its `data:` lines, each without the field name
/// and leading whitespace, joined by line feeds.
pub open spec fn data_lines(ls: Seq<Seq<char>>) -> Seq<Seq<char>>
    decreases ls.len(),
{
    if ls.len() == 0 {
        Seq::empty()
    } else if crate::text::starts_with(ls.last(), "data:"@) {
        data_lines(ls.drop_last()).push(crate::text::trim_start(ls.last().skip(5)))
    } else {
        data_lines(ls.drop_last())
    }
}

pub open spec fn event_data(text: Seq<char>) -> Seq<char> {
    crate::text::join(data_lines(crate::text::lines(text)), "\n"@)
}

/// The state of a stream: the finish reason so far, whether text was
/// seen, and the tool calls being assembled.
pub type SseAbs = (Option<Seq<char>>, bool, Seq<(usize, Parts)>);

pub open spec fn or_empty(o: Option<Seq<char>>) -> Seq<char> {
    match o {
        Some(t) => t,
        None => Seq::empty(),
    }
}

pub open spec fn call_base(prefix: Seq<char>, k: int) -> Seq<char> {
    prefix + crate::text::decimal(k as nat)
}

/// The tool-call fragments `k..m` under `prefix`, added to the table.
pub open spec fn calls_apply(doc: Seq<u8>, prefix: Seq<char>, k: int, m: int, t: Seq<(usize, Parts)>) -> Seq<
    (usize, Parts),
>
    decreases m - k,
{
    if k >= m {
        t
    } else {
        let base = call_base(prefix, k);
        let idx: usize = match json_u64_at(doc, base + "/index"@) {
            Some(v) => v as usize,
            None => 0,
        };
        let d = (
            or_empty(json_text_at(doc, base + "/id"@)),
            or_empty(json_text_at(doc, base + "/function/name"@)),
            or_empty(json_text_at(doc, base + "/function/arguments"@)),
        );
        calls_apply(doc, prefix, k + 1, m, table_add(t, idx, d))
    }
}

pub open spec fn non_utf8_error() -> LErr {
    (ProviderErrorCode::MalformedResponse, "local inference returned non-UTF-8 SSE"@, false)
}

pub open spec fn bad_sse_json_error() -> LErr {
    (ProviderErrorCode::MalformedResponse, "local inference returned malformed SSE JSON"@, false)
}

pub open spec fn no_choices_error() -> LErr {
    (ProviderErrorCode::MalformedResponse, "local inference response omitted choices"@, false)
}

/// What one event does: whether it ends the stream, the text it adds, and
/// the state after it; or the error it raises.
pub open spec fn event_step(ev: Seq<u8>, st: SseAbs) -> Result<(bool, Option<Seq<char>>, SseAbs), LErr> {
    if !vstd::utf8::valid_utf8(ev) {
        Err(non_utf8_error())
    } else {
        let data = event_data(vstd::utf8::decode_utf8(ev));
        if data.len() == 0 {
            Ok((false, None, st))
        } else if crate::text::trim(data) == "[DONE]"@ {
            Ok((true, None, st))
        } else {
            let doc = vstd::utf8::encode_utf8(data);
            if !json_parses(doc) {
                Err(bad_sse_json_error())
            } else if json_present_at(doc, "/error"@) {
                Err(json_error_of(doc))
            } else if !(json_array_len_at(doc, "/choices"@) matches Some(n) && n > 0) {
                Err(no_choices_error())
            } else {
                let finish = match json_text_at(doc, "/choices/0/finish_reason"@) {
                    Some(r) => Some(r),
                    None => st.0,
                };
                let content = json_text_at(doc, "/choices/0/delta/content"@);
                let fresh = content matches Some(c) && c.len() > 0;
                let table = match json_array_len_at(doc, "/choices/0/delta/tool_calls"@) {
                    Some(m) => calls_apply(
                        doc,
                        "/choices/0/delta/tool_calls/"@,
                        0,
                        m as int,
                        st.2,
                    ),
                    None => st.2,
                };
                Ok(
                    (
                        false,
                        if fresh {
                            content
                        } else {
                            None
                        },
                        (finish, st.1 || fresh, table),
                    ),
                )
            }
        }
    }
}

pub open spec fn invalid_call_error() -> LErr {
    (ProviderErrorCode::MalformedResponse, "local inference returned an invalid tool call"@, false)
}

pub open spec fn bad_arguments_error() -> LErr {
    (
        ProviderErrorCode::MalformedResponse,
        "local inference returned malformed tool arguments"@,
        false,
    )
}

/// The assembled calls in the order of their keys, or the error of the
/// first one that lacks an id or a name, has more than 64 KiB of
/// arguments, or arguments that are not JSON.
pub open spec fn finish_calls(t: Seq<(usize, Parts)>) -> Result<Seq<Parts>, LErr>
    decreases t.len(),
{
    if t.len() == 0 {
        Ok(Seq::empty())
    } else {
        let p = t[0].1;
        if p.0.len() == 0 || p.1.len() == 0 || utf8_len(p.2) > MAX_TOOL_ARGUMENT_BYTES {
            Err(invalid_call_error())
        } else if !json_parses(vstd::utf8::encode_utf8(p.2)) {
            Err(bad_arguments_error())
        } else {
            match finish_calls(t.drop_first()) {
                Err(e) => Err(e),
                Ok(rest) => Ok(seq![p] + rest),
            }
        }
    }
}

/// The output of a stream in this state: its finish reason (`stop` when
/// none was given) and its calls, unless it answered nothing at all.
pub open spec fn output_of(st: SseAbs) -> Result<(Seq<char>, Seq<Parts>), LErr> {
    match finish_calls(st.2) {
        Err(e) => Err(e),
        Ok(calls) => if !st.1 && calls.len() == 0 {
            Err(no_answer_error())
        } else {
            Ok(
                (
                    match st.0 {
                        Some(f) => f,
                        None => "stop"@,
                    },
                    calls,
                ),
            )
        },
    }
}

/// How a run over the buffered events ends.
pub enum RunEnd {
    /// Every complete event was taken; the stream goes on.
    Continue,
    /// An event ended the stream with this output (or error).
    Finish(Result<(Seq<char>, Seq<Parts>), LErr>),
    /// An event raised this error.
    Fail(LErr),
}

pub proof fn lemma_event_end_bounds(b: Seq<u8>)
    ensures
        event_end(b) matches Some((p, s)) ==> 0 <= p && p + s <= b.len() && s >= 2,
{
    lemma_first_from_fits(b, lf2(), 0);
    lemma_first_from_fits(b, crlf2(), 0);
}

pub proof fn lemma_first_from_fits(b: Seq<u8>, p: Seq<u8>, i: int)
    requires
        0 <= i,
    ensures
        first_from(b, p, i) matches Some(k) ==> i <= k && k + p.len() <= b.len(),
    decreases b.len() + 1 - i,
{
    if i + p.len() <= b.len() && !occurs_bytes(b, p, i) {
        lemma_first_from_fits(b, p, i + 1);
    }
}

/// Takes every complete event off the buffer in order: the texts they add,
/// how the run ends, the state after it, and what is left in the buffer.
pub open spec fn sse_run(buf: Seq<u8>, st: SseAbs) -> (Seq<Seq<char>>, RunEnd, SseAbs, Seq<u8>)
    decreases buf.len(),
{
    match event_end(buf) {
        None => (Seq::empty(), RunEnd::Continue, st, buf),
        Some((p, sep)) => {
            proof {
                lemma_event_end_bounds(buf);
            }
            let ev = buf.take(p);
            let rest = buf.skip(p + sep);
            match event_step(ev, st) {
                Err(e) => (Seq::empty(), RunEnd::Fail(e), st, rest),
                Ok((done, delta, st2)) => {
                    let d = match delta {
                        Some(t) => seq![t],
                        None => Seq::empty(),
                    };
                    if done {
                        (d, RunEnd::Finish(output_of(st2)), st2, rest)
                    } else {
                        let r = sse_run(rest, st2);
                        (d + r.0, r.1, r.2, r.3)
                    }
                },
            }
        },
    }
}

proof fn lemma_first_from_found(b: Seq<u8>, p: Seq<u8>, i: int)
    requires
        0 <= i,
    ensures
        first_from(b, p, i) matches Some(k) ==> occurs_bytes(b, p, k) && forall|j: int|
            i <= j < k ==> !occurs_bytes(b, p, j),
        first_from(b, p, i) is None ==> forall|j: int| i <= j ==> !occurs_bytes(b, p, j),
    decreases b.len() + 1 - i,
{
    if i + p.len() <= b.len() && !occurs_bytes(b, p, i) {
        lemma_first_from_found(b, p, i + 1);
    }
}

proof fn lemma_first_from_is(b: Seq<u8>, p: Seq<u8>, k: int)
    requires
        0 <= k,
        p.len() > 0,
        occurs_bytes(b, p, k),
        forall|j: int| 0 <= j < k ==> !occurs_bytes(b, p, j),
    ensures
        first_from(b, p, 0) == Some(k),
{
    lemma_first_from_skip(b, p, 0, k);
}

proof fn lemma_occurs_in_prefix(b1: Seq<u8>, b2: Seq<u8>, p: Seq<u8>, j: int)
    requires
        0 <= j,
        j + p.len() <= b1.len(),
    ensures
        occurs_bytes(b1 + b2, p, j) == occurs_bytes(b1, p, j),
{
    assert((b1 + b2).subrange(j, j + p.len()) =~= b1.subrange(j, j + p.len()));
}

/// A pattern found in `b1` is found first at the same place in any
/// continuation of `b1`; one not found there can only start near its end.
proof fn lemma_first_from_extend(b1: Seq<u8>, b2: Seq<u8>, p: Seq<u8>)
    requires
        p.len() > 0,
    ensures
        first_from(b1, p, 0) matches Some(k) ==> first_from(b1 + b2, p, 0) == Some(k),
        first_from(b1, p, 0) is None ==> (first_from(b1 + b2, p, 0) matches Some(k) ==> k
            + p.len() > b1.len() && occurs_bytes(b1 + b2, p, k)),
{
    lemma_first_from_found(b1, p, 0);
    lemma_first_from_found(b1 + b2, p, 0);
    if let Some(k) = first_from(b1, p, 0) {
        lemma_first_from_fits(b1, p, 0);
        assert forall|j: int| 0 <= j < k implies !occurs_bytes(b1 + b2, p, j) by {
            lemma_occurs_in_prefix(b1, b2, p, j);
        }
        lemma_occurs_in_prefix(b1, b2, p, k);
        lemma_first_from_is(b1 + b2, p, k);
    } else {
        if let Some(k) = first_from(b1 + b2, p, 0) {
            lemma_first_from_fits(b1 + b2, p, 0);
            if k + p.len() <= b1.len() {
                lemma_occurs_in_prefix(b1, b2, p, k);
            }
        }
    }
}

/// Once a buffer holds a complete event, more bytes after it do not move
/// where that event ends.
proof fn lemma_event_end_extend(b1: Seq<u8>, b2: Seq<u8>)
    requires
        event_end(b1) is Some,
    ensures
        event_end(b1 + b2) == event_end(b1),
{
    let b = b1 + b2;
    lemma_first_from_extend(b1, b2, lf2());
    lemma_first_from_extend(b1, b2, crlf2());
    lemma_first_from_fits(b1, lf2(), 0);
    lemma_first_from_fits(b1, crlf2(), 0);
    match (first_from(b1, lf2(), 0), first_from(b1, crlf2(), 0)) {
        (Some(l), None) => {
            if let Some(c) = first_from(b, crlf2(), 0) {
                if c < l {
                    lemma_first_from_found(b1, lf2(), 0);
                    assert(b.subrange(c, c + 4)[2] == crlf2()[2]);
                    assert(b1.subrange(l, l + 2)[1] == lf2()[1]);
                    assert(b[c + 2] == b1[l + 1]);
                    assert(false);
                }
            }
        },
        (None, Some(c)) => {},
        _ => {},
    }
}

/// What running the parser over a buffer and then over what it left,
/// followed by more bytes, amounts to.
pub open spec fn sse_run_then(
    r1: (Seq<Seq<char>>, RunEnd, SseAbs, Seq<u8>),
    more: Seq<u8>,
) -> (Seq<Seq<char>>, RunEnd, SseAbs, Seq<u8>) {
    if r1.1 is Continue {
        let r2 = sse_run(r1.3 + more, r1.2);
        (r1.0 + r2.0, r2.1, r2.2, r2.3)
    } else {
        (r1.0, r1.1, r1.2, r1.3 + more)
    }
}

/// However the stream is cut into chunks, its events are taken off in the
/// same order with the same effect: one run over `b1 + b2` gives what a run
/// over `b1`, continued over its leftover followed by `b2`, gives.
pub proof fn lemma_sse_run_split(b1: Seq<u8>, b2: Seq<u8>, st: SseAbs)
    ensures
        sse_run(b1 + b2, st) == sse_run_then(sse_run(b1, st), b2),
    decreases b1.len(),
{
    let b = b1 + b2;
    match event_end(b1) {
        None => {
            assert(Seq::<Seq<char>>::empty() + sse_run(b, st).0 =~= sse_run(b, st).0);
        },
        Some((p, sep)) => {
            lemma_event_end_extend(b1, b2);
            lemma_event_end_bounds(b1);
            assert(b.take(p) =~= b1.take(p));
            assert(b.skip(p + sep) =~= b1.skip(p + sep) + b2);
            let rest1 = b1.skip(p + sep);
            match event_step(b1.take(p), st) {
                Err(e) => {},
                Ok((done, delta, st2)) => {
                    if !done {
                        lemma_sse_run_split(rest1, b2, st2);
                        let d: Seq<Seq<char>> = match delta {
                            Some(t) => seq![t],
                            None => Seq::empty(),
                        };
                        let r = sse_run(rest1, st2);
                        if r.1 is Continue {
                            let r2 = sse_run(r.3 + b2, r.2);
                            assert(d + (r.0 + r2.0) =~= (d + r.0) + r2.0);
                        }
                    }
                },
            }
        },
    }
}

pub open spec fn oversized_event_error() -> LErr {
    (ProviderErrorCode::MalformedResponse, "local inference SSE event exceeded size limit"@, false)
}

pub open spec fn early_end_error() -> LErr {
    (ProviderErrorCode::ProcessFailure, "local inference stream ended before a terminal event"@, true)
}

/// What the backend produced: how it finished, and the tool calls it asked
/// for.
#[derive(Debug, Clone, PartialEq, Eq)]
pub struct LlamaOutput {
    pub finish_reason: String,
    pub tool_calls: Vec<BrokerToolCall>,
}

pub open spec fn call_view(c: BrokerToolCall) -> Parts {
    (c.id@, c.name@, c.arguments@)
}

pub open spec fn calls_view(cs: Seq<BrokerToolCall>) -> Seq<Parts> {
    cs.map_values(|c: BrokerToolCall| call_view(c))
}

pub open spec fn output_is(o: LlamaOutput, s: (Seq<char>, Seq<Parts>)) -> bool {
    o.finish_reason@ == s.0 && calls_view(o.tool_calls@) == s.1
}

pub enum SseOutcome {
    Continue,
    Done(LlamaOutput),
    Failed(LlamaError),
}

pub open spec fn outcome_is(o: SseOutcome, r: Result<(Seq<char>, Seq<Parts>), LErr>) -> bool {
    match r {
        Ok(v) => o matches SseOutcome::Done(out) && output_is(out, v),
        Err(e) => o matches SseOutcome::Failed(err) && error_is(err, e),
    }
}

pub struct SseProgress {
    /// The texts to pass on, in order, before the outcome.
    pub deltas: Vec<String>,
    pub outcome: SseOutcome,
}

pub open spec fn texts_view(v: Seq<String>) -> Seq<Seq<char>> {
    v.map_values(|s: String| s@)
}

/// The state of one streamed answer.
pub struct SseState {
    buffer: Vec<u8>,
    tool_calls: Vec<(usize, ToolCallParts)>,
    finish_reason: Option<String>,
    content_seen: bool,
}

pub open spec fn opt_view(o: Option<String>) -> Option<Seq<char>> {
    match o {
        Some(s) => Some(s@),
        None => None,
    }
}

fn trim_start_from(s: &[char], from: usize) -> (r: usize)
    requires
        from <= s.len(),
    ensures
        from <= r <= s.len(),
        s@.skip(r as int) == crate::text::trim_start(s@.skip(from as int)),
{
    let mut i = from;
    while i < s.len() && crate::text::ws(s[i])
        invariant
            from <= i <= s.len(),
            crate::text::trim_start(s@.skip(from as int)) == crate::text::trim_start(
                s@.skip(i as int),
            ),
        decreases s.len() - i,
    {
        assert(s@.skip(i as int).drop_first() =~= s@.skip(i + 1));
        i = i + 1;
    }
    if i < s.len() {
        assert(s@.skip(i as int)[0] == s@[i as int]);
    }
    i
}

fn event_data_of(text: &str) -> (r: String)
    ensures
        r@ == event_data(text@),
{
    let c = chars_of(text);
    let ls = crate::text::split_lines(c.as_slice());
    let ghost all = crate::text::lines(text@);
    let mut kept: Vec<Vec<char>> = Vec::new();
    let prefix = chars_of("data:");
    proof {
        reveal_strlit("data:");
    }
    let mut i: usize = 0;
    assert(all.take(0) =~= Seq::<Seq<char>>::empty());
    assert(crate::text::views(kept@) =~= Seq::<Seq<char>>::empty());
    while i < ls.len()
        invariant
            i <= ls.len(),
            crate::text::views(ls@) == all,
            prefix@ == "data:"@,
            prefix@.len() == 5,
            crate::text::views(kept@) == data_lines(all.take(i as int)),
        decreases ls.len() - i,
    {
        let line = ls[i].as_slice();
        assert(line@ == all[i as int]);
        assert(all.take(i + 1).drop_last() =~= all.take(i as int));
        assert(all.take(i + 1).last() == all[i as int]);
        if crate::text::chars_starts_with(line, prefix.as_slice()) {
            let start = trim_start_from(line, 5);
            let rest = crate::text::slice_of(line, start, line.len());
            assert(rest@ =~= line@.skip(start as int));
            let ghost before = kept@;
            kept.push(rest);
            assert(crate::text::views(kept@) =~= crate::text::views(before).push(rest@));
        }
        i = i + 1;
    }
    assert(all.take(all.len() as int) =~= all);
    let nl = chars_of("\n");
    let joined = crate::text::join_from(&kept, 0, nl.as_slice());
    assert(crate::text::views(kept@).skip(0) =~= crate::text::views(kept@));
    string_of(joined.as_slice())
}

/// `std::str::from_utf8`: the text the bytes encode, if they are UTF-8.
#[verifier::external_body]
fn decode_text(bytes: &[u8]) -> (r: Option<String>)
    ensures
        r is Some <==> vstd::utf8::valid_utf8(bytes@),
        r matches Some(s) ==> s@ == vstd::utf8::decode_utf8(bytes@),
{
    std::str::from_utf8(bytes).ok().map(str::to_owned)
}

fn text_bytes(s: &String) -> (r: &[u8])
    ensures
        r@ == vstd::utf8::encode_utf8(s@),
{
    s.as_str().as_bytes()
}

impl SseState {
    pub closed spec fn abs(&self) -> SseAbs {
        (opt_view(self.finish_reason), self.content_seen, table_view(self.tool_calls@))
    }

    pub closed spec fn buffered(&self) -> Seq<u8> {
        self.buffer@
    }

    pub fn new() -> (r: Self)
        ensures
            r.abs() == (None::<Seq<char>>, false, Seq::<(usize, Parts)>::empty()),
            r.buffered() == Seq::<u8>::empty(),
    {
        let r = SseState {
            buffer: Vec::new(),
            tool_calls: Vec::new(),
            finish_reason: None,
            content_seen: false,
        };
        assert(table_view(r.tool_calls@) =~= Seq::<(usize, Parts)>::empty());
        r
    }

    fn apply_calls(&mut self, doc: &[u8], m: usize)
        ensures
            final(self).abs() == (old(self).abs().0, old(self).abs().1, calls_apply(
                doc@,
                "/choices/0/delta/tool_calls/"@,
                0,
                m as int,
                old(self).abs().2,
            )),
            final(self).buffered() == old(self).buffered(),
    {
        let ghost t0 = table_view(self.tool_calls@);
        let mut k: usize = 0;
        while k < m
            invariant
                k <= m,
                calls_apply(doc@, "/choices/0/delta/tool_calls/"@, 0, m as int, t0) == calls_apply(
                    doc@,
                    "/choices/0/delta/tool_calls/"@,
                    k as int,
                    m as int,
                    table_view(self.tool_calls@),
                ),
                opt_view(self.finish_reason) == old(self).abs().0,
                self.content_seen == old(self).abs().1,
                self.buffer@ == old(self).buffered(),
                t0 == old(self).abs().2,
            decreases m - k,
        {
            let base = crate::providers::adapter::indexed("/choices/0/delta/tool_calls/", k);
            let idx: usize = match json_u64(doc, concat(base.as_str(), "/index").as_str()) {
                Some(v) => v as usize,
                None => 0,
            };
            let id = json_text(doc, concat(base.as_str(), "/id").as_str());
            let name = json_text(doc, concat(base.as_str(), "/function/name").as_str());
            let args = json_text(doc, concat(base.as_str(), "/function/arguments").as_str());
            let id_s = match id {
                Some(x) => x,
                None => String::new(),
            };
            let name_s = match name {
                Some(x) => x,
                None => String::new(),
            };
            let args_s = match args {
                Some(x) => x,
                None => String::new(),
            };
            table_insert(
                &mut self.tool_calls,
                idx,
                id_s.as_str(),
                name_s.as_str(),
                args_s.as_str(),
            );
            k = k + 1;
        }
    }

    /// Applies one event.
    fn process_event(&mut self, ev: &[u8]) -> (r: Result<(bool, Option<String>), LlamaError>)
        ensures
            final(self).buffered() == old(self).buffered(),
            match event_step(ev@, old(self).abs()) {
                Err(e) => r matches Err(x) && error_is(x, e),
                Ok((done, delta, st2)) => r matches Ok((d, t)) && d == done && opt_view(t) == delta
                    && final(self).abs() == st2,
            },
    {
        let text = match decode_text(ev) {
            Some(t) => t,
            None => {
                return Err(
                    llama_error(
                        ProviderErrorCode::MalformedResponse,
                        "local inference returned non-UTF-8 SSE",
                        false,
                    ),
                );
            },
        };
        let data = event_data_of(text.as_str());
        let dc = chars_of(data.as_str());
        if dc.len() == 0 {
            return Ok((false, None));
        }
        let (a, b) = crate::text::trim_bounds(dc.as_slice(), 0, dc.len());
        assert(dc@.subrange(0, dc@.len() as int) =~= dc@);
        let trimmed = crate::text::slice_of(dc.as_slice(), a, b);
        let done_word = chars_of("[DONE]");
        if crate::text::chars_eq(trimmed.as_slice(), done_word.as_slice()) {
            return Ok((true, None));
        }
        let doc = text_bytes(&data);
        if !json_doc_parses(doc) {
            return Err(
                llama_error(
                    ProviderErrorCode::MalformedResponse,
                    "local inference returned malformed SSE JSON",
                    false,
                ),
            );
        }
        if json_present(doc, "/error") {
            return Err(provider_json_error(doc));
        }
        match json_array_len(doc, "/choices") {
            Some(n) => {
                if n == 0 {
                    return Err(
                        llama_error(
                            ProviderErrorCode::MalformedResponse,
                            "local inference response omitted choices",
                            false,
                        ),
                    );
                }
            },
            None => {
                return Err(
                    llama_error(
                        ProviderErrorCode::MalformedResponse,
                        "local inference response omitted choices",
                        false,
                    ),
                );
            },
        }
        match json_text(doc, "/choices/0/finish_reason") {
            Some(reason) => {
                self.finish_reason = Some(reason);
            },
            None => {},
        }
        let content = json_text(doc, "/choices/0/delta/content");
        let mut delta: Option<String> = None;
        match content {
            Some(c) => {
                let cc = chars_of(c.as_str());
                if cc.len() > 0 {
                    self.content_seen = true;
                    delta = Some(c);
                }
            },
            None => {},
        }
        match json_array_len(doc, "/choices/0/delta/tool_calls") {
            Some(m) => {
                self.apply_calls(doc, m);
            },
            None => {},
        }
        Ok((false, delta))
    }

    /// The output once the stream has ended well.
    fn output(&self) -> (r: Result<LlamaOutput, LlamaError>)
        ensures
            match output_of(self.abs()) {
                Ok(v) => r matches Ok(o) && output_is(o, v),
                Err(e) => r matches Err(x) && error_is(x, e),
            },
    {
        let ghost t = table_view(self.tool_calls@);
        let mut calls: Vec<BrokerToolCall> = Vec::new();
        let mut i: usize = 0;
        assert(calls_view(calls@) =~= Seq::<Parts>::empty());
        proof {
            assert(t.skip(0) =~= t);
            if let Ok(r) = finish_calls(t) {
                assert(calls_view(calls@) + r =~= r);
            }
        }
        while i < self.tool_calls.len()
            invariant
                i <= self.tool_calls.len(),
                t == table_view(self.tool_calls@),
                finish_calls(t) == match finish_calls(t.skip(i as int)) {
                    Err(e) => Err(e),
                    Ok(rest) => Ok(calls_view(calls@) + rest),
                },
            decreases self.tool_calls.len() - i,
        {
            let p = &self.tool_calls[i].1;
            assert(t.skip(i as int)[0] == (self.tool_calls@[i as int].0, parts_view(*p)));
            assert(t.skip(i as int).drop_first() =~= t.skip(i + 1));
            let idc = chars_of(p.id.as_str());
            let namec = chars_of(p.name.as_str());
            let argc = chars_of(p.arguments.as_str());
            if idc.len() == 0 || namec.len() == 0 || utf8_len_sat(argc.as_slice())
                > MAX_TOOL_ARGUMENT_BYTES {
                return Err(
                    llama_error(
                        ProviderErrorCode::MalformedResponse,
                        "local inference returned an invalid tool call",
                        false,
                    ),
                );
            }
            if !json_doc_parses(text_bytes(&p.arguments)) {
                return Err(
                    llama_error(
                        ProviderErrorCode::MalformedResponse,
                        "local inference returned malformed tool arguments",
                        false,
                    ),
                );
            }
            let ghost before = calls@;
            calls.push(
                BrokerToolCall {
                    id: p.id.clone(),
                    name: p.name.clone(),
                    arguments: p.arguments.clone(),
                },
            );
            proof {
                assert(calls_view(calls@) =~= calls_view(before).push(parts_view(*p)));
                let rest = t.skip(i + 1);
                assert(finish_calls(t.skip(i as int)) == match finish_calls(rest) {
                    Err(e) => Err(e),
                    Ok(r) => Ok(seq![parts_view(*p)] + r),
                });
                if let Ok(r) = finish_calls(rest) {
                    assert(calls_view(before) + (seq![parts_view(*p)] + r) =~= calls_view(calls@)
                        + r);
                }
            }
            i = i + 1;
        }
        assert(t.skip(t.len() as int) =~= Seq::<(usize, Parts)>::empty());
        assert(calls_view(calls@) + Seq::<Parts>::empty() =~= calls_view(calls@));
        if !self.content_seen && calls.len() == 0 {
            return Err(
                llama_error(
                    ProviderErrorCode::MalformedResponse,
                    "local inference produced no answer; if the model is a reasoning model, set SENTIA_REASONING=off or raise the token budget",
                    false,
                ),
            );
        }
        let finish = match &self.finish_reason {
            Some(f) => f.clone(),
            None => owned("stop"),
        };
        Ok(LlamaOutput { finish_reason: finish, tool_calls: calls })
    }
}

/// What the end of the stream gives: a last unterminated event is applied,
/// then a stream that never named a finish reason is an error.
pub open spec fn final_of(st: SseAbs) -> Result<(Seq<char>, Seq<Parts>), LErr> {
    if st.0 is None {
        Err(early_end_error())
    } else {
        output_of(st)
    }
}

pub open spec fn end_of_stream(buf: Seq<u8>, st: SseAbs) -> (Seq<Seq<char>>, Result<
    (Seq<char>, Seq<Parts>),
    LErr,
>) {
    if buf.len() == 0 {
        (Seq::empty(), final_of(st))
    } else {
        match event_step(buf, st) {
            Err(e) => (Seq::empty(), Err(e)),
            Ok((_, delta, st2)) => (
                match delta {
                    Some(t) => seq![t],
                    None => Seq::empty(),
                },
                final_of(st2),
            ),
        }
    }
}

pub open spec fn run_end_is(o: SseOutcome, e: RunEnd) -> bool {
    match e {
        RunEnd::Continue => o is Continue,
        RunEnd::Finish(r) => outcome_is(o, r),
        RunEnd::Fail(x) => o matches SseOutcome::Failed(err) && error_is(err, x),
    }
}

impl SseState {
    /// Takes a chunk of the stream: refuses a buffer past the event limit,
    /// then applies every complete event in order.
    pub fn push_chunk(&mut self, chunk: &[u8]) -> (r: SseProgress)
        ensures
            ({
                let buf = old(self).buffered() + chunk@;
                &&& buf.len() > MAX_SSE_EVENT_BYTES ==> (r.deltas@.len() == 0 && (
                r.outcome matches SseOutcome::Failed(e) && error_is(e, oversized_event_error())))
                &&& buf.len() <= MAX_SSE_EVENT_BYTES ==> ({
                    let run = sse_run(buf, old(self).abs());
                    &&& texts_view(r.deltas@) == run.0
                    &&& run_end_is(r.outcome, run.1)
                    &&& (run.1 is Continue ==> final(self).abs() == run.2 && final(self).buffered()
                        == run.3)
                })
            }),
    {
        let mut i: usize = 0;
        while i < chunk.len()
            invariant
                i <= chunk.len(),
                self.buffer@ == old(self).buffered() + chunk@.take(i as int),
                self.abs() == old(self).abs(),
            decreases chunk.len() - i,
        {
            self.buffer.push(chunk[i]);
            i = i + 1;
            assert(self.buffer@ =~= old(self).buffered() + chunk@.take(i as int));
        }
        assert(chunk@.take(chunk.len() as int) =~= chunk@);
        let mut deltas: Vec<String> = Vec::new();
        if self.buffer.len() > MAX_SSE_EVENT_BYTES {
            return SseProgress {
                deltas,
                outcome: SseOutcome::Failed(
                    llama_error(
                        ProviderErrorCode::MalformedResponse,
                        "local inference SSE event exceeded size limit",
                        false,
                    ),
                ),
            };
        }
        let ghost total = sse_run(self.buffer@, self.abs());
        assert(texts_view(deltas@) =~= Seq::<Seq<char>>::empty());
        assert(total.0 =~= texts_view(deltas@) + total.0);
        loop
            invariant
                total == sse_run(old(self).buffered() + chunk@, old(self).abs()),
                (old(self).buffered() + chunk@).len() <= MAX_SSE_EVENT_BYTES,
                ({
                    let now = sse_run(self.buffer@, self.abs());
                    &&& total.0 == texts_view(deltas@) + now.0
                    &&& total.1 == now.1
                    &&& total.2 == now.2
                    &&& total.3 == now.3
                }),
            decreases self.buffer@.len(),
        {
            let ghost b = self.buffer@;
            let ghost st = self.abs();
            let ev = match take_sse_event(&mut self.buffer) {
                None => {
                    assert(texts_view(deltas@) + Seq::<Seq<char>>::empty() =~= texts_view(deltas@));
                    return SseProgress { deltas, outcome: SseOutcome::Continue };
                },
                Some(e) => e,
            };
            proof {
                lemma_event_end_bounds(b);
                assert(self.abs() == st);
            }
            match self.process_event(ev.as_slice()) {
                Err(e) => {
                    assert(texts_view(deltas@) + Seq::<Seq<char>>::empty() =~= texts_view(deltas@));
                    return SseProgress { deltas, outcome: SseOutcome::Failed(e) };
                },
                Ok((done, delta)) => {
                    let ghost before = deltas@;
                    match delta {
                        Some(t) => {
                            deltas.push(t);
                            assert(texts_view(deltas@) =~= texts_view(before).push(t@));
                        },
                        None => {},
                    }
                    let ghost d: Seq<Seq<char>> = match opt_view(delta) {
                        Some(t) => seq![t],
                        None => Seq::empty(),
                    };
                    assert(texts_view(deltas@) =~= texts_view(before) + d);
                    if done {
                        let out = self.output();
                        assert(texts_view(deltas@) + Seq::<Seq<char>>::empty() =~= texts_view(
                            deltas@,
                        ));
                        return match out {
                            Ok(o) => SseProgress { deltas, outcome: SseOutcome::Done(o) },
                            Err(e) => SseProgress { deltas, outcome: SseOutcome::Failed(e) },
                        };
                    }
                    proof {
                        let now = sse_run(self.buffer@, self.abs());
                        assert(texts_view(before) + (d + now.0) =~= texts_view(deltas@) + now.0);
                    }
                },
            }
        }
    }

    /// The end of the stream: applies what is left in the buffer as a last
    /// event, then gives the output.
    pub fn end_stream(&mut self) -> (r: SseProgress)
        ensures
            ({
                let e = end_of_stream(old(self).buffered(), old(self).abs());
                &&& texts_view(r.deltas@) == e.0
                &&& outcome_is(r.outcome, e.1)
            }),
    {
        let mut deltas: Vec<String> = Vec::new();
        if self.buffer.len() > 0 {
            let rest = copy_range(self.buffer.as_slice(), 0, self.buffer.len());
            assert(rest@ =~= self.buffer@);
            match self.process_event(rest.as_slice()) {
                Err(e) => {
                    assert(texts_view(deltas@) =~= Seq::<Seq<char>>::empty());
                    return SseProgress { deltas, outcome: SseOutcome::Failed(e) };
                },
                Ok((_, delta)) => {
                    match delta {
                        Some(t) => {
                            deltas.push(t);
                        },
                        None => {},
                    }
                },
            }
        }
        assert(deltas@.len() == 0 ==> texts_view(deltas@) =~= Seq::<Seq<char>>::empty());
        assert(deltas@.len() == 1 ==> texts_view(deltas@) =~= seq![deltas@[0]@]);
        if self.finish_reason.is_none() {
            return SseProgress {
                deltas,
                outcome: SseOutcome::Failed(
                    llama_error(
                        ProviderErrorCode::ProcessFailure,
                        "local inference stream ended before a terminal event",
                        true,
                    ),
                ),
            };
        }
        match self.output() {
            Ok(o) => SseProgress { deltas, outcome: SseOutcome::Done(o) },
            Err(e) => SseProgress { deltas, outcome: SseOutcome::Failed(e) },
        }
    }
}

// ---------------------------------------------------------------------------
// A whole (non-streamed) answer.
// ---------------------------------------------------------------------------

pub open spec fn bad_json_error() -> LErr {
    (ProviderErrorCode::MalformedResponse, "local inference returned malformed JSON"@, false)
}

/// The tool calls `k..m` of a whole answer, or the error of the first one
/// that lacks an id or a name or whose arguments are too long or not JSON.
pub open spec fn answer_calls(doc: Seq<u8>, k: int, m: int) -> Result<Seq<Parts>, LErr>
    decreases m - k,
{
    if k >= m {
        Ok(Seq::empty())
    } else {
        let base = call_base("/choices/0/message/tool_calls/"@, k);
        let id = or_empty(json_text_at(doc, base + "/id"@));
        let name = or_empty(json_text_at(doc, base + "/function/name"@));
        let args = or_empty(json_text_at(doc, base + "/function/arguments"@));
        if id.len() == 0 || name.len() == 0 || utf8_len(args) > MAX_TOOL_ARGUMENT_BYTES
            || !json_parses(vstd::utf8::encode_utf8(args)) {
            Err(invalid_call_error())
        } else {
            match answer_calls(doc, k + 1, m) {
                Err(e) => Err(e),
                Ok(r) => Ok(seq![(id, name, args)] + r),
            }
        }
    }
}

/// What a whole answer reads as: the text it passes on (if any), then its
/// output or error.
pub open spec fn answer_of(doc: Seq<u8>) -> (Option<Seq<char>>, Result<(Seq<char>, Seq<Parts>), LErr>) {
    if !json_parses(doc) {
        (None, Err(bad_json_error()))
    } else if json_present_at(doc, "/error"@) {
        (None, Err(json_error_of(doc)))
    } else if !(json_array_len_at(doc, "/choices"@) matches Some(n) && n > 0) {
        (None, Err(no_choices_error()))
    } else {
        let content = json_text_at(doc, "/choices/0/message/content"@);
        let fresh = content matches Some(c) && c.len() > 0;
        let delta = if fresh {
            content
        } else {
            None
        };
        let calls = match json_array_len_at(doc, "/choices/0/message/tool_calls"@) {
            None => Ok(Seq::empty()),
            Some(m) => answer_calls(doc, 0, m as int),
        };
        match calls {
            Err(e) => (delta, Err(e)),
            Ok(cs) => if !fresh && cs.len() == 0 {
                (delta, Err(no_answer_error()))
            } else {
                (
                    delta,
                    Ok(
                        (
                            match json_text_at(doc, "/choices/0/finish_reason"@) {
                                Some(f) => f,
                                None => "stop"@,
                            },
                            cs,
                        ),
                    ),
                )
            },
        }
    }
}

pub struct Answer {
    /// The text to pass on before the result.
    pub delta: Option<String>,
    pub result: Result<LlamaOutput, LlamaError>,
}

/// Reads a whole (non-streamed) answer.
pub fn parse_non_stream_response(body: &[u8]) -> (r: Answer)
    ensures
        opt_view(r.delta) == answer_of(body@).0,
        match answer_of(body@).1 {
            Ok(v) => r.result matches Ok(o) && output_is(o, v),
            Err(e) => r.result matches Err(x) && error_is(x, e),
        },
{
    if !json_doc_parses(body) {
        return Answer {
            delta: None,
            result: Err(
                llama_error(
                    ProviderErrorCode::MalformedResponse,
                    "local inference returned malformed JSON",
                    false,
                ),
            ),
        };
    }
    if json_present(body, "/error") {
        return Answer { delta: None, result: Err(provider_json_error(body)) };
    }
    let has_choice = match json_array_len(body, "/choices") {
        Some(n) => n > 0,
        None => false,
    };
    if !has_choice {
        return Answer {
            delta: None,
            result: Err(
                llama_error(
                    ProviderErrorCode::MalformedResponse,
                    "local inference response omitted choices",
                    false,
                ),
            ),
        };
    }
    let content = json_text(body, "/choices/0/message/content");
    let mut fresh = false;
    let mut delta: Option<String> = None;
    match content {
        Some(c) => {
            let cc = chars_of(c.as_str());
            if cc.len() > 0 {
                fresh = true;
                delta = Some(c);
            }
        },
        None => {},
    }
    let ghost doc = body@;
    let mut calls: Vec<BrokerToolCall> = Vec::new();
    let m: usize = match json_array_len(body, "/choices/0/message/tool_calls") {
        Some(m) => m,
        None => 0,
    };
    let ghost want = match json_array_len_at(doc, "/choices/0/message/tool_calls"@) {
        None => Ok(Seq::<Parts>::empty()),
        Some(mm) => answer_calls(doc, 0, mm as int),
    };
    assert(want == answer_calls(doc, 0, m as int));
    let mut k: usize = 0;
    assert(calls_view(calls@) =~= Seq::<Parts>::empty());
    proof {
        if let Ok(r) = answer_calls(doc, 0, m as int) {
            assert(calls_view(calls@) + r =~= r);
        }
    }
    while k < m
        invariant
            k <= m,
            doc == body@,
            json_parses(doc),
            !json_present_at(doc, "/error"@),
            json_array_len_at(doc, "/choices"@) matches Some(n) && n > 0,
            fresh == (json_text_at(doc, "/choices/0/message/content"@) matches Some(c) && c.len()
                > 0),
            opt_view(delta) == (if fresh {
                json_text_at(doc, "/choices/0/message/content"@)
            } else {
                None
            }),
            (match json_array_len_at(doc, "/choices/0/message/tool_calls"@) {
                None => Ok(Seq::<Parts>::empty()),
                Some(mm) => answer_calls(doc, 0, mm as int),
            }) == answer_calls(doc, 0, m as int),
            answer_calls(doc, 0, m as int) == match answer_calls(doc, k as int, m as int) {
                Err(e) => Err(e),
                Ok(rest) => Ok(calls_view(calls@) + rest),
            },
        decreases m - k,
    {
        let base = crate::providers::adapter::indexed("/choices/0/message/tool_calls/", k);
        let id = match json_text(body, concat(base.as_str(), "/id").as_str()) {
            Some(x) => x,
            None => String::new(),
        };
        let name = match json_text(body, concat(base.as_str(), "/function/name").as_str()) {
            Some(x) => x,
            None => String::new(),
        };
        let args = match json_text(body, concat(base.as_str(), "/function/arguments").as_str()) {
            Some(x) => x,
            None => String::new(),
        };
        let idc = chars_of(id.as_str());
        let namec = chars_of(name.as_str());
        let argc = chars_of(args.as_str());
        if idc.len() == 0 || namec.len() == 0 || utf8_len_sat(argc.as_slice())
            > MAX_TOOL_ARGUMENT_BYTES || !json_doc_parses(text_bytes(&args)) {
            return Answer {
                delta,
                result: Err(
                    llama_error(
                        ProviderErrorCode::MalformedResponse,
                        "local inference returned an invalid tool call",
                        false,
                    ),
                ),
            };
        }
        let ghost p = (id@, name@, args@);
        let ghost before = calls@;
        calls.push(BrokerToolCall { id, name, arguments: args });
        proof {
            assert(calls_view(calls@) =~= calls_view(before).push(p));
            if let Ok(r) = answer_calls(doc, k + 1, m as int) {
                assert(calls_view(before) + (seq![p] + r) =~= calls_view(calls@) + r);
            }
        }
        k = k + 1;
    }
    assert(calls_view(calls@) + Seq::<Parts>::empty() =~= calls_view(calls@));
    if !fresh && calls.len() == 0 {
        return Answer {
            delta,
            result: Err(
                llama_error(
                    ProviderErrorCode::MalformedResponse,
                    "local inference produced no answer; if the model is a reasoning model, set SENTIA_REASONING=off or raise the token budget",
                    false,
                ),
            ),
        };
    }
    let finish = match json_text(body, "/choices/0/finish_reason") {
        Some(f) => f,
        None => owned("stop"),
    };
    Answer { delta, result: Ok(LlamaOutput { finish_reason: finish, tool_calls: calls }) }
}

/// What `String::from_utf8_lossy` makes of the bytes.
pub uninterp spec fn utf8_lossy(bytes: Seq<u8>) -> Seq<char>;

/// `String::from_utf8_lossy`: the text of the bytes, with each invalid
/// sequence replaced; valid UTF-8 is decoded as it is.
#[verifier::external_body]
pub(crate) fn lossy_text(bytes: &[u8]) -> (r: String)
    ensures
        r@ == utf8_lossy(bytes@),
        vstd::utf8::valid_utf8(bytes@) ==> r@ == vstd::utf8::decode_utf8(bytes@),
{
    String::from_utf8_lossy(bytes).into_owned()
}

/// The status a health body reports: its JSON `status` string, or else the
/// body's text, trimmed.
pub open spec fn health_text_of(body: Seq<u8>) -> Seq<char> {
    match json_text_at(body, "/status"@) {
        Some(t) => t,
        None => crate::text::trim(utf8_lossy(body)),
    }
}

pub fn health_status_text(body: &[u8]) -> (r: String)
    ensures
        r@ == health_text_of(body@),
{
    match json_text(body, "/status") {
        Some(t) => t,
        None => {
            let l = lossy_text(body);
            let c = chars_of(l.as_str());
            let (a, b) = crate::text::trim_bounds(c.as_slice(), 0, c.len());
            assert(c@.subrange(0, c@.len() as int) =~= c@);
            let t = crate::text::slice_of(c.as_slice(), a, b);
            string_of(t.as_slice())
        },
    }
}

/// The client of the local llama.cpp backend: it knows the backend's
/// socket, model and time limits from the configuration.
pub struct LlamaClient {
    config: BrokerConfig,
}

impl LlamaClient {
    pub fn new(config: BrokerConfig) -> (r: Self)
        ensures
            r.config_view() == config,
    {
        LlamaClient { config }
    }

    pub closed spec fn config_view(&self) -> BrokerConfig {
        self.config
    }

    pub fn config(&self) -> (r: &BrokerConfig)
        ensures
            *r == self.config_view(),
    {
        &self.config
    }
}

} // verus!
