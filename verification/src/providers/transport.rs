//! The rules of the HTTPS exchange with a provider: the destination
//! allowlist, the body limit, the content type, and how a finished exchange
//! becomes a response or a typed error.
use super::adapter::{classify_http_error, http_error_of, parse_success, success_outcome};
use super::error::{malformed_message, provider_error_is, ProviderError, ProviderErrorKind};
use super::protocol::{InferenceResponse, ProviderId, MAX_RESPONSE_BYTES};
use crate::text::{
    chars_contains, chars_ends_with, chars_eq, chars_of, chars_starts_with, contains, ends_with,
    find_from, index_of, lower_chars, lower_seq, parse_u64, parse_u64_chars, slice_of, starts_with,
    trim, trim_bounds,
};
use vstd::prelude::*;

verus! {

/// The parts of a parsed URL that the allowlist reads.
#[derive(Debug, Clone, PartialEq, Eq)]
pub struct UrlParts {
    pub scheme: String,
    pub host: Option<String>,
    pub port: Option<u16>,
    pub username: String,
    pub has_password: bool,
    pub path: String,
    pub has_query: bool,
    pub has_fragment: bool,
}

pub open spec fn opt_chars(o: Option<String>) -> Option<Seq<char>> {
    match o {
        Some(s) => Some(s@),
        None => None,
    }
}

impl View for UrlParts {
    type V = (Seq<char>, Option<Seq<char>>, Option<u16>, Seq<char>, bool, Seq<char>, bool, bool);

    open spec fn view(&self) -> Self::V {
        (
            self.scheme@,
            opt_chars(self.host),
            self.port,
            self.username@,
            self.has_password,
            self.path@,
            self.has_query,
            self.has_fragment,
        )
    }
}

/// What `url::Url::parse` makes of a text, read as its scheme, host, port,
/// user name, whether it has a password, path, and whether it has a query
/// and a fragment; none where it refuses the text.
pub uninterp spec fn url_parsed(
    text: Seq<char>,
) -> Option<(Seq<char>, Option<Seq<char>>, Option<u16>, Seq<char>, bool, Seq<char>, bool, bool)>;

/// `url::Url::parse`, then `scheme`, `host_str`, `port`, `username`,
/// `password`, `path`, `query` and `fragment`. The parts are what the
/// parser gives; no property of the URL grammar is claimed.
#[verifier::external_body]
fn parse_url_parts(text: &str) -> (r: Option<UrlParts>)
    ensures
        match r {
            Some(u) => url_parsed(text@) == Some(u@),
            None => url_parsed(text@) is None,
        },
{
    let u = url::Url::parse(text).ok()?;
    Some(UrlParts {
        scheme: u.scheme().to_owned(),
        host: u.host_str().map(str::to_owned),
        port: u.port(),
        username: u.username().to_owned(),
        has_password: u.password().is_some(),
        path: u.path().to_owned(),
        has_query: u.query().is_some(),
        has_fragment: u.fragment().is_some(),
    })
}

impl UrlParts {
    /// Parses a URL.
    pub fn parse(text: &str) -> (r: Option<UrlParts>)
        ensures
            match r {
                Some(u) => url_parsed(text@) == Some(u@),
                None => url_parsed(text@) is None,
            },
    {
        parse_url_parts(text)
    }
}

/// The one host and path that each provider may be reached at, over plain
/// HTTPS on the default port, with no credentials in the URL, no query and
/// no fragment.
pub open spec fn destination_allowed(provider: ProviderId, u: UrlParts) -> bool {
    &&& u.scheme@ == "https"@
    &&& u.port is None
    &&& u.username@.len() == 0
    &&& !u.has_password
    &&& !u.has_query
    &&& !u.has_fragment
    &&& match provider {
        ProviderId::OpenAi => opt_chars(u.host) == Some("api.openai.com"@) && u.path@
            == "/v1/responses"@,
        ProviderId::Anthropic => opt_chars(u.host) == Some("api.anthropic.com"@) && u.path@
            == "/v1/messages"@,
        ProviderId::Gemini => opt_chars(u.host) == Some("generativelanguage.googleapis.com"@)
            && starts_with(u.path@, "/v1beta/models/"@) && ends_with(u.path@, ":generateContent"@),
        ProviderId::Xai => opt_chars(u.host) == Some("api.x.ai"@) && u.path@ == "/v1/responses"@,
        ProviderId::DeepSeek => opt_chars(u.host) == Some("api.deepseek.com"@) && u.path@
            == "/chat/completions"@,
    }
}

pub open spec fn is_destination_error(e: ProviderError) -> bool {
    provider_error_is(
        e,
        ProviderErrorKind::Network,
        "destination_not_allowlisted"@,
        "The provider destination is not allowlisted."@,
        false,
    )
}

pub fn destination_error() -> (r: ProviderError)
    ensures
        is_destination_error(r),
{
    ProviderError::new(
        ProviderErrorKind::Network,
        "destination_not_allowlisted",
        "The provider destination is not allowlisted.",
        false,
    )
}

fn same(s: &String, w: &str) -> (r: bool)
    ensures
        r == (s@ == w@),
{
    let a = chars_of(s.as_str());
    let b = chars_of(w);
    chars_eq(a.as_slice(), b.as_slice())
}

fn host_is(h: &Option<String>, w: &str) -> (r: bool)
    ensures
        r == (opt_chars(*h) == Some(w@)),
{
    match h {
        Some(s) => same(s, w),
        None => false,
    }
}

/// Refuses every destination but the provider's own endpoint.
pub fn validate_destination(provider: ProviderId, url: &UrlParts) -> (r: Result<(), ProviderError>)
    ensures
        r is Ok <==> destination_allowed(provider, *url),
        r matches Err(e) ==> is_destination_error(e),
{
    let user = chars_of(url.username.as_str());
    if !same(&url.scheme, "https") || url.port.is_some() || user.len() != 0 || url.has_password
        || url.has_query || url.has_fragment {
        return Err(destination_error());
    }
    let allowed = match provider {
        ProviderId::OpenAi => host_is(&url.host, "api.openai.com") && same(
            &url.path,
            "/v1/responses",
        ),
        ProviderId::Anthropic => host_is(&url.host, "api.anthropic.com") && same(
            &url.path,
            "/v1/messages",
        ),
        ProviderId::Gemini => {
            let p = chars_of(url.path.as_str());
            let pre = chars_of("/v1beta/models/");
            let suf = chars_of(":generateContent");
            host_is(&url.host, "generativelanguage.googleapis.com") && chars_starts_with(
                p.as_slice(),
                pre.as_slice(),
            ) && chars_ends_with(p.as_slice(), suf.as_slice())
        },
        ProviderId::Xai => host_is(&url.host, "api.x.ai") && same(&url.path, "/v1/responses"),
        ProviderId::DeepSeek => host_is(&url.host, "api.deepseek.com") && same(
            &url.path,
            "/chat/completions",
        ),
    };
    if allowed {
        Ok(())
    } else {
        Err(destination_error())
    }
}

/// Parses an endpoint and checks it against the allowlist; an endpoint
/// that does not parse is refused too.
pub fn validate_endpoint(provider: ProviderId, endpoint: &str) -> (r: Result<(), ProviderError>)
    ensures
        r is Ok <==> exists|u: UrlParts|
            url_parsed(endpoint@) == Some(u@) && #[trigger] destination_allowed(provider, u),
        r matches Err(e) ==> is_destination_error(e),
{
    match UrlParts::parse(endpoint) {
        Some(u) => {
            let r = validate_destination(provider, &u);
            proof {
                if r is Err {
                    assert forall|v: UrlParts|
                        url_parsed(endpoint@) == Some(v@) implies !#[trigger] destination_allowed(
                        provider,
                        v,
                    ) by {
                        assert(v@ == u@);
                        assert(v.scheme@ == u.scheme@ && opt_chars(v.host) == opt_chars(u.host)
                            && v.username@ == u.username@ && v.path@ == u.path@);
                    }
                }
            }
            r
        },
        None => Err(destination_error()),
    }
}

/// A transport failure, as its kind, code, message and retry flag: a
/// timeout, a name that did not resolve (by the failure's own words), or
/// any other network failure.
pub open spec fn transport_failure(timed_out: bool, description: Seq<char>) -> (
    ProviderErrorKind,
    Seq<char>,
    Seq<char>,
    bool,
) {
    let d = lower_seq(description);
    if timed_out {
        (ProviderErrorKind::Timeout, "transport_timeout"@, "The HTTPS transport timed out."@, true)
    } else if contains(d, "dns"@) || contains(d, "resolve"@) || contains(
        d,
        "name or service not known"@,
    ) {
        (
            ProviderErrorKind::Dns,
            "dns_failure"@,
            "The provider hostname could not be resolved."@,
            true,
        )
    } else {
        (
            ProviderErrorKind::Network,
            "network_failure"@,
            "The HTTPS connection to the provider failed."@,
            true,
        )
    }
}

/// Maps a transport failure, given by whether it was a timeout and by its
/// description, to a typed error that does not carry the description.
pub fn classify_transport_failure(timed_out: bool, description: &str) -> (r: ProviderError)
    ensures
        ({
            let t = transport_failure(timed_out, description@);
            provider_error_is(r, t.0, t.1, t.2, t.3)
        }),
{
    if timed_out {
        return ProviderError::new(
            ProviderErrorKind::Timeout,
            "transport_timeout",
            "The HTTPS transport timed out.",
            true,
        );
    }
    let c = chars_of(description);
    let d = lower_chars(c.as_slice());
    let w1 = chars_of("dns");
    let w2 = chars_of("resolve");
    let w3 = chars_of("name or service not known");
    if chars_contains(d.as_slice(), w1.as_slice()) || chars_contains(d.as_slice(), w2.as_slice())
        || chars_contains(d.as_slice(), w3.as_slice()) {
        ProviderError::new(
            ProviderErrorKind::Dns,
            "dns_failure",
            "The provider hostname could not be resolved.",
            true,
        )
    } else {
        ProviderError::new(
            ProviderErrorKind::Network,
            "network_failure",
            "The HTTPS connection to the provider failed.",
            true,
        )
    }
}

/// The media type of a `Content-Type` value: the text before the first `;`.
pub open spec fn media_type(v: Seq<char>) -> Seq<char> {
    v.take(index_of(v, ';'))
}

/// The content type is JSON: its media type, trimmed, is
/// `application/json` in any ASCII case.
pub open spec fn is_json_type(value: Option<Seq<char>>) -> bool {
    value matches Some(v) && lower_seq(trim(media_type(v))) == "application/json"@
}

pub fn is_json_content_type(value: Option<&str>) -> (r: bool)
    ensures
        r == is_json_type(
            match value {
                Some(v) => Some(v@),
                None => None,
            },
        ),
{
    match value {
        None => false,
        Some(v) => {
            let c = chars_of(v);
            let end = find_from(c.as_slice(), 0, ';');
            proof {
                crate::text::lemma_index_of_bounds(c@, ';');
                assert(c@.skip(0) =~= c@);
                assert(c@.subrange(0, index_of(c@, ';')) =~= c@.take(index_of(c@, ';')));
            }
            let (a, b) = trim_bounds(c.as_slice(), 0, end);
            let t = slice_of(c.as_slice(), a, b);
            let l = lower_chars(t.as_slice());
            let w = chars_of("application/json");
            chars_eq(l.as_slice(), w.as_slice())
        },
    }
}

/// The declared length of a body, when `Content-Length` is a number that
/// fits in a `usize`.
pub open spec fn declared_length(value: Option<Seq<char>>) -> Option<u64> {
    match value {
        Some(v) => match parse_u64(v) {
            Some(n) => if n <= usize::MAX {
                Some(n)
            } else {
                None
            },
            None => None,
        },
        None => None,
    }
}

pub open spec fn is_too_large(e: ProviderError) -> bool {
    provider_error_is(
        e,
        ProviderErrorKind::MalformedResponse,
        "response_too_large"@,
        malformed_message(),
        false,
    )
}

/// Refuses a body whose declared length exceeds the response limit.
pub fn check_declared_length(value: Option<&str>) -> (r: Result<(), ProviderError>)
    ensures
        r is Err <==> (declared_length(
            match value {
                Some(v) => Some(v@),
                None => None,
            },
        ) matches Some(n) && n > MAX_RESPONSE_BYTES),
        r matches Err(e) ==> is_too_large(e),
{
    match value {
        None => Ok(()),
        Some(v) => {
            let c = chars_of(v);
            match parse_u64_chars(c.as_slice()) {
                Some(n) => {
                    if n <= usize::MAX as u64 && n > MAX_RESPONSE_BYTES as u64 {
                        Err(ProviderError::malformed("response_too_large"))
                    } else {
                        Ok(())
                    }
                },
                None => Ok(()),
            }
        },
    }
}

/// A bounded response body: chunks are taken while the total stays within
/// the limit.
pub struct BoundedBody {
    bytes: Vec<u8>,
}

impl View for BoundedBody {
    type V = Seq<u8>;

    closed spec fn view(&self) -> Seq<u8> {
        self.bytes@
    }
}

impl BoundedBody {
    pub fn new() -> (r: Self)
        ensures
            r@ == Seq::<u8>::empty(),
    {
        BoundedBody { bytes: Vec::new() }
    }

    /// Takes a chunk, or refuses it (keeping nothing) when the total would
    /// exceed the response limit.
    pub fn push_chunk(&mut self, chunk: &[u8]) -> (r: Result<(), ProviderError>)
        ensures
            old(self)@.len() + chunk@.len() > MAX_RESPONSE_BYTES ==> (r matches Err(e)
                && is_too_large(e) && final(self)@.len() == 0),
            old(self)@.len() + chunk@.len() <= MAX_RESPONSE_BYTES ==> (r is Ok && final(self)@
                == old(self)@ + chunk@),
    {
        if self.bytes.len().saturating_add(chunk.len()) > MAX_RESPONSE_BYTES {
            self.bytes = Vec::new();
            return Err(ProviderError::malformed("response_too_large"));
        }
        let mut i: usize = 0;
        let ghost start = self.bytes@;
        while i < chunk.len()
            invariant
                i <= chunk.len(),
                self.bytes@ == start + chunk@.take(i as int),
            decreases chunk.len() - i,
        {
            self.bytes.push(chunk[i]);
            i = i + 1;
            assert(self.bytes@ =~= start + chunk@.take(i as int));
        }
        assert(chunk@.take(chunk.len() as int) =~= chunk@);
        Ok(())
    }

    pub fn as_slice(&self) -> (r: &[u8])
        ensures
            r@ == self@,
    {
        self.bytes.as_slice()
    }
}

/// What a finished exchange gives: a redirect is refused, a success must be
/// JSON and is read under the provider's contract, and any other status is
/// classified. The response names the provider and the requested model.
pub open spec fn exchange_outcome(
    provider: ProviderId,
    model: Seq<char>,
    status: u16,
    is_json: bool,
    body: Seq<u8>,
    r: Result<InferenceResponse, ProviderError>,
) -> bool {
    if 300 <= status <= 399 {
        r matches Err(e) && provider_error_is(
            e,
            ProviderErrorKind::Network,
            "unexpected_redirect"@,
            "The provider attempted an unexpected redirect."@,
            false,
        )
    } else if 200 <= status <= 299 {
        if !is_json {
            r matches Err(e) && provider_error_is(
                e,
                ProviderErrorKind::MalformedResponse,
                "unexpected_content_type"@,
                malformed_message(),
                false,
            )
        } else {
            match success_outcome(provider, body) {
                Ok(p) => r matches Ok(v) && v.provider == provider && v.requested_model@ == model
                    && v.text@ == p.0 && v.finish_reason == p.1 && v.incomplete == p.2 && v.usage
                    == p.3,
                Err(f) => r matches Err(e) && provider_error_is(e, f.0, f.1, f.2, false),
            }
        }
    } else {
        r matches Err(e) && ({
            let t = http_error_of(status, body);
            provider_error_is(e, t.0, t.1, t.2, t.3)
        })
    }
}

/// Turns a finished exchange (status, whether the body was declared JSON,
/// and the body) into a response or a typed error.
pub fn finish_exchange(
    provider: ProviderId,
    model: String,
    status: u16,
    is_json: bool,
    body: &[u8],
) -> (r: Result<InferenceResponse, ProviderError>)
    ensures
        exchange_outcome(provider, model@, status, is_json, body@, r),
{
    if 300 <= status && status <= 399 {
        return Err(
            ProviderError::new(
                ProviderErrorKind::Network,
                "unexpected_redirect",
                "The provider attempted an unexpected redirect.",
                false,
            ),
        );
    }
    if 200 <= status && status <= 299 {
        if !is_json {
            return Err(ProviderError::malformed("unexpected_content_type"));
        }
        match parse_success(provider, body) {
            Ok(p) => Ok(
                InferenceResponse {
                    provider,
                    requested_model: model,
                    text: p.text,
                    finish_reason: p.finish_reason,
                    incomplete: p.incomplete,
                    usage: p.usage,
                },
            ),
            Err(e) => Err(e),
        }
    } else {
        Err(classify_http_error(status, body))
    }
}

/// The error for a request that outlived its deadline.
pub fn request_timeout() -> (r: ProviderError)
    ensures
        provider_error_is(
            r,
            ProviderErrorKind::Timeout,
            "request_timeout"@,
            "The provider request exceeded its configured deadline."@,
            true,
        ),
{
    ProviderError::new(
        ProviderErrorKind::Timeout,
        "request_timeout",
        "The provider request exceeded its configured deadline.",
        true,
    )
}

} // verus!
