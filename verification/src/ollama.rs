//! Typed Ollama API integration.
//!
//! Discovers Ollama models through documented endpoints. The integration does
//! **not** provide exact K/V access: the standard Ollama HTTP API exposes
//! neither per-layer K/V tensors nor deterministic page replay, so
//! [`OllamaClient::require_exact_kv_access`] fails closed.
//!
//! Requests go through an injected [`OllamaTransport`]; responses are checked
//! for a success status here, and their JSON documents are read by the caller.

use vstd::prelude::*;
use vstd::string::StringExecFns;
use crate::json::{embed_body, generate_body, show_body};
use crate::text::{chars_of, chars_match, decimal_spec, push_decimal, trim_bounds, trim_spec};

verus! {

/// Default base URL for a locally running Ollama service.
pub const DEFAULT_OLLAMA_BASE_URL: &'static str = "http://localhost:11434";

/// HTTP method accepted by an [`OllamaTransport`].
#[derive(Debug, Clone, Copy, PartialEq, Eq, Structural)]
pub enum HttpMethod {
    /// A retrieval request.
    Get,
    /// A JSON submission request.
    Post,
}

/// One transport request constructed by [`OllamaClient`].
#[derive(Debug, Clone, PartialEq, Eq)]
pub struct OllamaRequest {
    /// HTTP verb.
    pub method: HttpMethod,
    /// Absolute request URL.
    pub url: String,
    /// Optional UTF-8 JSON request body.
    pub body: Option<String>,
}

/// One transport response returned to [`OllamaClient`].
#[derive(Debug, Clone, PartialEq, Eq)]
pub struct OllamaResponse {
    /// HTTP status code.
    pub status: u16,
    /// UTF-8 response body.
    pub body: String,
}

/// Error returned by the Ollama integration layer.
#[derive(Debug, Clone, PartialEq, Eq)]
pub enum OllamaError {
    /// The configured base URL is not a supported HTTP(S) URL.
    InvalidBaseUrl(String),
    /// The injected transport could not perform the request.
    Transport(String),
    /// Ollama returned a non-success HTTP status.
    HttpStatus {
        /// HTTP status code.
        status: u16,
        /// Response text returned by the service.
        body: String,
    },
    /// A response did not match the documented envelope.
    Decode(String),
    /// The public Ollama API does not provide the exact K/V tensor contract.
    ExactKvAccessUnavailable,
}

/// The human-readable description of an error.
pub open spec fn describe_spec(e: OllamaError) -> Seq<char> {
    match e {
        OllamaError::InvalidBaseUrl(url) => "invalid Ollama base URL: "@ + url@,
        OllamaError::Transport(error) => "Ollama transport error: "@ + error@,
        OllamaError::HttpStatus { status, body } => "Ollama returned HTTP "@ + decimal_spec(
            status as nat,
        ) + ": "@ + body@,
        OllamaError::Decode(error) => "cannot decode Ollama response: "@ + error@,
        OllamaError::ExactKvAccessUnavailable =>
            "the public Ollama API does not expose exact per-layer K/V tensors or page replay"@,
    }
}

impl OllamaError {
    /// Human-readable description of the error.
    pub fn describe(&self) -> (text: String)
        ensures
            text@ == describe_spec(*self),
    {
        match self {
            OllamaError::InvalidBaseUrl(url) => {
                let mut s = String::from_str("invalid Ollama base URL: ");
                s.append(url.as_str());
                s
            },
            OllamaError::Transport(error) => {
                let mut s = String::from_str("Ollama transport error: ");
                s.append(error.as_str());
                s
            },
            OllamaError::HttpStatus { status, body } => {
                let mut s = String::from_str("Ollama returned HTTP ");
                push_decimal(&mut s, *status as u64);
                s.append(": ");
                s.append(body.as_str());
                s
            },
            OllamaError::Decode(error) => {
                let mut s = String::from_str("cannot decode Ollama response: ");
                s.append(error.as_str());
                s
            },
            OllamaError::ExactKvAccessUnavailable => String::from_str(
                "the public Ollama API does not expose exact per-layer K/V tensors or page replay",
            ),
        }
    }
}

/// Minimal HTTP boundary used by [`OllamaClient`].
///
/// Production callers use a blocking socket transport; tests may provide a
/// deterministic in-memory implementation without starting Ollama.
pub trait OllamaTransport {
    /// Whether `reply` is a possible outcome of sending `request` through
    /// this transport. Unless a transport says more, every outcome is.
    open spec fn spec_sent(
        &self,
        request: OllamaRequest,
        reply: core::result::Result<OllamaResponse, OllamaError>,
    ) -> bool {
        true
    }

    /// Sends one fully formed request and returns the raw response.
    fn send(&self, request: &OllamaRequest) -> (reply: core::result::Result<OllamaResponse, OllamaError>)
        ensures
            self.spec_sent(*request, reply),
    ;
}

/// What a client returns for a transport's reply: the body of a successful
/// response, an error carrying the status and body of any other response,
/// and a transport error unchanged.
pub open spec fn reply_body(reply: core::result::Result<OllamaResponse, OllamaError>) -> core::result::Result<
    String,
    OllamaError,
> {
    match reply {
        Ok(response) => if is_success(response.status) {
            Ok(response.body)
        } else {
            Err(OllamaError::HttpStatus { status: response.status, body: response.body })
        },
        Err(e) => Err(e),
    }
}

/// Model information reported by `GET /api/tags`.
#[derive(Debug, Clone, PartialEq, Eq)]
pub struct OllamaModelSummary {
    /// Locally installed model name.
    pub name: String,
    /// Canonical model identifier, when returned by Ollama.
    pub model: Option<String>,
    /// SHA-256 digest reported by Ollama.
    pub digest: Option<String>,
    /// Model size on disk in bytes.
    pub size: Option<u64>,
    /// High-level model details.
    pub details: OllamaModelDetails,
}

/// High-level model identity returned by Ollama.
#[derive(Debug, Clone, PartialEq, Eq)]
pub struct OllamaModelDetails {
    /// Model file format, for example `gguf`.
    pub format: Option<String>,
    /// Primary model family.
    pub family: Option<String>,
    /// All reported model families.
    pub families: Vec<String>,
    /// Human-readable parameter-size label.
    pub parameter_size: Option<String>,
    /// Quantization label.
    pub quantization_level: Option<String>,
}

impl Default for OllamaModelDetails {
    fn default() -> (d: Self)
        ensures
            d.format is None,
            d.family is None,
            d.families@.len() == 0,
            d.parameter_size is None,
            d.quantization_level is None,
    {
        OllamaModelDetails {
            format: None,
            family: None,
            families: Vec::new(),
            parameter_size: None,
            quantization_level: None,
        }
    }
}

/// Attention topology inferred from documented `model_info` values.
#[derive(Debug, Clone, PartialEq, Eq)]
pub struct OllamaAttentionTopology {
    /// Model architecture prefix, for example `llama` or `gemma4`.
    pub architecture: Option<String>,
    /// Transformer block count, when reported.
    pub block_count: Option<u64>,
    /// Query-head count, when reported.
    pub query_heads: Option<u64>,
    /// K/V-head count, when reported.
    pub kv_heads: Option<u64>,
    /// Context capacity, when reported.
    pub context_length: Option<u64>,
    /// RoPE dimension, when reported.
    pub rope_dimension_count: Option<u64>,
}

impl Default for OllamaAttentionTopology {
    fn default() -> (t: Self)
        ensures
            t.architecture is None,
            t.block_count is None,
            t.query_heads is None,
            t.kv_heads is None,
            t.context_length is None,
            t.rope_dimension_count is None,
    {
        OllamaAttentionTopology {
            architecture: None,
            block_count: None,
            query_heads: None,
            kv_heads: None,
            context_length: None,
            rope_dimension_count: None,
        }
    }
}

/// Exact K/V access status for a discovered Ollama runtime.
#[derive(Debug, Clone, Copy, PartialEq, Eq, Structural)]
pub enum ExactKvAccess {
    /// The documented public endpoint does not expose K/V tensors or replay.
    UnavailableThroughPublicApi,
}

/// Non-streaming documented `POST /api/generate` request.
#[derive(Debug, Clone, PartialEq, Eq)]
pub struct GenerateRequest {
    /// Target Ollama model name.
    pub model: String,
    /// Prompt sent to the model.
    pub prompt: String,
    /// Optional model residency duration, for example `5m` or `0`.
    pub keep_alive: Option<String>,
    /// Optional context-window size sent as `options.num_ctx`.
    pub num_ctx: Option<u64>,
}

/// Selected fields from the final non-streaming generate response.
#[derive(Debug, Clone, PartialEq, Eq)]
pub struct GenerateResponse {
    /// Model name that handled the request.
    pub model: String,
    /// Generated response text.
    pub response: String,
    /// Whether Ollama marked the response complete.
    pub done: bool,
    /// Input-token count, when returned by Ollama.
    pub prompt_eval_count: Option<u64>,
    /// Generated-token count, when returned by Ollama.
    pub eval_count: Option<u64>,
}

/// Documented `POST /api/embed` request.
#[derive(Debug, Clone, PartialEq, Eq)]
pub struct EmbedRequest {
    /// Target Ollama embedding model name.
    pub model: String,
    /// One or more texts to embed.
    pub input: Vec<String>,
    /// Whether Ollama may truncate oversized input.
    pub truncate: bool,
    /// Optional output embedding dimensions.
    pub dimensions: Option<u64>,
    /// Optional model residency duration.
    pub keep_alive: Option<String>,
}

/// `s` ends with no `/`.
pub open spec fn strip_trailing_slashes(s: Seq<char>) -> Seq<char>
    decreases s.len(),
{
    if s.len() > 0 && s.last() == '/' {
        strip_trailing_slashes(s.drop_last())
    } else {
        s
    }
}

/// `s` starts with `prefix`.
pub open spec fn starts_with(s: Seq<char>, prefix: Seq<char>) -> bool {
    prefix.len() <= s.len() && s.take(prefix.len() as int) == prefix
}

/// The normalized base URL: trimmed, without trailing slashes, and with an
/// `http://` or `https://` scheme; `None` for any other URL.
pub open spec fn normalize_spec(url: Seq<char>) -> Option<Seq<char>> {
    let n = strip_trailing_slashes(trim_spec(url));
    if starts_with(n, "http://"@) || starts_with(n, "https://"@) {
        Some(n)
    } else {
        None
    }
}

proof fn lemma_strip_at(s: Seq<char>, lo: int, e: int, hi: int)
    requires
        0 <= lo <= e <= hi <= s.len(),
        forall|k: int| e <= k < hi ==> #[trigger] s[k] == '/',
        e == lo || s[e - 1] != '/',
    ensures
        strip_trailing_slashes(s.subrange(lo, hi)) == s.subrange(lo, e),
    decreases hi - e,
{
    if e < hi {
        assert(s.subrange(lo, hi).drop_last() =~= s.subrange(lo, hi - 1));
        lemma_strip_at(s, lo, e, hi - 1);
    } else {
        assert(s.subrange(lo, hi) =~= s.subrange(lo, e));
    }
}

/// Trims the base URL, removes trailing slashes and requires an HTTP(S) scheme.
pub fn normalize_base_url(base_url: String) -> (res: Result<String, OllamaError>)
    ensures
        match normalize_spec(base_url@) {
            Some(n) => res matches Ok(s) && s@ == n,
            None => res == Err::<String, OllamaError>(OllamaError::InvalidBaseUrl(base_url)),
        },
{
    let chars = chars_of(base_url.as_str());
    let (a, b) = trim_bounds(chars.as_slice(), 0, chars.len());
    proof {
        assert(chars@.subrange(0, chars@.len() as int) =~= base_url@);
    }
    let mut e = b;
    while e > a && chars[e - 1] == '/'
        invariant
            a <= e <= b <= chars@.len(),
            forall|k: int| e <= k < b ==> #[trigger] chars@[k] == '/',
        decreases e - a,
    {
        e -= 1;
    }
    proof {
        lemma_strip_at(chars@, a as int, e as int, b as int);
    }
    let ghost n = chars@.subrange(a as int, e as int);
    let http = chars_of("http://");
    let https = chars_of("https://");
    let is_http = e - a >= http.len() && chars_match(chars.as_slice(), a, a + http.len(), http.as_slice());
    let is_https = e - a >= https.len() && chars_match(
        chars.as_slice(),
        a,
        a + https.len(),
        https.as_slice(),
    );
    proof {
        if e - a >= http@.len() {
            assert(n.take(http@.len() as int) =~= chars@.subrange(a as int, a + http@.len()));
        }
        if e - a >= https@.len() {
            assert(n.take(https@.len() as int) =~= chars@.subrange(a as int, a + https@.len()));
        }
    }
    if is_http || is_https {
        let normalized = String::from_str(base_url.as_str().substring_char(a, e));
        Ok(normalized)
    } else {
        Err(OllamaError::InvalidBaseUrl(base_url))
    }
}

/// Typed client for a configured Ollama base URL.
#[derive(Debug)]
pub struct OllamaClient<T> {
    base_url: String,
    transport: T,
}

/// Whether a status is a success (`200..300`).
pub open spec fn is_success(status: u16) -> bool {
    200 <= status < 300
}

impl<T: OllamaTransport> OllamaClient<T> {
    /// The configured base URL.
    pub closed spec fn spec_base_url(&self) -> Seq<char> {
        self.base_url@
    }

    /// The injected transport.
    pub closed spec fn spec_transport(&self) -> T {
        self.transport
    }

    /// Creates a client using an injected transport.
    pub fn with_transport(base_url: &str, transport: T) -> (res: Result<Self, OllamaError>)
        ensures
            match normalize_spec(base_url@) {
                Some(n) => res matches Ok(c) && c.spec_base_url() == n && c.spec_transport()
                    == transport,
                None => res matches Err(e) && e matches OllamaError::InvalidBaseUrl(u) && u@
                    == base_url@,
            },
    {
        let base_url = normalize_base_url(String::from_str(base_url))?;
        Ok(OllamaClient { base_url, transport })
    }

    /// Returns the configured base URL without a trailing slash.
    pub fn base_url(&self) -> (url: &str)
        ensures
            url@ == self.spec_base_url(),
    {
        self.base_url.as_str()
    }

    /// Returns the injected transport.
    pub fn transport(&self) -> (t: &T)
        ensures
            *t == self.spec_transport(),
    {
        &self.transport
    }

    /// The absolute URL of an endpoint path.
    pub fn url(&self, path: &str) -> (url: String)
        ensures
            url@ == self.spec_base_url() + path@,
    {
        let mut url = String::from_str(self.base_url.as_str());
        url.append(path);
        url
    }

    /// The `GET` request for an endpoint path.
    pub fn get_request(&self, path: &str) -> (request: OllamaRequest)
        ensures
            request.method == HttpMethod::Get,
            request.url@ == self.spec_base_url() + path@,
            request.body is None,
    {
        OllamaRequest { method: HttpMethod::Get, url: self.url(path), body: None }
    }

    /// Sends a `GET` request for an endpoint path and returns the body of a
    /// successful response. The request handed to the transport is
    /// [`OllamaClient::get_request`] of the path; a transport error is
    /// returned unchanged, and a response goes through
    /// [`OllamaClient::decode_response`].
    pub fn get_body(&self, path: &str) -> (res: Result<String, OllamaError>)
        ensures
            exists|request: OllamaRequest, reply: Result<OllamaResponse, OllamaError>| {
                &&& request.method == HttpMethod::Get
                &&& request.url@ == self.spec_base_url() + path@
                &&& request.body is None
                &&& #[trigger] self.spec_transport().spec_sent(request, reply)
                &&& res == reply_body(reply)
            },
    {
        let request = self.get_request(path);
        let reply = self.transport.send(&request);
        proof {
            assert(self.spec_transport().spec_sent(request, reply));
        }
        match reply {
            Ok(response) => Self::decode_response(response),
            Err(e) => Err(e),
        }
    }

    /// Lists models available to the Ollama server through `GET /api/tags`,
    /// returning the JSON envelope whose `models` array describes them.
    pub fn list_models(&self) -> (res: Result<String, OllamaError>)
        ensures
            exists|request: OllamaRequest, reply: Result<OllamaResponse, OllamaError>| {
                &&& request.method == HttpMethod::Get
                &&& request.url@ == self.spec_base_url() + "/api/tags"@
                &&& request.body is None
                &&& #[trigger] self.spec_transport().spec_sent(request, reply)
                &&& res == reply_body(reply)
            },
    {
        self.get_body("/api/tags")
    }

    /// The `POST` request of a JSON body for an endpoint path.
    pub fn post_request(&self, path: &str, body: String) -> (request: OllamaRequest)
        ensures
            request.method == HttpMethod::Post,
            request.url@ == self.spec_base_url() + path@,
            request.body == Some(body),
    {
        OllamaRequest { method: HttpMethod::Post, url: self.url(path), body: Some(body) }
    }

    /// Sends a JSON body with `POST` to an endpoint path and returns the body
    /// of a successful response. The request handed to the transport is
    /// [`OllamaClient::post_request`] of the path and body; a transport
    /// error is returned unchanged, and a response goes through
    /// [`OllamaClient::decode_response`].
    pub fn post_body(&self, path: &str, body: String) -> (res: Result<String, OllamaError>)
        ensures
            exists|request: OllamaRequest, reply: Result<OllamaResponse, OllamaError>| {
                &&& request.method == HttpMethod::Post
                &&& request.url@ == self.spec_base_url() + path@
                &&& request.body == Some(body)
                &&& #[trigger] self.spec_transport().spec_sent(request, reply)
                &&& res == reply_body(reply)
            },
    {
        let request = self.post_request(path, body);
        let reply = self.transport.send(&request);
        proof {
            assert(self.spec_transport().spec_sent(request, reply));
        }
        match reply {
            Ok(response) => Self::decode_response(response),
            Err(e) => Err(e),
        }
    }

    /// Retrieves model metadata through `POST /api/show`, returning the
    /// response's JSON document. The body sent is
    /// [`crate::json::show_body`] of the model name.
    pub fn show(&self, model: &str) -> (res: Result<String, OllamaError>)
        ensures
            exists|sent: OllamaRequest, reply: Result<OllamaResponse, OllamaError>| {
                &&& sent.method == HttpMethod::Post
                &&& sent.url@ == self.spec_base_url() + "/api/show"@
                &&& sent.body matches Some(b) && b@ == crate::json::show_body_spec(model@)
                &&& #[trigger] self.spec_transport().spec_sent(sent, reply)
                &&& res == reply_body(reply)
            },
    {
        let body = show_body(model)?;
        self.post_body("/api/show", body)
    }

    /// Calls documented non-streaming generation, returning the final
    /// response's JSON document. The body sent is
    /// [`crate::json::generate_body`] of the request.
    pub fn generate(&self, request: &GenerateRequest) -> (res: Result<String, OllamaError>)
        ensures
            exists|sent: OllamaRequest, reply: Result<OllamaResponse, OllamaError>| {
                &&& sent.method == HttpMethod::Post
                &&& sent.url@ == self.spec_base_url() + "/api/generate"@
                &&& sent.body matches Some(b) && b@ == crate::json::generate_body_spec(*request)
                &&& #[trigger] self.spec_transport().spec_sent(sent, reply)
                &&& res == reply_body(reply)
            },
    {
        let body = generate_body(request)?;
        self.post_body("/api/generate", body)
    }

    /// Calls documented embedding generation for one or more texts,
    /// returning the response's JSON document. The body sent is
    /// [`crate::json::embed_body`] of the request.
    pub fn embed(&self, request: &EmbedRequest) -> (res: Result<String, OllamaError>)
        ensures
            exists|sent: OllamaRequest, reply: Result<OllamaResponse, OllamaError>| {
                &&& sent.method == HttpMethod::Post
                &&& sent.url@ == self.spec_base_url() + "/api/embed"@
                &&& sent.body matches Some(b) && b@ == crate::json::embed_body_spec(*request)
                &&& #[trigger] self.spec_transport().spec_sent(sent, reply)
                &&& res == reply_body(reply)
            },
    {
        let body = embed_body(request)?;
        self.post_body("/api/embed", body)
    }

    /// Keeps the body of a successful response; any other status is an
    /// error that carries the status and body.
    pub fn decode_response(response: OllamaResponse) -> (res: Result<String, OllamaError>)
        ensures
            is_success(response.status) ==> res == Ok::<String, OllamaError>(response.body),
            !is_success(response.status) ==> res == Err::<String, OllamaError>(
                OllamaError::HttpStatus { status: response.status, body: response.body },
            ),
    {
        if !(200 <= response.status && response.status < 300) {
            return Err(OllamaError::HttpStatus { status: response.status, body: response.body });
        }
        Ok(response.body)
    }

    /// Returns the exact-K/V capability provided by the standard public API.
    pub fn exact_kv_access(&self) -> (access: ExactKvAccess)
        ensures
            access == ExactKvAccess::UnavailableThroughPublicApi,
    {
        ExactKvAccess::UnavailableThroughPublicApi
    }

    /// Fails closed because public Ollama endpoints do not provide exact K/V access.
    pub fn require_exact_kv_access(&self) -> (res: Result<(), OllamaError>)
        ensures
            res == Err::<(), OllamaError>(OllamaError::ExactKvAccessUnavailable),
    {
        Err(OllamaError::ExactKvAccessUnavailable)
    }
}

/// A `model_info` value as far as topology derivation reads it.
#[derive(Debug, Clone, PartialEq, Eq)]
pub enum ModelInfoValue {
    /// A JSON string.
    Text(String),
    /// A JSON number that is an integer in the `u64` range.
    Unsigned(u64),
    /// Any other JSON value, kept as its JSON text.
    Other(String),
}

/// The view of an optional string.
pub open spec fn opt_view(o: Option<String>) -> Option<Seq<char>> {
    match o {
        Some(s) => Some(s@),
        None => None,
    }
}

/// `a` when it is present, else `b`.
pub open spec fn first_some(a: Option<Seq<char>>, b: Option<Seq<char>>) -> Option<Seq<char>> {
    match a {
        Some(x) => Some(x),
        None => b,
    }
}

/// The value stored under the first entry of `info` from `i` on whose key is `key`.
pub open spec fn info_find(info: Seq<(String, ModelInfoValue)>, key: Seq<char>, i: int) -> Option<
    ModelInfoValue,
>
    decreases info.len() - i,
{
    if i < 0 || i >= info.len() {
        None
    } else if info[i].0@ == key {
        Some(info[i].1)
    } else {
        info_find(info, key, i + 1)
    }
}

/// The architecture prefix: the text stored under `general.architecture`.
pub open spec fn architecture_spec(info: Seq<(String, ModelInfoValue)>) -> Option<Seq<char>> {
    match info_find(info, "general.architecture"@, 0) {
        Some(ModelInfoValue::Text(s)) => Some(s@),
        _ => None,
    }
}

/// The unsigned number stored under `prefix.suffix`, when there is a prefix.
pub open spec fn number_for_spec(
    info: Seq<(String, ModelInfoValue)>,
    prefix: Option<Seq<char>>,
    suffix: Seq<char>,
) -> Option<u64> {
    match prefix {
        None => None,
        Some(p) => match info_find(info, p + "."@ + suffix, 0) {
            Some(ModelInfoValue::Unsigned(n)) => Some(n),
            _ => None,
        },
    }
}

/// `t` is the topology that the documented `model_info` keys describe.
pub open spec fn topology_of_info(
    t: OllamaAttentionTopology,
    info: Seq<(String, ModelInfoValue)>,
) -> bool {
    let arch = architecture_spec(info);
    &&& opt_view(t.architecture) == arch
    &&& t.block_count == number_for_spec(info, arch, "block_count"@)
    &&& t.query_heads == number_for_spec(info, arch, "attention.head_count"@)
    &&& t.kv_heads == number_for_spec(info, arch, "attention.head_count_kv"@)
    &&& t.context_length == number_for_spec(info, arch, "context_length"@)
    &&& t.rope_dimension_count == number_for_spec(info, arch, "rope.dimension_count"@)
}

/// The entry of `info` stored under `key`.
pub fn info_get<'a>(info: &'a [(String, ModelInfoValue)], key: &str) -> (r: Option<&'a ModelInfoValue>)
    ensures
        match info_find(info@, key@, 0) {
            Some(v) => r == Some(&v),
            None => r is None,
        },
{
    let mut i: usize = 0;
    while i < info.len()
        invariant
            0 <= i <= info@.len(),
            info_find(info@, key@, 0) == info_find(info@, key@, i as int),
        decreases info.len() - i,
    {
        if crate::text::str_eq(info[i].0.as_str(), key) {
            return Some(&info[i].1);
        }
        i += 1;
    }
    None
}

/// The unsigned number stored under `prefix.suffix`; `None` without a prefix.
pub fn number_for(info: &[(String, ModelInfoValue)], prefix: Option<&str>, suffix: &str) -> (r:
    Option<u64>)
    ensures
        r == number_for_spec(
            info@,
            match prefix {
                Some(p) => Some(p@),
                None => None,
            },
            suffix@,
        ),
{
    let prefix = match prefix {
        Some(p) => p,
        None => {
            return None;
        },
    };
    let mut key = String::from_str(prefix);
    key.append(".");
    key.append(suffix);
    match info_get(info, key.as_str()) {
        Some(ModelInfoValue::Unsigned(n)) => Some(*n),
        _ => None,
    }
}

/// Derives the attention topology from documented `model_info` keys.
pub fn topology_from_info(info: &[(String, ModelInfoValue)]) -> (t: OllamaAttentionTopology)
    ensures
        topology_of_info(t, info@),
{
    let architecture = match info_get(info, "general.architecture") {
        Some(ModelInfoValue::Text(s)) => Some(String::from_str(s.as_str())),
        _ => None,
    };
    let prefix = match &architecture {
        Some(s) => Some(s.as_str()),
        None => None,
    };
    let block_count = number_for(info, prefix, "block_count");
    let query_heads = number_for(info, prefix, "attention.head_count");
    let kv_heads = number_for(info, prefix, "attention.head_count_kv");
    let context_length = number_for(info, prefix, "context_length");
    let rope_dimension_count = number_for(info, prefix, "rope.dimension_count");
    OllamaAttentionTopology {
        architecture,
        block_count,
        query_heads,
        kv_heads,
        context_length,
        rope_dimension_count,
    }
}

/// The fields of a `POST /api/show` response that a model record keeps.
#[derive(Debug, Clone, PartialEq, Eq)]
pub struct OllamaShowResponse {
    /// Model name reported by the show endpoint, when available.
    pub name: Option<String>,
    /// SHA-256 model digest, when returned.
    pub digest: Option<String>,
    /// Model capabilities such as `completion` or `vision`.
    pub capabilities: Vec<String>,
    /// High-level model identity.
    pub details: OllamaModelDetails,
    /// The `model_info` map, ordered by key.
    pub model_info: Vec<(String, ModelInfoValue)>,
}

/// An auditable snapshot returned by `POST /api/show`.
#[derive(Debug, Clone, PartialEq, Eq)]
pub struct OllamaModelRecord {
    /// Name requested from Ollama.
    pub requested_model: String,
    /// Model name reported by the show endpoint, when available.
    pub name: Option<String>,
    /// SHA-256 model digest, when returned by the service.
    pub digest: Option<String>,
    /// Model file format, for example `gguf`.
    pub format: Option<String>,
    /// Primary model family, for example `llama`.
    pub family: Option<String>,
    /// Quantization label, when reported.
    pub quantization_level: Option<String>,
    /// Optional model capabilities such as `completion` or `vision`.
    pub capabilities: Vec<String>,
    /// High-level model identity retained without lossy normalization.
    pub details: OllamaModelDetails,
    /// Parsed topology fields used to decide whether an extension could be conformant.
    pub topology: OllamaAttentionTopology,
    /// Raw model-info map retained for validation records.
    pub model_info: Vec<(String, ModelInfoValue)>,
    /// Whether the standard HTTP API can support exact K/V virtualization.
    pub exact_kv_access: ExactKvAccess,
}

/// A listed model answers to `requested` by its name or its canonical identifier.
pub open spec fn summary_matches(s: OllamaModelSummary, requested: Seq<char>) -> bool {
    s.name@ == requested || (s.model matches Some(m) && m@ == requested)
}

/// The first listed model that answers to `requested`.
pub fn find_model_summary(summaries: &[OllamaModelSummary], requested: &str) -> (r: Option<usize>)
    ensures
        match r {
            Some(i) => i < summaries@.len() && summary_matches(summaries@[i as int], requested@)
                && forall|j: int| 0 <= j < i ==> !summary_matches(#[trigger] summaries@[j], requested@),
            None => forall|j: int|
                0 <= j < summaries@.len() ==> !summary_matches(#[trigger] summaries@[j], requested@),
        },
{
    let mut i: usize = 0;
    while i < summaries.len()
        invariant
            0 <= i <= summaries@.len(),
            forall|j: int| 0 <= j < i ==> !summary_matches(#[trigger] summaries@[j], requested@),
        decreases summaries.len() - i,
    {
        let candidate = &summaries[i];
        let by_model = match &candidate.model {
            Some(m) => crate::text::str_eq(m.as_str(), requested),
            None => false,
        };
        if crate::text::str_eq(candidate.name.as_str(), requested) || by_model {
            return Some(i);
        }
        i += 1;
    }
    None
}

fn copy_opt(o: &Option<String>) -> (r: Option<String>)
    ensures
        opt_view(r) == opt_view(*o),
{
    match o {
        Some(s) => Some(String::from_str(s.as_str())),
        None => None,
    }
}

/// The optional field of a listed model, when there is one.
pub open spec fn summary_field(
    summary: Option<&OllamaModelSummary>,
    field: spec_fn(OllamaModelSummary) -> Option<String>,
) -> Option<Seq<char>> {
    match summary {
        Some(s) => opt_view(field(*s)),
        None => None,
    }
}

/// Builds the model record of a show response: identity fields the show
/// response leaves out are taken from the listed model, the topology is
/// derived from `model_info`, and exact K/V access is refused.
pub fn model_record(
    requested_model: &str,
    summary: Option<&OllamaModelSummary>,
    show: OllamaShowResponse,
) -> (r: OllamaModelRecord)
    ensures
        r.requested_model@ == requested_model@,
        opt_view(r.name) == first_some(opt_view(show.name), Some(requested_model@)),
        opt_view(r.digest) == first_some(
            opt_view(show.digest),
            summary_field(summary, |s: OllamaModelSummary| s.digest),
        ),
        opt_view(r.format) == first_some(
            opt_view(show.details.format),
            summary_field(
                summary,
                |s: OllamaModelSummary| s.details.format,
            ),
        ),
        opt_view(r.family) == first_some(
            opt_view(show.details.family),
            summary_field(
                summary,
                |s: OllamaModelSummary| s.details.family,
            ),
        ),
        opt_view(r.quantization_level) == first_some(
            opt_view(show.details.quantization_level),
            summary_field(
                summary,
                |s: OllamaModelSummary| s.details.quantization_level,
            ),
        ),
        r.capabilities == show.capabilities,
        r.details == show.details,
        topology_of_info(r.topology, show.model_info@),
        r.model_info == show.model_info,
        r.exact_kv_access == ExactKvAccess::UnavailableThroughPublicApi,
{
    let name = match &show.name {
        Some(n) => Some(String::from_str(n.as_str())),
        None => Some(String::from_str(requested_model)),
    };
    let digest = match &show.digest {
        Some(d) => Some(String::from_str(d.as_str())),
        None => match summary {
            Some(s) => copy_opt(&s.digest),
            None => None,
        },
    };
    let format = match &show.details.format {
        Some(v) => Some(String::from_str(v.as_str())),
        None => match summary {
            Some(s) => copy_opt(&s.details.format),
            None => None,
        },
    };
    let family = match &show.details.family {
        Some(v) => Some(String::from_str(v.as_str())),
        None => match summary {
            Some(s) => copy_opt(&s.details.family),
            None => None,
        },
    };
    let quantization_level = match &show.details.quantization_level {
        Some(v) => Some(String::from_str(v.as_str())),
        None => match summary {
            Some(s) => copy_opt(&s.details.quantization_level),
            None => None,
        },
    };
    let topology = topology_from_info(show.model_info.as_slice());
    OllamaModelRecord {
        requested_model: String::from_str(requested_model),
        name,
        digest,
        format,
        family,
        quantization_level,
        capabilities: show.capabilities,
        details: show.details,
        topology,
        model_info: show.model_info,
        exact_kv_access: ExactKvAccess::UnavailableThroughPublicApi,
    }
}

} // verus!
