use cfr_atlas::{
    decode_chunked_body, find_crlf, find_model_summary, http_request_text, is_chunked,
    model_record, number_for, parse_http_response, split_http_url, topology_from_info,
    ExactKvAccess, HttpMethod, ModelInfoValue, OllamaClient, OllamaError, OllamaModelDetails,
    OllamaModelSummary, OllamaRequest, OllamaResponse, OllamaShowResponse, OllamaTransport,
};
use cfr_atlas::json::{embed_body, generate_body, show_body};
use cfr_atlas::{EmbedRequest, GenerateRequest};
use serde_json::Value;
use std::cell::RefCell;
use std::collections::VecDeque;

#[derive(Default)]
struct MockTransport {
    requests: RefCell<Vec<OllamaRequest>>,
    responses: RefCell<VecDeque<OllamaResponse>>,
}

impl MockTransport {
    fn with_response(status: u16, body: &str) -> Self {
        Self::with_responses(&[(status, body)])
    }

    fn with_responses(responses: &[(u16, &str)]) -> Self {
        Self {
            requests: RefCell::new(Vec::new()),
            responses: RefCell::new(
                responses
                    .iter()
                    .map(|(status, body)| OllamaResponse {
                        status: *status,
                        body: (*body).to_owned(),
                    })
                    .collect(),
            ),
        }
    }
}

impl OllamaTransport for MockTransport {
    fn send(&self, request: &OllamaRequest) -> Result<OllamaResponse, OllamaError> {
        self.requests.borrow_mut().push(request.clone());
        self.responses
            .borrow_mut()
            .pop_front()
            .ok_or_else(|| OllamaError::Transport("mock has no queued response".to_owned()))
    }
}

#[test]
fn chunked_http_response_is_decoded_before_json_parsing() {
    let response = parse_http_response(
        "HTTP/1.1 200 OK\r\nTransfer-Encoding: chunked\r\n\r\n6\r\n{\"ok\":\r\n5\r\ntrue}\r\n0\r\n\r\n",
    )
    .unwrap();
    assert_eq!(response.status, 200);
    assert_eq!(response.body, r#"{"ok":true}"#);
}

#[test]
fn list_models_uses_documented_tags_endpoint() {
    let transport = MockTransport::with_response(
        200,
        r#"{"models":[{"name":"llama3.2","digest":"abc","size":42,"details":{"format":"gguf","family":"llama"}}]}"#,
    );
    let client = OllamaClient::with_transport("http://127.0.0.1:11434/", transport).unwrap();
    let envelope = client.list_models().unwrap();
    let document: serde_json::Value = serde_json::from_str(&envelope).unwrap();
    let models = document["models"].as_array().unwrap();
    assert_eq!(models.len(), 1);
    assert_eq!(models[0]["name"], "llama3.2");
    assert_eq!(models[0]["details"]["family"].as_str(), Some("llama"));
    assert_eq!(
        client.transport().requests.borrow()[0].url,
        "http://127.0.0.1:11434/api/tags"
    );
}

#[test]
fn non_success_status_is_not_silently_decoded() {
    let transport = MockTransport::with_response(404, r#"{"error":"model not found"}"#);
    let client = OllamaClient::with_transport("http://127.0.0.1:11434", transport).unwrap();
    let error = client.list_models().unwrap_err();
    assert_eq!(
        error,
        OllamaError::HttpStatus {
            status: 404,
            body: r#"{"error":"model not found"}"#.to_owned(),
        }
    );
}

#[test]
fn list_models_sends_one_get_without_body() {
    let transport = MockTransport::with_response(200, r#"{"models":[]}"#);
    let client = OllamaClient::with_transport("  http://localhost:11434//  ", transport).unwrap();
    assert_eq!(client.base_url(), "http://localhost:11434");
    assert_eq!(client.list_models().unwrap(), r#"{"models":[]}"#);
    let requests = client.transport().requests.borrow();
    assert_eq!(requests.len(), 1);
    assert_eq!(requests[0].method, HttpMethod::Get);
    assert_eq!(requests[0].body, None);
}

#[test]
fn transport_error_is_returned_unchanged() {
    let transport = MockTransport::default();
    let client = OllamaClient::with_transport("https://ollama.example", transport).unwrap();
    assert_eq!(
        client.list_models(),
        Err(OllamaError::Transport("mock has no queued response".to_owned()))
    );
}

#[test]
fn client_refuses_non_http_base_url() {
    let result = OllamaClient::with_transport(" ftp://localhost ", MockTransport::default());
    match result {
        Err(OllamaError::InvalidBaseUrl(url)) => assert_eq!(url, " ftp://localhost "),
        _ => panic!("a non-HTTP base URL was accepted"),
    }
    assert!(OllamaClient::with_transport("http:/", MockTransport::default()).is_err());
    assert!(OllamaClient::with_transport("https://", MockTransport::default()).is_err());
    assert!(OllamaClient::with_transport("https://x/", MockTransport::default()).is_ok());
}

#[test]
fn client_url_joins_base_and_path() {
    let client = OllamaClient::with_transport("http://h:1///", MockTransport::default()).unwrap();
    assert_eq!(client.url("/api/show"), "http://h:1/api/show");
}

#[test]
fn exact_kv_access_fails_closed() {
    let client = OllamaClient::with_transport("http://127.0.0.1:11434", MockTransport::default())
        .unwrap();
    assert_eq!(
        client.exact_kv_access(),
        ExactKvAccess::UnavailableThroughPublicApi
    );
    assert_eq!(
        client.require_exact_kv_access(),
        Err(OllamaError::ExactKvAccessUnavailable)
    );
}

#[test]
fn decode_response_keeps_success_bodies_only() {
    let ok = OllamaClient::<MockTransport>::decode_response(OllamaResponse {
        status: 299,
        body: "x".to_owned(),
    });
    assert_eq!(ok, Ok("x".to_owned()));
    let redirect = OllamaClient::<MockTransport>::decode_response(OllamaResponse {
        status: 300,
        body: "y".to_owned(),
    });
    assert_eq!(
        redirect,
        Err(OllamaError::HttpStatus {
            status: 300,
            body: "y".to_owned()
        })
    );
    let informational = OllamaClient::<MockTransport>::decode_response(OllamaResponse {
        status: 199,
        body: String::new(),
    });
    assert!(informational.is_err());
}

#[test]
fn plain_response_keeps_raw_body() {
    let response = parse_http_response("HTTP/1.1 201 Created\r\nX: y\r\n\r\nhello\r\n").unwrap();
    assert_eq!(response.status, 201);
    assert_eq!(response.body, "hello\r\n");
}

#[test]
fn response_without_boundary_is_refused() {
    assert_eq!(
        parse_http_response("HTTP/1.1 200 OK\r\n"),
        Err(OllamaError::Decode(
            "HTTP response is missing a header boundary".to_owned()
        ))
    );
}

#[test]
fn response_without_status_is_refused() {
    assert_eq!(
        parse_http_response("HTTP/1.1\r\n\r\nbody"),
        Err(OllamaError::Decode(
            "HTTP response is missing a status".to_owned()
        ))
    );
}

#[test]
fn response_status_errors_match_integer_parsing() {
    assert_eq!(
        parse_http_response("HTTP/1.1 2x0 OK\r\n\r\n"),
        Err(OllamaError::Decode("invalid digit found in string".to_owned()))
    );
    assert_eq!(
        parse_http_response("HTTP/1.1 70000 OK\r\n\r\n"),
        Err(OllamaError::Decode(
            "number too large to fit in target type".to_owned()
        ))
    );
    assert_eq!(
        parse_http_response("HTTP/1.1 + OK\r\n\r\n"),
        Err(OllamaError::Decode("invalid digit found in string".to_owned()))
    );
    assert_eq!(parse_http_response("HTTP/1.1 +204\r\n\r\n").unwrap().status, 204);
}

#[test]
fn chunked_header_is_case_insensitive_and_listed() {
    assert!(is_chunked("HTTP/1.1 200 OK\r\ntransfer-ENCODING: gzip, Chunked"));
    assert!(!is_chunked("HTTP/1.1 200 OK\r\nTransfer-Encoding : chunked"));
    assert!(!is_chunked("HTTP/1.1 200 OK\r\nContent-Length: 7"));
    assert!(!is_chunked("HTTP/1.1 200 OK\r\nTransfer-Encoding: chunkedx"));
}

#[test]
fn chunked_body_extensions_and_errors() {
    assert_eq!(decode_chunked_body("3;ext=1\r\nabc\r\n0\r\n\r\n"), Ok("abc".to_owned()));
    assert_eq!(decode_chunked_body("A\r\n0123456789\r\n0\r\n"), Ok("0123456789".to_owned()));
    assert_eq!(
        decode_chunked_body("3\r\nabc"),
        Err(OllamaError::Decode(
            "chunked response has an incomplete chunk or invalid terminator".to_owned()
        ))
    );
    assert_eq!(
        decode_chunked_body("3\r\nabc\r\n"),
        Err(OllamaError::Decode(
            "chunked response is missing a chunk-size line ending".to_owned()
        ))
    );
    assert_eq!(
        decode_chunked_body("zz\r\n"),
        Err(OllamaError::Decode("invalid digit found in string".to_owned()))
    );
    assert_eq!(
        decode_chunked_body("\r\n"),
        Err(OllamaError::Decode(
            "cannot parse integer from empty string".to_owned()
        ))
    );
}

#[test]
fn chunk_that_splits_a_character_is_refused() {
    let body = "1\r\n\u{e9}\r\n0\r\n\r\n";
    assert_eq!(
        decode_chunked_body(body),
        Err(OllamaError::Decode(
            "chunked response has an incomplete chunk or invalid terminator".to_owned()
        ))
    );
}

#[test]
fn chunks_are_joined_into_text() {
    let body = "2\r\n\u{e9}\r\n1\r\n!\r\n0\r\n\r\n";
    assert_eq!(decode_chunked_body(body), Ok("\u{e9}!".to_owned()));
}

#[test]
fn find_crlf_reports_first_line_end() {
    let bytes = b"ab\r\ncd\r\n";
    assert_eq!(find_crlf(bytes, 0), Some(2));
    assert_eq!(find_crlf(bytes, 3), Some(6));
    assert_eq!(find_crlf(bytes, 7), None);
    assert_eq!(find_crlf(bytes, 8), None);
}

#[test]
fn error_descriptions_name_the_failure() {
    assert_eq!(
        OllamaError::HttpStatus {
            status: 404,
            body: "missing".to_owned()
        }
        .describe(),
        "Ollama returned HTTP 404: missing"
    );
    assert_eq!(
        OllamaError::InvalidBaseUrl("x".to_owned()).describe(),
        "invalid Ollama base URL: x"
    );
    assert_eq!(
        OllamaError::ExactKvAccessUnavailable.describe(),
        "the public Ollama API does not expose exact per-layer K/V tensors or page replay"
    );
}

fn optional_text(value: &Value) -> Option<String> {
    value.as_str().map(ToOwned::to_owned)
}

fn details_of(value: &Value) -> OllamaModelDetails {
    OllamaModelDetails {
        format: optional_text(&value["format"]),
        family: optional_text(&value["family"]),
        families: value["families"]
            .as_array()
            .map(|items| items.iter().filter_map(optional_text).collect())
            .unwrap_or_default(),
        parameter_size: optional_text(&value["parameter_size"]),
        quantization_level: optional_text(&value["quantization_level"]),
    }
}

fn summary_of(value: &Value) -> OllamaModelSummary {
    OllamaModelSummary {
        name: value["name"].as_str().unwrap().to_owned(),
        model: optional_text(&value["model"]),
        digest: optional_text(&value["digest"]),
        size: value["size"].as_u64(),
        details: details_of(&value["details"]),
    }
}

fn info_value(value: &Value) -> ModelInfoValue {
    match value {
        Value::String(text) => ModelInfoValue::Text(text.clone()),
        Value::Number(number) => match number.as_u64() {
            Some(unsigned) => ModelInfoValue::Unsigned(unsigned),
            None => ModelInfoValue::Other(number.to_string()),
        },
        other => ModelInfoValue::Other(other.to_string()),
    }
}

fn show_of(value: &Value) -> OllamaShowResponse {
    let mut model_info: Vec<(String, ModelInfoValue)> = value["model_info"]
        .as_object()
        .map(|map| map.iter().map(|(key, item)| (key.clone(), info_value(item))).collect())
        .unwrap_or_default();
    model_info.sort_by(|left, right| left.0.cmp(&right.0));
    OllamaShowResponse {
        name: optional_text(&value["name"]),
        digest: optional_text(&value["digest"]),
        capabilities: value["capabilities"]
            .as_array()
            .map(|items| items.iter().filter_map(optional_text).collect())
            .unwrap_or_default(),
        details: details_of(&value["details"]),
        model_info,
    }
}

#[test]
fn show_model_derives_topology_but_refuses_exact_kv() {
    let transport = MockTransport::with_responses(&[
        (
            200,
            r#"{"models":[{"name":"llama3.2","digest":"sha256:abc","details":{"format":"gguf","family":"llama","quantization_level":"Q4_K_M"}}]}"#,
        ),
        (
            200,
            r#"{"name":"llama3.2","capabilities":["completion"],"details":{"format":"gguf","family":"llama","quantization_level":"Q4_K_M"},"model_info":{"general.architecture":"llama","llama.block_count":32,"llama.attention.head_count":32,"llama.attention.head_count_kv":8,"llama.context_length":131072,"llama.rope.dimension_count":128}}"#,
        ),
    ]);
    let client = OllamaClient::with_transport("http://127.0.0.1:11434", transport).unwrap();
    let tags: Value = serde_json::from_str(&client.list_models().unwrap()).unwrap();
    let summaries: Vec<OllamaModelSummary> = tags["models"]
        .as_array()
        .unwrap()
        .iter()
        .map(summary_of)
        .collect();
    let summary = find_model_summary(&summaries, "llama3.2").map(|index| &summaries[index]);
    let body = client.show("llama3.2").unwrap();
    let show: Value = serde_json::from_str(&body).unwrap();
    let record = model_record("llama3.2", summary, show_of(&show));
    assert_eq!(record.name.as_deref(), Some("llama3.2"));
    assert_eq!(record.digest.as_deref(), Some("sha256:abc"));
    assert_eq!(record.family.as_deref(), Some("llama"));
    assert_eq!(record.topology.query_heads, Some(32));
    assert_eq!(record.topology.kv_heads, Some(8));
    assert_eq!(record.topology.context_length, Some(131_072));
    assert_eq!(
        record.exact_kv_access,
        ExactKvAccess::UnavailableThroughPublicApi
    );
    assert_eq!(
        client.exact_kv_access(),
        ExactKvAccess::UnavailableThroughPublicApi
    );
    assert_eq!(
        client.require_exact_kv_access(),
        Err(OllamaError::ExactKvAccessUnavailable)
    );
}

fn summary_named(name: &str, model: Option<&str>, digest: Option<&str>) -> OllamaModelSummary {
    OllamaModelSummary {
        name: name.to_owned(),
        model: model.map(ToOwned::to_owned),
        digest: digest.map(ToOwned::to_owned),
        size: None,
        details: OllamaModelDetails {
            format: Some("gguf".to_owned()),
            family: Some("qwen".to_owned()),
            families: Vec::new(),
            parameter_size: None,
            quantization_level: Some("Q8_0".to_owned()),
        },
    }
}

fn empty_show(model_info: Vec<(String, ModelInfoValue)>) -> OllamaShowResponse {
    OllamaShowResponse {
        name: None,
        digest: None,
        capabilities: Vec::new(),
        details: OllamaModelDetails::default(),
        model_info,
    }
}

#[test]
fn model_summary_is_found_by_name_or_canonical_identifier() {
    let summaries = vec![
        summary_named("alpha", None, Some("sha256:1")),
        summary_named("beta", Some("qwen:beta"), Some("sha256:2")),
        summary_named("qwen:beta", None, Some("sha256:3")),
    ];
    assert_eq!(find_model_summary(&summaries, "alpha"), Some(0));
    assert_eq!(find_model_summary(&summaries, "qwen:beta"), Some(1));
    assert_eq!(find_model_summary(&summaries, "gamma"), None);
    assert_eq!(find_model_summary(&[], "alpha"), None);
}

#[test]
fn model_record_falls_back_to_listed_model_and_requested_name() {
    let listed = summary_named("beta", None, Some("sha256:2"));
    let record = model_record("beta", Some(&listed), empty_show(Vec::new()));
    assert_eq!(record.requested_model, "beta");
    assert_eq!(record.name.as_deref(), Some("beta"));
    assert_eq!(record.digest.as_deref(), Some("sha256:2"));
    assert_eq!(record.format.as_deref(), Some("gguf"));
    assert_eq!(record.family.as_deref(), Some("qwen"));
    assert_eq!(record.quantization_level.as_deref(), Some("Q8_0"));
    assert_eq!(record.topology.architecture, None);
    assert_eq!(record.topology.block_count, None);

    let unlisted = model_record("gamma", None, empty_show(Vec::new()));
    assert_eq!(unlisted.name.as_deref(), Some("gamma"));
    assert_eq!(unlisted.digest, None);
    assert_eq!(unlisted.format, None);
}

#[test]
fn topology_reads_only_unsigned_values_under_the_architecture_prefix() {
    let info = vec![
        ("general.architecture".to_owned(), ModelInfoValue::Text("qwen2".to_owned())),
        ("llama.block_count".to_owned(), ModelInfoValue::Unsigned(32)),
        ("qwen2.attention.head_count".to_owned(), ModelInfoValue::Unsigned(14)),
        ("qwen2.attention.head_count_kv".to_owned(), ModelInfoValue::Other("2.5".to_owned())),
        ("qwen2.block_count".to_owned(), ModelInfoValue::Unsigned(24)),
        ("qwen2.context_length".to_owned(), ModelInfoValue::Text("32768".to_owned())),
    ];
    let topology = topology_from_info(&info);
    assert_eq!(topology.architecture.as_deref(), Some("qwen2"));
    assert_eq!(topology.block_count, Some(24));
    assert_eq!(topology.query_heads, Some(14));
    assert_eq!(topology.kv_heads, None);
    assert_eq!(topology.context_length, None);
    assert_eq!(topology.rope_dimension_count, None);
    assert_eq!(number_for(&info, None, "block_count"), None);
    assert_eq!(number_for(&info, Some("llama"), "block_count"), Some(32));

    let without_architecture = topology_from_info(&info[1..]);
    assert_eq!(without_architecture.architecture, None);
    assert_eq!(without_architecture.block_count, None);
}

#[test]
fn http_urls_split_into_authority_and_path() {
    assert_eq!(
        split_http_url("http://127.0.0.1:11434/api/tags").unwrap(),
        ("127.0.0.1:11434".to_owned(), "/api/tags".to_owned())
    );
    assert_eq!(
        split_http_url("http://localhost:11434").unwrap(),
        ("localhost:11434".to_owned(), "/".to_owned())
    );
    assert_eq!(
        split_http_url("https://localhost/api"),
        Err(OllamaError::InvalidBaseUrl("https://localhost/api".to_owned()))
    );
}

#[test]
fn requests_are_framed_as_http_1_1_text() {
    let get = OllamaRequest {
        method: HttpMethod::Get,
        url: "http://localhost:11434/api/tags".to_owned(),
        body: None,
    };
    assert_eq!(
        http_request_text(&get, "localhost:11434", "/api/tags"),
        "GET /api/tags HTTP/1.1\r\nHost: localhost:11434\r\naccept: application/json\r\ncontent-length: 0\r\nconnection: close\r\n\r\n"
    );
    let post = OllamaRequest {
        method: HttpMethod::Post,
        url: "http://localhost:11434/api/show".to_owned(),
        body: Some("{\"model\":\"é\"}".to_owned()),
    };
    assert_eq!(
        http_request_text(&post, "localhost:11434", "/api/show"),
        "POST /api/show HTTP/1.1\r\nHost: localhost:11434\r\naccept: application/json\r\ncontent-type: application/json\r\ncontent-length: 14\r\nconnection: close\r\n\r\n{\"model\":\"é\"}"
    );
}

#[test]
fn generate_sets_non_streaming_options() {
    let transport = MockTransport::with_response(
        200,
        r#"{"model":"llama3.2","response":"ok","done":true,"prompt_eval_count":4,"eval_count":1}"#,
    );
    let client = OllamaClient::with_transport("http://127.0.0.1:11434", transport).unwrap();
    let document = client
        .generate(&GenerateRequest {
            model: "llama3.2".to_owned(),
            prompt: "hello".to_owned(),
            keep_alive: Some("5m".to_owned()),
            num_ctx: Some(8192),
        })
        .unwrap();
    let response: Value = serde_json::from_str(&document).unwrap();
    assert_eq!(response["done"], Value::Bool(true));
    let request = &client.transport().requests.borrow()[0];
    assert_eq!(request.method, HttpMethod::Post);
    assert_eq!(request.url, "http://127.0.0.1:11434/api/generate");
    let body: Value = serde_json::from_str(request.body.as_deref().unwrap()).unwrap();
    assert_eq!(body["stream"], Value::Bool(false));
    assert_eq!(body["options"]["num_ctx"], Value::from(8192));
}

#[test]
fn embed_constructs_batch_request_and_decodes_vectors() {
    let transport = MockTransport::with_response(
        200,
        r#"{"model":"nomic-embed-text","embeddings":[[0.25,-0.5],[1.0,0.0]],"prompt_eval_count":7}"#,
    );
    let client = OllamaClient::with_transport("http://127.0.0.1:11434", transport).unwrap();
    let document = client
        .embed(&EmbedRequest {
            model: "nomic-embed-text".to_owned(),
            input: vec!["first".to_owned(), "second".to_owned()],
            truncate: false,
            dimensions: Some(2),
            keep_alive: None,
        })
        .unwrap();
    let response: Value = serde_json::from_str(&document).unwrap();
    assert_eq!(response["embeddings"].as_array().unwrap().len(), 2);
    let request = &client.transport().requests.borrow()[0];
    assert_eq!(request.url, "http://127.0.0.1:11434/api/embed");
    let body: Value = serde_json::from_str(request.body.as_deref().unwrap()).unwrap();
    assert_eq!(
        body["input"],
        Value::Array(vec![
            Value::String("first".to_owned()),
            Value::String("second".to_owned())
        ])
    );
    assert_eq!(body["truncate"], Value::Bool(false));
    assert_eq!(body["dimensions"], Value::from(2));
}

fn serde_body(pairs: Vec<(&str, Value)>) -> String {
    let mut map = serde_json::Map::new();
    for (key, value) in pairs {
        map.insert(key.to_owned(), value);
    }
    serde_json::to_string(&Value::Object(map)).unwrap()
}

#[test]
fn request_bodies_match_serde_json_text() {
    let generate = GenerateRequest {
        model: "llama\"3.2\u{1}".to_owned(),
        prompt: "line\nnext\ttab é".to_owned(),
        keep_alive: Some("5m".to_owned()),
        num_ctx: Some(8192),
    };
    let mut options = serde_json::Map::new();
    options.insert("num_ctx".to_owned(), Value::from(8192u64));
    assert_eq!(
        generate_body(&generate).unwrap(),
        serde_body(vec![
            ("model", Value::String(generate.model.clone())),
            ("prompt", Value::String(generate.prompt.clone())),
            ("stream", Value::Bool(false)),
            ("keep_alive", Value::String("5m".to_owned())),
            ("options", Value::Object(options)),
        ])
    );
    let plain = GenerateRequest {
        model: "m".to_owned(),
        prompt: "p".to_owned(),
        keep_alive: None,
        num_ctx: None,
    };
    assert_eq!(
        generate_body(&plain).unwrap(),
        "{\"model\":\"m\",\"prompt\":\"p\",\"stream\":false}"
    );
    let embed = EmbedRequest {
        model: "nomic".to_owned(),
        input: vec!["a\\b".to_owned(), String::new(), "c".to_owned()],
        truncate: true,
        dimensions: Some(3),
        keep_alive: Some("0".to_owned()),
    };
    assert_eq!(
        embed_body(&embed).unwrap(),
        serde_body(vec![
            ("model", Value::String("nomic".to_owned())),
            (
                "input",
                Value::Array(embed.input.iter().cloned().map(Value::String).collect()),
            ),
            ("truncate", Value::Bool(true)),
            ("dimensions", Value::from(3u64)),
            ("keep_alive", Value::String("0".to_owned())),
        ])
    );
    let empty_input = EmbedRequest {
        model: "nomic".to_owned(),
        input: Vec::new(),
        truncate: false,
        dimensions: None,
        keep_alive: None,
    };
    assert_eq!(
        embed_body(&empty_input).unwrap(),
        "{\"input\":[],\"model\":\"nomic\",\"truncate\":false}"
    );
    assert_eq!(
        show_body("llama3.2").unwrap(),
        serde_body(vec![("model", Value::String("llama3.2".to_owned()))])
    );
}
