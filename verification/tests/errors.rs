use cfr_atlas::{CfrError, OllamaError, PageKey};

#[test]
fn core_errors_describe_themselves_as_the_display_text() {
    assert_eq!(
        CfrError::InvalidConfig("page_tokens must be non-zero").describe(),
        "invalid CFR-Atlas config: page_tokens must be non-zero"
    );
    assert_eq!(
        CfrError::Dimension { name: "query", expected: 64, got: 32 }.describe(),
        "dimension mismatch for query: expected 64, got 32"
    );
    assert_eq!(
        CfrError::CapacityOverflow { name: "page bytes" }.describe(),
        "capacity overflow while computing page bytes"
    );
    assert_eq!(
        CfrError::InvalidPage { key: PageKey::new(1, 2, 3), message: "empty page" }.describe(),
        "invalid page PageKey { layer: 1, head: 2, start_token: 3 }: empty page"
    );
    assert_eq!(
        format!("{:?}", PageKey::new(1, 2, 3)),
        "PageKey { layer: 1, head: 2, start_token: 3 }"
    );
    assert_eq!(
        CfrError::InvalidLedger("positions must increase").describe(),
        "invalid token ledger: positions must increase"
    );
    assert_eq!(
        CfrError::InvalidTopology("groups").describe(),
        "invalid attention topology: groups"
    );
    assert_eq!(
        CfrError::Regenerator("backend offline".to_owned()).describe(),
        "KV regeneration failed: backend offline"
    );
    assert_eq!(
        CfrError::Numeric("non-finite").describe(),
        "numeric failure: non-finite"
    );
}

#[test]
fn ollama_errors_describe_themselves_as_the_display_text() {
    assert_eq!(
        OllamaError::InvalidBaseUrl("ftp://x".to_owned()).describe(),
        "invalid Ollama base URL: ftp://x"
    );
    assert_eq!(
        OllamaError::Transport("refused".to_owned()).describe(),
        "Ollama transport error: refused"
    );
    assert_eq!(
        OllamaError::HttpStatus { status: 404, body: "missing".to_owned() }.describe(),
        "Ollama returned HTTP 404: missing"
    );
    assert_eq!(
        OllamaError::Decode("eof".to_owned()).describe(),
        "cannot decode Ollama response: eof"
    );
    assert_eq!(
        OllamaError::ExactKvAccessUnavailable.describe(),
        "the public Ollama API does not expose exact per-layer K/V tensors or page replay"
    );
}
