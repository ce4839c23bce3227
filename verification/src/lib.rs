//! `CFR-Atlas`: exact K/V attention virtualization core.
//!
//! Page identity, bounded hot-cache residency, token replay ledgers, head
//! topology, configuration and its versioned text schema, page-size tuning,
//! residency policies, and the HTTP boundary of the Ollama integration. K/V
//! element values are carried as `f32` bit patterns.

pub mod error;
pub mod layout;
pub mod page;

pub use error::{CfrError, Result};
pub use layout::{
    checked_add, checked_kv_bytes, checked_matrix_len, checked_mul, checked_range_len,
    checked_row_range, expect_all_finite_bits, expect_len, usize_to_u64_saturating, wipe_words,
};
pub use page::{PageKey, PageRange};
pub mod token;
pub use token::{TokenId, TokenLedger, TokenRecord};
pub mod topology;
pub use topology::{AttentionTopology, AttentionTopologyKind, HeadMapping};
pub mod stats;
pub mod policy;
pub use stats::{CfrCounters, CfrStatsSnapshot};
pub use policy::{
    KeepRecent, NeverAdmit, ResidencyContext, ResidencyDecision, ResidencyPolicy,
    TelemetryResidencyPolicy,
};
pub mod tuning;
pub use tuning::{PageSizeTuner, PageTuningCandidate, PageTuningInput, PageTuningResult};
pub mod text;
pub mod dtype;
pub use dtype::{parse_storage_dtype, AccumulatorDType, DTypePolicy, StorageDType};
pub mod executor;
pub mod kernel;
pub mod schema;
pub mod stabilization;
pub use executor::{ThreadPoolConfig, ThreadPoolExecutor};
pub use kernel::DotProductKernel;
pub use schema::CONFIG_SCHEMA_VERSION;
pub use stabilization::{
    stabilization_report, ClaimReview, NoStdBlocker, NoStdFeasibilityReport, NoStdReadiness,
    PublicApiReview, StabilizationReport, StabilizationStatus, SupplyChainReview, MSRV,
    PUBLIC_API_REVIEW_VERSION,
};
pub mod bench;
pub use bench::{estimate_benchmark_memory, stabilization_benchmark_scenarios, BenchEstimate, BenchScenario};
pub mod validation;
pub use validation::{
    memory_footprint, phase4_regression_corpus, regression_corpus, u32_to_usize, MemoryFootprint,
    PromptCase, PromptShape,
};
pub mod cache;
pub use cache::{HotCache, InsertOutcome, PageView};
pub mod config;
pub use config::{Config, ConfigBuilder};
pub mod atlas;
pub use atlas::AtlasCore;
pub mod ollama;
pub mod http;
pub use ollama::{
    find_model_summary, model_record, number_for, topology_from_info, EmbedRequest, ExactKvAccess,
    GenerateRequest, GenerateResponse, HttpMethod, ModelInfoValue, OllamaAttentionTopology,
    OllamaClient, OllamaError, OllamaModelDetails, OllamaModelRecord, OllamaModelSummary,
    OllamaRequest, OllamaResponse, OllamaShowResponse, OllamaTransport, DEFAULT_OLLAMA_BASE_URL,
};
pub use http::{
    decode_chunked_body, find_crlf, http_request_text, is_chunked, parse_http_response,
    split_http_url,
};
pub use schema::{ConfigFields, VersionedConfig};
pub mod manifest;
pub mod bench_cli;
pub mod requests;
pub mod json;
pub mod prelude;
pub use manifest::{json_usize, json_value};
