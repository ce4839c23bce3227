//! Common imports for integrations of the verified core.

pub use crate::{
    checked_add, checked_kv_bytes, checked_matrix_len, checked_mul, checked_range_len,
    checked_row_range, estimate_benchmark_memory, expect_len, parse_storage_dtype,
    phase4_regression_corpus, regression_corpus, stabilization_benchmark_scenarios,
    stabilization_report, usize_to_u64_saturating, AccumulatorDType, AttentionTopology,
    AttentionTopologyKind, BenchEstimate, BenchScenario, CfrCounters, CfrError, CfrStatsSnapshot,
    ClaimReview, Config, ConfigBuilder, DTypePolicy, DotProductKernel, HeadMapping, HotCache,
    KeepRecent, NeverAdmit, NoStdBlocker, NoStdFeasibilityReport, NoStdReadiness, PageKey,
    PageRange, PageSizeTuner, PageTuningCandidate, PageTuningInput, PageTuningResult, PageView,
    PromptCase, PromptShape, PublicApiReview, ResidencyContext, ResidencyDecision,
    ResidencyPolicy, Result, StabilizationReport, StabilizationStatus, StorageDType,
    SupplyChainReview, TelemetryResidencyPolicy, ThreadPoolConfig, ThreadPoolExecutor, TokenId,
    TokenLedger, TokenRecord, VersionedConfig, CONFIG_SCHEMA_VERSION, MSRV,
    PUBLIC_API_REVIEW_VERSION,
};
