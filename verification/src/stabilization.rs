//! Stabilization metadata and release-readiness facts.
//!
//! Small deterministic values that let embedders and release automation
//! inspect the crate's public promises.

use vstd::prelude::*;
use crate::schema::CONFIG_SCHEMA_VERSION;

verus! {

/// Current public API review version.
pub const PUBLIC_API_REVIEW_VERSION: u32 = 1;

/// Minimum supported `Rust` version for the stable workspace.
pub const MSRV: &'static str = "1.75";

/// Current stabilization status for one release criterion.
#[derive(Debug, Clone, Copy, PartialEq, Eq, Structural)]
pub enum StabilizationStatus {
    /// The criterion is met for the current release.
    Complete,
    /// The criterion is documented but still needs downstream evidence.
    RequiresExternalReview,
}

/// Summary of the public `API` review.
#[derive(Debug, Clone, Copy, PartialEq, Eq, Structural)]
pub struct PublicApiReview {
    /// Review document version.
    pub review_version: u32,
    /// Whether the core public API is intentionally re-exported from the crate root.
    pub root_reexports_reviewed: bool,
    /// Whether public documentation is denied by lint rather than manually checked.
    pub missing_docs_denied: bool,
    /// Whether `unsafe` code is forbidden in the core crate.
    pub unsafe_code_forbidden: bool,
}

/// `no_std` readiness level for the current crate architecture.
#[derive(Debug, Clone, Copy, PartialEq, Eq, Structural)]
pub enum NoStdReadiness {
    /// The current workspace requires `std`.
    RequiresStd,
    /// A future split could keep a smaller core at `alloc` level.
    AllocOnlyCandidate,
    /// The workspace is already `no_std` compatible.
    Ready,
}

/// Blocking area for a future `no_std` or `alloc`-only split.
#[derive(Debug, Clone, Copy, PartialEq, Eq, Structural)]
pub enum NoStdBlocker {
    /// The hot cache uses allocation-backed storage.
    HotCacheAllocation,
    /// Worker execution uses standard-library threads.
    ThreadExecutor,
    /// Validation and examples use allocation and `std` utilities.
    ValidationHarness,
}

/// `no_std` feasibility result for the current crate architecture.
#[derive(Debug, Clone, Copy, PartialEq, Eq)]
pub struct NoStdFeasibilityReport {
    /// Current readiness level.
    pub readiness: NoStdReadiness,
    /// Whether the core could plausibly become `alloc`-only after isolating `std` modules.
    pub alloc_only_core_feasible: bool,
    /// Reviewable list of current blockers.
    pub blockers: [NoStdBlocker; 3],
}

/// Supply-chain posture for the dependency-light release.
#[derive(Debug, Clone, Copy, PartialEq, Eq, Structural)]
pub struct SupplyChainReview {
    /// Runtime dependency count that the release policy records for the
    /// attention core (pages, cache, configuration, policies), which needs
    /// none; the JSON dependency of the Ollama integration is outside it.
    pub runtime_dependency_count: usize,
    /// Whether a `cargo-deny` policy and helper script are shipped.
    pub cargo_deny_policy_shipped: bool,
    /// Whether release scripts can generate checksum manifests.
    pub checksum_manifest_script_shipped: bool,
    /// Whether release scripts support detached signing with the caller's `GPG` key.
    pub signing_script_shipped: bool,
}

/// External claim-review status for exactness and memory accounting.
#[derive(Debug, Clone, Copy, PartialEq, Eq, Structural)]
pub struct ClaimReview {
    /// Whether exactness assumptions are documented in a reviewable claims file.
    pub exactness_claim_documented: bool,
    /// Whether memory-accounting assumptions are documented in a reviewable claims file.
    pub memory_claim_documented: bool,
    /// Current external review status.
    pub status: StabilizationStatus,
}

/// Full stabilization report.
#[derive(Debug, Clone, Copy, PartialEq, Eq)]
pub struct StabilizationReport {
    /// Minimum supported `Rust` version.
    pub msrv: &'static str,
    /// Versioned config schema currently emitted by the crate.
    pub config_schema_version: u32,
    /// Public `API` review criterion.
    pub public_api: PublicApiReview,
    /// `no_std` feasibility criterion.
    pub no_std: NoStdFeasibilityReport,
    /// Supply-chain and release-artifact criterion.
    pub supply_chain: SupplyChainReview,
    /// External-review criterion for exactness and memory claims.
    pub claims: ClaimReview,
}

/// Returns the current stabilization report.
pub fn stabilization_report() -> (r: StabilizationReport)
    ensures
        r.msrv@ == MSRV@,
        r.config_schema_version == CONFIG_SCHEMA_VERSION,
        r.public_api == (PublicApiReview {
            review_version: PUBLIC_API_REVIEW_VERSION,
            root_reexports_reviewed: true,
            missing_docs_denied: true,
            unsafe_code_forbidden: true,
        }),
        r.no_std.readiness == NoStdReadiness::RequiresStd,
        r.no_std.alloc_only_core_feasible,
        r.no_std.blockers@ == seq![
            NoStdBlocker::HotCacheAllocation,
            NoStdBlocker::ThreadExecutor,
            NoStdBlocker::ValidationHarness,
        ],
        r.supply_chain == (SupplyChainReview {
            runtime_dependency_count: 0,
            cargo_deny_policy_shipped: true,
            checksum_manifest_script_shipped: true,
            signing_script_shipped: true,
        }),
        r.claims == (ClaimReview {
            exactness_claim_documented: true,
            memory_claim_documented: true,
            status: StabilizationStatus::RequiresExternalReview,
        }),
{
    let blockers = [
        NoStdBlocker::HotCacheAllocation,
        NoStdBlocker::ThreadExecutor,
        NoStdBlocker::ValidationHarness,
    ];
    StabilizationReport {
        msrv: MSRV,
        config_schema_version: CONFIG_SCHEMA_VERSION,
        public_api: PublicApiReview {
            review_version: PUBLIC_API_REVIEW_VERSION,
            root_reexports_reviewed: true,
            missing_docs_denied: true,
            unsafe_code_forbidden: true,
        },
        no_std: NoStdFeasibilityReport {
            readiness: NoStdReadiness::RequiresStd,
            alloc_only_core_feasible: true,
            blockers,
        },
        supply_chain: SupplyChainReview {
            runtime_dependency_count: 0,
            cargo_deny_policy_shipped: true,
            checksum_manifest_script_shipped: true,
            signing_script_shipped: true,
        },
        claims: ClaimReview {
            exactness_claim_documented: true,
            memory_claim_documented: true,
            status: StabilizationStatus::RequiresExternalReview,
        },
    }
}

} // verus!
