//! Deterministic memory estimates used by the stabilization harness.
//!
//! Bounded `CFR` residency (one scratch page plus the hot-cache budget)
//! against resident full-`KV` memory for one layer/head.

use vstd::prelude::*;
use crate::error::{CfrError, Result};
use crate::layout::{checked_add, checked_kv_bytes, kv_bytes_spec};

verus! {

/// One benchmark scenario for resident full-`KV` versus bounded `CFR` memory.
#[derive(Debug, Clone, Copy, PartialEq, Eq, Structural)]
pub struct BenchScenario {
    /// Causal context length in tokens.
    pub context_tokens: usize,
    /// Attention head dimension.
    pub head_dim: usize,
    /// `CFR` virtual page size in tokens.
    pub page_tokens: usize,
    /// Resident hot-cache budget counted with the scratch page.
    pub hot_cache_budget_bytes: usize,
}

impl BenchScenario {
    /// Creates a benchmark scenario.
    pub fn new(
        context_tokens: usize,
        head_dim: usize,
        page_tokens: usize,
        hot_cache_budget_bytes: usize,
    ) -> (s: Self)
        ensures
            s == (BenchScenario { context_tokens, head_dim, page_tokens, hot_cache_budget_bytes }),
    {
        Self { context_tokens, head_dim, page_tokens, hot_cache_budget_bytes }
    }
}

/// Deterministic byte estimate for one benchmark scenario. The memory
/// reduction factor is `baseline_kv_bytes / cfr_resident_budget_bytes`.
#[derive(Debug, Clone, Copy, PartialEq, Eq)]
pub struct BenchEstimate {
    /// Full-`KV` resident bytes for one layer/head.
    pub baseline_kv_bytes: usize,
    /// Scratch K/V bytes for one `CFR` page.
    pub cfr_scratch_bytes: usize,
    /// Scratch plus configured hot-cache budget.
    pub cfr_resident_budget_bytes: usize,
}

/// The shape error `estimate_benchmark_memory` reports, if any.
pub open spec fn scenario_error(s: BenchScenario) -> Option<CfrError> {
    if s.context_tokens == 0 {
        Some(CfrError::InvalidConfig("benchmark context_tokens must be non-zero"))
    } else if s.head_dim == 0 {
        Some(CfrError::InvalidConfig("benchmark head_dim must be non-zero"))
    } else if s.page_tokens == 0 || s.page_tokens > s.context_tokens {
        Some(CfrError::InvalidConfig("benchmark page_tokens must be in 1..=context_tokens"))
    } else {
        None
    }
}

/// Largest integer that an `f64` holds exactly.
pub const F64_EXACT_INT_MAX: u64 = 9_007_199_254_740_991;

/// The estimate for a scenario, or the first failure: an invalid shape, an
/// overflowing byte count, or a byte count that the `f64` reduction factor
/// cannot hold exactly.
pub open spec fn estimate_spec(s: BenchScenario) -> Result<BenchEstimate> {
    let baseline = kv_bytes_spec(s.context_tokens as int, s.head_dim as int);
    let scratch = kv_bytes_spec(s.page_tokens as int, s.head_dim as int);
    let resident = scratch + s.hot_cache_budget_bytes;
    match scenario_error(s) {
        Some(e) => Err(e),
        None => if baseline > usize::MAX {
            Err(CfrError::CapacityOverflow { name: "benchmark baseline KV bytes" })
        } else if scratch > usize::MAX {
            Err(CfrError::CapacityOverflow { name: "benchmark CFR scratch bytes" })
        } else if resident > usize::MAX {
            Err(CfrError::CapacityOverflow { name: "benchmark CFR resident bytes" })
        } else if resident != 0 && baseline > F64_EXACT_INT_MAX {
            Err(CfrError::Numeric("benchmark baseline bytes"))
        } else if resident != 0 && resident > F64_EXACT_INT_MAX {
            Err(CfrError::Numeric("benchmark resident bytes"))
        } else {
            Ok(
                BenchEstimate {
                    baseline_kv_bytes: baseline as usize,
                    cfr_scratch_bytes: scratch as usize,
                    cfr_resident_budget_bytes: resident as usize,
                },
            )
        },
    }
}

/// An estimate counts K and V as four-byte values: the baseline holds every
/// context token and the scratch one page, each `head_dim` wide, and the
/// resident budget is the scratch page plus the hot-cache budget.
pub proof fn lemma_estimate_counts(s: BenchScenario)
    ensures
        estimate_spec(s) matches Ok(e) ==> {
            &&& e.baseline_kv_bytes == s.context_tokens * s.head_dim * 8
            &&& e.cfr_scratch_bytes == s.page_tokens * s.head_dim * 8
            &&& e.cfr_resident_budget_bytes == e.cfr_scratch_bytes + s.hot_cache_budget_bytes
        },
{
}

/// Estimates memory pressure for one scenario. The reduction factor
/// `baseline_kv_bytes / cfr_resident_budget_bytes` is formed in `f64`, so
/// both counts must be integers that an `f64` holds exactly.
pub fn estimate_benchmark_memory(scenario: BenchScenario) -> (res: Result<BenchEstimate>)
    ensures
        res == estimate_spec(scenario),
{
    if scenario.context_tokens == 0 {
        return Err(CfrError::InvalidConfig("benchmark context_tokens must be non-zero"));
    }
    if scenario.head_dim == 0 {
        return Err(CfrError::InvalidConfig("benchmark head_dim must be non-zero"));
    }
    if scenario.page_tokens == 0 || scenario.page_tokens > scenario.context_tokens {
        return Err(CfrError::InvalidConfig("benchmark page_tokens must be in 1..=context_tokens"));
    }
    let baseline_kv_bytes = checked_kv_bytes(
        "benchmark baseline KV bytes",
        scenario.context_tokens,
        scenario.head_dim,
    )?;
    let cfr_scratch_bytes = checked_kv_bytes(
        "benchmark CFR scratch bytes",
        scenario.page_tokens,
        scenario.head_dim,
    )?;
    let cfr_resident_budget_bytes = checked_add(
        "benchmark CFR resident bytes",
        cfr_scratch_bytes,
        scenario.hot_cache_budget_bytes,
    )?;
    if cfr_resident_budget_bytes != 0 {
        if baseline_kv_bytes as u64 > F64_EXACT_INT_MAX {
            return Err(CfrError::Numeric("benchmark baseline bytes"));
        }
        if cfr_resident_budget_bytes as u64 > F64_EXACT_INT_MAX {
            return Err(CfrError::Numeric("benchmark resident bytes"));
        }
    }
    Ok(BenchEstimate { baseline_kv_bytes, cfr_scratch_bytes, cfr_resident_budget_bytes })
}

/// Context lengths of the stabilization matrix.
pub open spec fn bench_contexts() -> Seq<usize> {
    seq![4096usize, 16384usize, 65536usize]
}

/// Head dimensions of the stabilization matrix.
pub open spec fn bench_head_dims() -> Seq<usize> {
    seq![64usize, 128usize]
}

/// Page sizes of the stabilization matrix.
pub open spec fn bench_pages() -> Seq<usize> {
    seq![128usize, 512usize, 1024usize]
}

/// Scenario `i` of the stabilization matrix: contexts outermost, then head
/// dimensions, then page sizes, each without and then with a 64 MiB budget.
pub open spec fn bench_scenario_at(i: int) -> BenchScenario {
    let budget_index = i % 2;
    let page_index = (i / 2) % 3;
    let head_index = (i / 6) % 2;
    let context_index = i / 12;
    BenchScenario {
        context_tokens: bench_contexts()[context_index],
        head_dim: bench_head_dims()[head_index],
        page_tokens: bench_pages()[page_index],
        hot_cache_budget_bytes: if budget_index == 0 { 0 } else { 67108864 },
    }
}

/// Returns the default stabilization benchmark scenarios.
pub fn stabilization_benchmark_scenarios() -> (scenarios: Vec<BenchScenario>)
    ensures
        scenarios@.len() == 36,
        forall|i: int| 0 <= i < 36 ==> #[trigger] scenarios@[i] == bench_scenario_at(i),
{
    let contexts: [usize; 3] = [4096, 16384, 65536];
    let head_dims: [usize; 2] = [64, 128];
    let pages: [usize; 3] = [128, 512, 1024];
    let mut scenarios: Vec<BenchScenario> = Vec::new();
    let mut c: usize = 0;
    while c < 3
        invariant
            0 <= c <= 3,
            contexts@ == bench_contexts(),
            head_dims@ == bench_head_dims(),
            pages@ == bench_pages(),
            scenarios@.len() == 12 * c,
            forall|i: int| 0 <= i < scenarios@.len() ==> #[trigger] scenarios@[i] == bench_scenario_at(i),
        decreases 3 - c,
    {
        let mut h: usize = 0;
        while h < 2
            invariant
                0 <= c < 3,
                0 <= h <= 2,
                contexts@ == bench_contexts(),
                head_dims@ == bench_head_dims(),
                pages@ == bench_pages(),
                scenarios@.len() == 12 * c + 6 * h,
                forall|i: int| 0 <= i < scenarios@.len() ==> #[trigger] scenarios@[i] == bench_scenario_at(i),
            decreases 2 - h,
        {
            let mut p: usize = 0;
            while p < 3
                invariant
                    0 <= c < 3,
                    0 <= h < 2,
                    0 <= p <= 3,
                    contexts@ == bench_contexts(),
                    head_dims@ == bench_head_dims(),
                    pages@ == bench_pages(),
                    scenarios@.len() == 12 * c + 6 * h + 2 * p,
                    forall|i: int| 0 <= i < scenarios@.len() ==> #[trigger] scenarios@[i] == bench_scenario_at(i),
                decreases 3 - p,
            {
                let base = scenarios.len();
                scenarios.push(BenchScenario::new(contexts[c], head_dims[h], pages[p], 0));
                scenarios.push(BenchScenario::new(contexts[c], head_dims[h], pages[p], 67_108_864));
                proof {
                    let b = base as int;
                    assert(b == 12 * c + 6 * h + 2 * p);
                    assert(b % 2 == 0 && (b / 2) % 3 == p && (b / 6) % 2 == h && b / 12 == c);
                    assert((b + 1) % 2 == 1 && ((b + 1) / 2) % 3 == p && ((b + 1) / 6) % 2 == h
                        && (b + 1) / 12 == c);
                    assert(scenarios@[b] == bench_scenario_at(b));
                    assert(scenarios@[b + 1] == bench_scenario_at(b + 1));
                }
                p += 1;
            }
            h += 1;
        }
        c += 1;
    }
    scenarios
}

} // verus!
