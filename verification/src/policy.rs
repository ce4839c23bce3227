//! Residency policy hooks for regenerated pages.
//!
//! Policies change speed and RAM pressure only: a dropped page remains
//! exactly regenerable, so no decision can change the attention result.

use vstd::prelude::*;
use crate::page::PageKey;
use crate::stats::{sat_add_u64, sat_mul_u64, saturating_add_u64, saturating_mul_u64, CfrStatsSnapshot};

verus! {

/// Residency decision for a regenerated page.
#[derive(Debug, Clone, Copy, PartialEq, Eq, Structural)]
pub enum ResidencyDecision {
    /// Do not store the regenerated page.
    Drop,
    /// Store the regenerated page if hot-cache budget allows it.
    Admit,
}

/// Telemetry available to residency policies.
#[derive(Debug, Clone, Copy)]
pub struct ResidencyContext<'a> {
    /// Page being considered for admission.
    pub key: PageKey,
    /// Token rows in the regenerated page.
    pub page_tokens: usize,
    /// Full causal context length.
    pub context_tokens: usize,
    /// Immutable stats snapshot captured before the decision.
    pub stats: &'a CfrStatsSnapshot,
    /// Global hot-cache budget in bytes.
    pub hot_cache_max_bytes: usize,
    /// Global hot-cache bytes currently resident.
    pub hot_cache_used_bytes: usize,
}

/// Policy hook that decides whether a regenerated cold page should become hot.
///
/// A policy only changes speed and RAM, never the attention result.
pub trait ResidencyPolicy {
    /// Whether `d` is a decision the policy can make for a page of
    /// `page_tokens` rows at `key` in a context of `context_tokens` tokens.
    /// Unless a policy says more, any decision is.
    open spec fn spec_decides(
        &self,
        key: PageKey,
        page_tokens: usize,
        context_tokens: usize,
        d: ResidencyDecision,
    ) -> bool {
        true
    }

    /// Whether `d` is a decision the policy can make given the cache
    /// telemetry of a [`ResidencyContext`]. Unless a policy says more, it is
    /// a decision the policy can make for the page alone.
    open spec fn spec_decides_with_telemetry(
        &self,
        key: PageKey,
        page_tokens: usize,
        context_tokens: usize,
        stats: CfrStatsSnapshot,
        hot_cache_max_bytes: usize,
        hot_cache_used_bytes: usize,
        d: ResidencyDecision,
    ) -> bool {
        self.spec_decides(key, page_tokens, context_tokens, d)
    }

    /// Decides whether a page should be admitted after exact regeneration.
    fn decide(&self, key: PageKey, page_tokens: usize, context_tokens: usize) -> (d: ResidencyDecision)
        ensures
            self.spec_decides(key, page_tokens, context_tokens, d),
    ;

    /// Decides with cache telemetry. Policies that do not need telemetry keep
    /// the default, which forwards to [`ResidencyPolicy::decide`].
    fn decide_with_context(&self, context: &ResidencyContext<'_>) -> (d: ResidencyDecision)
        ensures
            self.spec_decides_with_telemetry(
                context.key,
                context.page_tokens,
                context.context_tokens,
                *context.stats,
                context.hot_cache_max_bytes,
                context.hot_cache_used_bytes,
                d,
            ) || self.spec_decides(context.key, context.page_tokens, context.context_tokens, d),
        default_ensures
            self.spec_decides(context.key, context.page_tokens, context.context_tokens, d),
    {
        self.decide(context.key, context.page_tokens, context.context_tokens)
    }
}

/// Never admits regenerated pages. This gives the lowest resident memory.
#[derive(Debug, Default, Clone, Copy)]
pub struct NeverAdmit;

impl ResidencyPolicy for NeverAdmit {
    open spec fn spec_decides(
        &self,
        key: PageKey,
        page_tokens: usize,
        context_tokens: usize,
        d: ResidencyDecision,
    ) -> bool {
        d == ResidencyDecision::Drop
    }

    open spec fn spec_decides_with_telemetry(
        &self,
        key: PageKey,
        page_tokens: usize,
        context_tokens: usize,
        stats: CfrStatsSnapshot,
        hot_cache_max_bytes: usize,
        hot_cache_used_bytes: usize,
        d: ResidencyDecision,
    ) -> bool {
        d == ResidencyDecision::Drop
    }

    fn decide(&self, key: PageKey, page_tokens: usize, context_tokens: usize) -> (d:
        ResidencyDecision)
        ensures
            d == ResidencyDecision::Drop,
    {
        ResidencyDecision::Drop
    }

    fn decide_with_context(&self, context: &ResidencyContext<'_>) -> (d: ResidencyDecision)
        ensures
            d == ResidencyDecision::Drop,
    {
        ResidencyDecision::Drop
    }
}

/// Whether a page ending at `start + page_tokens` reaches the last
/// `recent_tokens` tokens of the context.
pub open spec fn keep_recent_decision(
    start_token: int,
    page_tokens: int,
    context_tokens: int,
    recent_tokens: int,
) -> ResidencyDecision {
    if start_token + page_tokens > usize::MAX {
        ResidencyDecision::Drop
    } else if start_token + page_tokens >= (if context_tokens > recent_tokens {
        context_tokens - recent_tokens
    } else {
        0
    }) {
        ResidencyDecision::Admit
    } else {
        ResidencyDecision::Drop
    }
}

/// A page is kept exactly when it reaches the last `recent_tokens` tokens of
/// the context: a page whose end (its start plus its length, when that fits
/// `usize`) is within `recent_tokens` of the context end is admitted, every
/// other page is dropped; in particular the page that ends at the context
/// end is always admitted.
pub proof fn lemma_keep_recent_admits_recent_pages(
    start_token: usize,
    page_tokens: usize,
    context_tokens: usize,
    recent_tokens: usize,
)
    ensures
        start_token + page_tokens <= usize::MAX ==> (keep_recent_decision(
            start_token as int,
            page_tokens as int,
            context_tokens as int,
            recent_tokens as int,
        ) == ResidencyDecision::Admit <==> start_token + page_tokens + recent_tokens
            >= context_tokens),
        start_token + page_tokens > usize::MAX ==> keep_recent_decision(
            start_token as int,
            page_tokens as int,
            context_tokens as int,
            recent_tokens as int,
        ) == ResidencyDecision::Drop,
        start_token + page_tokens == context_tokens ==> keep_recent_decision(
            start_token as int,
            page_tokens as int,
            context_tokens as int,
            recent_tokens as int,
        ) == ResidencyDecision::Admit,
{
}

/// Keeps pages near the causal frontier hot.
#[derive(Debug, Clone, Copy)]
pub struct KeepRecent {
    /// Number of most recent tokens considered worth keeping resident.
    pub recent_tokens: usize,
}

impl KeepRecent {
    fn decide_recent(&self, key: PageKey, page_tokens: usize, context_tokens: usize) -> (d:
        ResidencyDecision)
        ensures
            d == keep_recent_decision(
                key.start_token as int,
                page_tokens as int,
                context_tokens as int,
                self.recent_tokens as int,
            ),
    {
        let end = match key.start_token.checked_add(page_tokens) {
            Some(end) => end,
            None => return ResidencyDecision::Drop,
        };
        let frontier = if context_tokens > self.recent_tokens {
            context_tokens - self.recent_tokens
        } else {
            0
        };
        if end >= frontier {
            ResidencyDecision::Admit
        } else {
            ResidencyDecision::Drop
        }
    }
}

impl ResidencyPolicy for KeepRecent {
    open spec fn spec_decides(
        &self,
        key: PageKey,
        page_tokens: usize,
        context_tokens: usize,
        d: ResidencyDecision,
    ) -> bool {
        d == keep_recent_decision(
            key.start_token as int,
            page_tokens as int,
            context_tokens as int,
            self.recent_tokens as int,
        )
    }

    fn decide(&self, key: PageKey, page_tokens: usize, context_tokens: usize) -> (d:
        ResidencyDecision)
        ensures
            d == keep_recent_decision(
                key.start_token as int,
                page_tokens as int,
                context_tokens as int,
                self.recent_tokens as int,
            ),
    {
        self.decide_recent(key, page_tokens, context_tokens)
    }

    fn decide_with_context(&self, context: &ResidencyContext<'_>) -> (d: ResidencyDecision)
        ensures
            d == keep_recent_decision(
                context.key.start_token as int,
                context.page_tokens as int,
                context.context_tokens as int,
                self.recent_tokens as int,
            ),
    {
        self.decide_recent(context.key, context.page_tokens, context.context_tokens)
    }
}

/// Telemetry-driven policy for balanced memory and speed.
#[derive(Debug, Clone, Copy)]
pub struct TelemetryResidencyPolicy {
    /// Always keep this many newest tokens eligible for residency.
    pub recent_tokens: usize,
    /// Maximum allowed hot-cache utilization in permille before new admissions stop.
    pub max_utilization_per_mille: u16,
    /// Admit more aggressively while the hit rate is below this permille value.
    pub target_hit_rate_per_mille: u16,
}

/// Hot-cache utilization in permille (`1000` for a zero budget).
pub open spec fn utilization_spec(used: int, max: int) -> int {
    if max == 0 {
        1000
    } else {
        sat_mul_u64(used, 1000) as int / max
    }
}

/// Hot-hit rate in permille among all consumed pages (`0` before any page).
pub open spec fn hit_rate_spec(stats: CfrStatsSnapshot) -> int {
    let total = sat_add_u64(stats.hot_hits as int, stats.cold_regenerations as int);
    if total == 0 {
        0
    } else {
        sat_mul_u64(stats.hot_hits as int, 1000) as int / total as int
    }
}

/// The telemetry policy's decision for a page and the cache telemetry.
pub open spec fn telemetry_decision(
    policy: TelemetryResidencyPolicy,
    key: PageKey,
    page_tokens: usize,
    context_tokens: usize,
    stats: CfrStatsSnapshot,
    hot_cache_max_bytes: usize,
    hot_cache_used_bytes: usize,
) -> ResidencyDecision {
    if keep_recent_decision(
        key.start_token as int,
        page_tokens as int,
        context_tokens as int,
        policy.recent_tokens as int,
    ) == ResidencyDecision::Drop {
        ResidencyDecision::Drop
    } else if hot_cache_max_bytes == 0 {
        ResidencyDecision::Drop
    } else if utilization_spec(
        hot_cache_used_bytes as int,
        hot_cache_max_bytes as int,
    ) >= policy.max_utilization_per_mille {
        ResidencyDecision::Drop
    } else if hit_rate_spec(stats) < policy.target_hit_rate_per_mille
        || stats.hot_cache_pages == 0 {
        ResidencyDecision::Admit
    } else {
        ResidencyDecision::Drop
    }
}

impl TelemetryResidencyPolicy {
    /// Creates a balanced telemetry policy.
    pub fn balanced(recent_tokens: usize) -> (p: Self)
        ensures
            p == (TelemetryResidencyPolicy {
                recent_tokens,
                max_utilization_per_mille: 900,
                target_hit_rate_per_mille: 350,
            }),
    {
        Self { recent_tokens, max_utilization_per_mille: 900, target_hit_rate_per_mille: 350 }
    }
}

impl ResidencyPolicy for TelemetryResidencyPolicy {
    open spec fn spec_decides(
        &self,
        key: PageKey,
        page_tokens: usize,
        context_tokens: usize,
        d: ResidencyDecision,
    ) -> bool {
        d == keep_recent_decision(
            key.start_token as int,
            page_tokens as int,
            context_tokens as int,
            self.recent_tokens as int,
        )
    }

    open spec fn spec_decides_with_telemetry(
        &self,
        key: PageKey,
        page_tokens: usize,
        context_tokens: usize,
        stats: CfrStatsSnapshot,
        hot_cache_max_bytes: usize,
        hot_cache_used_bytes: usize,
        d: ResidencyDecision,
    ) -> bool {
        d == telemetry_decision(
            *self,
            key,
            page_tokens,
            context_tokens,
            stats,
            hot_cache_max_bytes,
            hot_cache_used_bytes,
        )
    }

    fn decide(&self, key: PageKey, page_tokens: usize, context_tokens: usize) -> (d:
        ResidencyDecision)
        ensures
            d == keep_recent_decision(
                key.start_token as int,
                page_tokens as int,
                context_tokens as int,
                self.recent_tokens as int,
            ),
    {
        KeepRecent { recent_tokens: self.recent_tokens }.decide_recent(
            key,
            page_tokens,
            context_tokens,
        )
    }

    fn decide_with_context(&self, context: &ResidencyContext<'_>) -> (d: ResidencyDecision)
        ensures
            d == telemetry_decision(
                *self,
                context.key,
                context.page_tokens,
                context.context_tokens,
                *context.stats,
                context.hot_cache_max_bytes,
                context.hot_cache_used_bytes,
            ),
    {
        let recent = KeepRecent { recent_tokens: self.recent_tokens }.decide_recent(
            context.key,
            context.page_tokens,
            context.context_tokens,
        );
        if recent == ResidencyDecision::Drop {
            return ResidencyDecision::Drop;
        }
        if context.hot_cache_max_bytes == 0 {
            return ResidencyDecision::Drop;
        }
        if utilization_per_mille(context.hot_cache_used_bytes, context.hot_cache_max_bytes)
            >= self.max_utilization_per_mille as u64 {
            return ResidencyDecision::Drop;
        }
        if hit_rate_per_mille(context.stats) < self.target_hit_rate_per_mille as u64
            || context.stats.hot_cache_pages == 0 {
            ResidencyDecision::Admit
        } else {
            ResidencyDecision::Drop
        }
    }
}

fn utilization_per_mille(used: usize, max: usize) -> (r: u64)
    ensures
        r == utilization_spec(used as int, max as int),
{
    if max == 0 {
        return 1000;
    }
    let scaled = saturating_mul_u64(used as u64, 1000);
    scaled / (max as u64)
}

fn hit_rate_per_mille(stats: &CfrStatsSnapshot) -> (r: u64)
    ensures
        r == hit_rate_spec(*stats),
{
    let total = saturating_add_u64(stats.hot_hits, stats.cold_regenerations);
    if total == 0 {
        0
    } else {
        saturating_mul_u64(stats.hot_hits, 1000) / total
    }
}

} // verus!
