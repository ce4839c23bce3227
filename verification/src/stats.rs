//! Runtime counters and immutable statistics snapshots.
//!
//! Lightweight observability for hot hits, cold regeneration, cache pressure
//! and folded-attention token consumption. Counters saturate instead of
//! wrapping.

use vstd::prelude::*;

verus! {

/// `a + b`, clamped to `u64::MAX`.
pub open spec fn sat_add_u64(a: int, b: int) -> u64 {
    if a + b > u64::MAX { u64::MAX } else { (a + b) as u64 }
}

/// `a * b`, clamped to `u64::MAX`.
pub open spec fn sat_mul_u64(a: int, b: int) -> u64 {
    if a * b > u64::MAX { u64::MAX } else { (a * b) as u64 }
}

/// Saturating `u64` addition.
pub fn saturating_add_u64(a: u64, b: u64) -> (r: u64)
    ensures
        r == sat_add_u64(a as int, b as int),
{
    match a.checked_add(b) {
        Some(sum) => sum,
        None => u64::MAX,
    }
}

/// Saturating `u64` multiplication.
pub fn saturating_mul_u64(a: u64, b: u64) -> (r: u64)
    ensures
        r == sat_mul_u64(a as int, b as int),
{
    match a.checked_mul(b) {
        Some(product) => product,
        None => u64::MAX,
    }
}

/// Mutable execution counters collected by the attention runtime.
#[derive(Debug, Clone, PartialEq, Eq)]
pub struct CfrCounters {
    /// Number of resident hot-cache page hits.
    pub hot_hits: u64,
    /// Number of cold pages regenerated.
    pub cold_regenerations: u64,
    /// Number of page insertions into hot cache that succeeded.
    pub cache_admissions: u64,
    /// Number of page insertions rejected by cache budget.
    pub cache_admission_rejections: u64,
    /// Number of pages evicted from hot cache.
    pub cache_evictions: u64,
    /// Number of tokens consumed by folded attention.
    pub consumed_tokens: u64,
}

/// All counters are zero.
pub open spec fn counters_zero(c: CfrCounters) -> bool {
    &&& c.hot_hits == 0
    &&& c.cold_regenerations == 0
    &&& c.cache_admissions == 0
    &&& c.cache_admission_rejections == 0
    &&& c.cache_evictions == 0
    &&& c.consumed_tokens == 0
}

impl Default for CfrCounters {
    fn default() -> (c: Self)
        ensures
            counters_zero(c),
    {
        CfrCounters {
            hot_hits: 0,
            cold_regenerations: 0,
            cache_admissions: 0,
            cache_admission_rejections: 0,
            cache_evictions: 0,
            consumed_tokens: 0,
        }
    }
}

impl CfrCounters {
    /// Resets all counters to zero.
    pub fn reset(&mut self)
        ensures
            counters_zero(*final(self)),
    {
        *self = Self::default();
    }

    /// The snapshot of these counters with the given cache usage.
    pub open spec fn snapshot_spec(self, hot_cache_bytes: usize, hot_cache_pages: usize) -> CfrStatsSnapshot {
        CfrStatsSnapshot {
            hot_hits: self.hot_hits,
            cold_regenerations: self.cold_regenerations,
            cache_admissions: self.cache_admissions,
            cache_admission_rejections: self.cache_admission_rejections,
            cache_evictions: self.cache_evictions,
            consumed_tokens: self.consumed_tokens,
            hot_cache_bytes,
            hot_cache_pages,
        }
    }

    /// Returns an immutable snapshot together with the current cache usage.
    pub fn snapshot(&self, hot_cache_bytes: usize, hot_cache_pages: usize) -> (s: CfrStatsSnapshot)
        ensures
            s == self.snapshot_spec(hot_cache_bytes, hot_cache_pages),
            s == (CfrStatsSnapshot {
                hot_hits: self.hot_hits,
                cold_regenerations: self.cold_regenerations,
                cache_admissions: self.cache_admissions,
                cache_admission_rejections: self.cache_admission_rejections,
                cache_evictions: self.cache_evictions,
                consumed_tokens: self.consumed_tokens,
                hot_cache_bytes,
                hot_cache_pages,
            }),
    {
        CfrStatsSnapshot {
            hot_hits: self.hot_hits,
            cold_regenerations: self.cold_regenerations,
            cache_admissions: self.cache_admissions,
            cache_admission_rejections: self.cache_admission_rejections,
            cache_evictions: self.cache_evictions,
            consumed_tokens: self.consumed_tokens,
            hot_cache_bytes,
            hot_cache_pages,
        }
    }
}

/// Read-only statistics snapshot.
#[derive(Debug, Clone, Copy, PartialEq, Eq)]
pub struct CfrStatsSnapshot {
    /// Number of resident hot-cache page hits.
    pub hot_hits: u64,
    /// Number of cold pages regenerated.
    pub cold_regenerations: u64,
    /// Number of page insertions into hot cache that succeeded.
    pub cache_admissions: u64,
    /// Number of page insertions rejected by cache budget.
    pub cache_admission_rejections: u64,
    /// Number of pages evicted from hot cache.
    pub cache_evictions: u64,
    /// Number of tokens consumed by folded attention.
    pub consumed_tokens: u64,
    /// Current hot-cache bytes.
    pub hot_cache_bytes: usize,
    /// Current hot-cache page count.
    pub hot_cache_pages: usize,
}

} // verus!
