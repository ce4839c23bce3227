//! Runtime state of exact virtual-`KV` attention: configuration, bounded hot
//! cache and execution counters, together with the page-by-page decisions of
//! one attention request.
//!
//! An attention request walks the causal context in pages of at most
//! `page_tokens` tokens. Each page is consumed from the hot cache when a
//! resident page of the same shape exists; otherwise it is regenerated into
//! scratch storage, consumed, and offered to the residency policy for
//! admission. The numeric reduction itself is performed by the caller.

use vstd::prelude::*;
use crate::cache::{lookup, CachedPage, HotCache, InsertOutcome, PageView};
use crate::config::{config_error, config_valid, Config};
use crate::error::{CfrError, Result};
use crate::layout::{checked_add, expect_len, kv_bytes_spec};
use crate::page::PageKey;
use crate::policy::{ResidencyContext, ResidencyDecision, ResidencyPolicy};
use crate::stats::{sat_add_u64, saturating_add_u64, CfrCounters, CfrStatsSnapshot};

verus! {

/// Configuration, hot cache and counters of one attention runtime.
#[derive(Debug)]
pub struct AtlasCore {
    config: Config,
    cache: HotCache,
    counters: CfrCounters,
}

/// End of the page that starts at `start`: `min(start + page_tokens, context_tokens)`.
pub open spec fn page_end(start: int, page_tokens: int, context_tokens: int) -> int {
    if start + page_tokens < context_tokens {
        start + page_tokens
    } else {
        context_tokens
    }
}

/// The pages that cover a context from `start` on, as `(start, end)` pairs:
/// each begins where the previous one ended, as [`AtlasCore::page_end`]
/// computes the ends.
pub open spec fn page_plan(start: int, page_tokens: int, context_tokens: int) -> Seq<(int, int)>
    decreases context_tokens - start,
{
    if start >= context_tokens || page_tokens <= 0 {
        Seq::empty()
    } else {
        seq![(start, page_end(start, page_tokens, context_tokens))] + page_plan(
            page_end(start, page_tokens, context_tokens),
            page_tokens,
            context_tokens,
        )
    }
}

/// The pages of a context cover it exactly once: they are non-empty, hold
/// at most `page_tokens` tokens, follow one another without gap or overlap,
/// start at the first token and end at the last one.
pub proof fn lemma_page_plan_covers(start: int, page_tokens: int, context_tokens: int)
    requires
        0 <= start < context_tokens,
        page_tokens > 0,
    ensures
        ({
            let plan = page_plan(start, page_tokens, context_tokens);
            &&& plan.len() > 0
            &&& plan[0].0 == start
            &&& plan.last().1 == context_tokens
            &&& forall|i: int|
                0 <= i < plan.len() ==> #[trigger] plan[i].0 < plan[i].1 <= plan[i].0 + page_tokens
            &&& forall|i: int| 0 <= i < plan.len() - 1 ==> #[trigger] plan[i].1 == plan[i + 1].0
            &&& forall|i: int| 0 <= i < plan.len() ==> #[trigger] plan[i].1 == page_end(plan[i].0, page_tokens, context_tokens)
        }),
    decreases context_tokens - start,
{
    let end = page_end(start, page_tokens, context_tokens);
    let plan = page_plan(start, page_tokens, context_tokens);
    let rest = page_plan(end, page_tokens, context_tokens);
    assert(plan == seq![(start, end)] + rest);
    if end < context_tokens {
        lemma_page_plan_covers(end, page_tokens, context_tokens);
        assert forall|i: int| 0 <= i < plan.len() - 1 implies #[trigger] plan[i].1 == plan[i + 1].0 by {
            if i > 0 {
                assert(plan[i] == rest[i - 1] && plan[i + 1] == rest[i]);
            }
        }
        assert forall|i: int| 0 <= i < plan.len() implies #[trigger] plan[i].0 < plan[i].1 <= plan[i].0
            + page_tokens by {
            if i > 0 {
                assert(plan[i] == rest[i - 1]);
            }
        }
        assert forall|i: int| 0 <= i < plan.len() implies #[trigger] plan[i].1 == page_end(
            plan[i].0,
            page_tokens,
            context_tokens,
        ) by {
            if i > 0 {
                assert(plan[i] == rest[i - 1]);
            }
        }
        assert(plan.last() == rest.last());
    } else {
        assert(rest.len() == 0);
        assert(plan.len() == 1);
    }
}

impl AtlasCore {
    /// Configuration in use.
    pub closed spec fn spec_config(self) -> Config {
        self.config
    }

    /// Hot cache in use.
    pub closed spec fn spec_cache(self) -> HotCache {
        self.cache
    }

    /// Counters.
    pub closed spec fn spec_counters(self) -> CfrCounters {
        self.counters
    }

    /// The configuration is valid, the cache is consistent and its budget is
    /// the configured one.
    pub closed spec fn wf(self) -> bool {
        &&& config_valid(self.config)
        &&& self.cache.wf()
        &&& self.cache.spec_max_bytes() == self.config.hot_cache_bytes
    }

    /// Creates the runtime state from a configuration, which must validate.
    pub fn new(config: Config) -> (res: Result<Self>)
        ensures
            config_error(config) matches Some(e) ==> res == Err::<Self, CfrError>(e),
            config_error(config) is None ==> (res matches Ok(core) && core.wf()
                && core.spec_config() == config && core.spec_cache()@ == Seq::<CachedPage>::empty()
                && core.spec_cache().spec_budgets() == Seq::<(u32, usize)>::empty()
                && crate::stats::counters_zero(core.spec_counters())),
    {
        config.validate()?;
        let cache = HotCache::new(config.hot_cache_bytes);
        Ok(Self { config, cache, counters: CfrCounters::default() })
    }

    /// Returns the immutable configuration.
    pub fn config(&self) -> (c: &Config)
        ensures
            *c == self.spec_config(),
    {
        &self.config
    }

    /// Returns the immutable hot cache.
    pub fn hot_cache(&self) -> (c: &HotCache)
        ensures
            *c == self.spec_cache(),
    {
        &self.cache
    }

    /// Returns the mutable hot cache. The core is well formed again after a
    /// change through it when the cache is well formed and keeps the
    /// configured global budget (see [`AtlasCore::lemma_wf_from_parts`]), as
    /// every method of [`HotCache`] does.
    pub fn hot_cache_mut(&mut self) -> (c: &mut HotCache)
        ensures
            *c == old(self).spec_cache(),
            final(self).spec_config() == old(self).spec_config(),
            final(self).spec_counters() == old(self).spec_counters(),
            final(self).spec_cache() == *final(c),
    {
        &mut self.cache
    }

    /// The core's well-formedness is that of its parts: a valid
    /// configuration, a well-formed hot cache, and a cache budget equal to the
    /// configured one.
    pub proof fn lemma_wf_from_parts(self)
        ensures
            self.wf() <==> (config_valid(self.spec_config()) && self.spec_cache().wf()
                && self.spec_cache().spec_max_bytes() == self.spec_config().hot_cache_bytes),
    {
    }

    /// Returns execution counters.
    pub fn counters(&self) -> (c: &CfrCounters)
        ensures
            *c == self.spec_counters(),
    {
        &self.counters
    }

    /// Resets execution counters.
    pub fn reset_counters(&mut self)
        requires
            old(self).wf(),
        ensures
            final(self).wf(),
            crate::stats::counters_zero(final(self).spec_counters()),
            final(self).spec_config() == old(self).spec_config(),
            final(self).spec_cache() == old(self).spec_cache(),
    {
        self.counters.reset();
    }

    /// Returns a point-in-time statistics snapshot.
    pub fn stats(&self) -> (s: CfrStatsSnapshot)
        requires
            self.wf(),
        ensures
            s == self.spec_counters().snapshot_spec(
                crate::cache::sum_bytes(self.spec_cache()@) as usize,
                self.spec_cache()@.len() as usize,
            ),
    {
        let used = self.cache.used_bytes();
        let pages = self.cache.len();
        self.counters.snapshot(used, pages)
    }

    /// Sets a per-layer hot-cache budget, evicting least-recently-used pages
    /// of that layer as needed; returns the number of evicted pages, which is
    /// added to the eviction counter.
    pub fn set_layer_hot_cache_bytes(&mut self, layer: u32, bytes: usize) -> (evicted: usize)
        requires
            old(self).wf(),
        ensures
            final(self).wf(),
            final(self).spec_config() == old(self).spec_config(),
            final(self).spec_cache()@ == crate::cache::evict_layer(old(self).spec_cache()@, layer, bytes as int),
            evicted == old(self).spec_cache()@.len() - final(self).spec_cache()@.len(),
            final(self).spec_cache().spec_budget(layer) == Some(bytes),
            forall|l: u32| l != layer ==> #[trigger] final(self).spec_cache().spec_budget(l)
                == old(self).spec_cache().spec_budget(l),
            final(self).spec_counters() == (CfrCounters {
                cache_evictions: sat_add_u64(old(self).spec_counters().cache_evictions as int, evicted as int),
                ..old(self).spec_counters()
            }),
    {
        let evicted = self.cache.set_layer_budget(layer, bytes);
        self.counters.cache_evictions = saturating_add_u64(self.counters.cache_evictions, evicted as u64);
        evicted
    }

    /// Removes a per-layer hot-cache budget.
    pub fn clear_layer_hot_cache_bytes(&mut self, layer: u32)
        requires
            old(self).wf(),
        ensures
            final(self).wf(),
            final(self).spec_config() == old(self).spec_config(),
            final(self).spec_counters() == old(self).spec_counters(),
            final(self).spec_cache()@ == old(self).spec_cache()@,
            final(self).spec_cache().spec_budget(layer) is None,
            forall|l: u32| l != layer ==> #[trigger] final(self).spec_cache().spec_budget(l)
                == old(self).spec_cache().spec_budget(l),
    {
        self.cache.clear_layer_budget(layer);
    }

    /// Returns the configured hot-cache budget for one layer.
    pub fn layer_hot_cache_bytes(&self, layer: u32) -> (b: Option<usize>)
        requires
            self.wf(),
        ensures
            b == self.spec_cache().spec_budget(layer),
    {
        self.cache.layer_budget(layer)
    }

    /// Returns the resident hot-cache bytes used by one layer.
    pub fn layer_used_hot_cache_bytes(&self, layer: u32) -> (n: usize)
        requires
            self.wf(),
        ensures
            n == crate::cache::layer_bytes(self.spec_cache()@, layer),
    {
        self.cache.layer_used_bytes(layer)
    }

    /// Inserts a known hot K/V page; an inserted page counts as an admission
    /// (its evictions are counted too) and a page over budget as a rejection.
    pub fn insert_hot_page(&mut self, key: PageKey, tokens: usize, k: &[u32], v: &[u32]) -> (res:
        Result<bool>)
        requires
            old(self).wf(),
        ensures
            final(self).wf(),
            final(self).spec_config() == old(self).spec_config(),
            exists|outcome: Result<InsertOutcome>| {
                &&& #[trigger] Self::insert_effect(*old(self), *final(self), key, tokens, k@, v@, outcome)
                &&& res == match outcome {
                    Ok(InsertOutcome::Inserted { .. }) => Ok::<bool, CfrError>(true),
                    Ok(InsertOutcome::RejectedTooLarge) => Ok::<bool, CfrError>(false),
                    Err(e) => Err::<bool, CfrError>(e),
                }
            },
    {
        let ghost old_cache = self.cache;
        let ghost before = self.counters;
        let outcome = self.cache.insert_internal(key, tokens, self.config.head_dim, k, v);
        let res = match outcome {
            Ok(InsertOutcome::Inserted { evicted }) => {
                self.count_inserted(evicted);
                Ok(true)
            },
            Ok(InsertOutcome::RejectedTooLarge) => {
                self.counters.cache_admission_rejections = saturating_add_u64(
                    self.counters.cache_admission_rejections,
                    1,
                );
                Ok(false)
            },
            Err(e) => Err(e),
        };
        assert(HotCache::insert_spec(old_cache, self.cache, key, tokens, self.config.head_dim, k@, v@, outcome));
        assert(Self::counted(before, self.counters, outcome));
        assert(Self::insert_effect(*old(self), *self, key, tokens, k@, v@, outcome));
        res
    }

    /// The cache and counter effect of inserting a page with this outcome.
    pub open spec fn insert_effect(
        old_core: Self,
        new_core: Self,
        key: PageKey,
        tokens: usize,
        k: Seq<u32>,
        v: Seq<u32>,
        outcome: Result<InsertOutcome>,
    ) -> bool {
        &&& HotCache::insert_spec(
            old_core.spec_cache(),
            new_core.spec_cache(),
            key,
            tokens,
            old_core.spec_config().head_dim,
            k,
            v,
            outcome,
        )
        &&& Self::counted(old_core.spec_counters(), new_core.spec_counters(), outcome)
    }

    /// An admitted page is served back unchanged: after an admission that
    /// inserted a regenerated page, the page resident under its key holds
    /// exactly the admitted rows, so a later hot hit consumes the same K and V
    /// values as a regeneration would.
    pub proof fn lemma_admitted_page_served(
        old_core: Self,
        new_core: Self,
        key: PageKey,
        tokens: usize,
        k: Seq<u32>,
        v: Seq<u32>,
        evicted: usize,
    )
        requires
            Self::insert_effect(
                old_core,
                new_core,
                key,
                tokens,
                k,
                v,
                Ok(InsertOutcome::Inserted { evicted }),
            ),
        ensures
            lookup(new_core.spec_cache()@, key) matches Some(p) && p.tokens == tokens && p.k == k
                && p.v == v,
    {
        HotCache::lemma_insert_then_lookup(
            old_core.spec_cache(),
            new_core.spec_cache(),
            key,
            tokens,
            old_core.spec_config().head_dim,
            k,
            v,
            evicted,
        );
    }

    /// How counters change for an insertion outcome.
    pub open spec fn counted(before: CfrCounters, after: CfrCounters, outcome: Result<InsertOutcome>) -> bool {
        match outcome {
            Ok(InsertOutcome::Inserted { evicted }) => after == (CfrCounters {
                cache_admissions: sat_add_u64(before.cache_admissions as int, 1),
                cache_evictions: sat_add_u64(before.cache_evictions as int, evicted as int),
                ..before
            }),
            Ok(InsertOutcome::RejectedTooLarge) => after == (CfrCounters {
                cache_admission_rejections: sat_add_u64(before.cache_admission_rejections as int, 1),
                ..before
            }),
            Err(_) => after == before,
        }
    }

    fn count_inserted(&mut self, evicted: usize)
        ensures
            final(self).config == old(self).config,
            final(self).cache == old(self).cache,
            final(self).counters == (CfrCounters {
                cache_admissions: sat_add_u64(old(self).counters.cache_admissions as int, 1),
                cache_evictions: sat_add_u64(old(self).counters.cache_evictions as int, evicted as int),
                ..old(self).counters
            }),
    {
        self.counters.cache_admissions = saturating_add_u64(self.counters.cache_admissions, 1);
        self.counters.cache_evictions = saturating_add_u64(self.counters.cache_evictions, evicted as u64);
    }

    /// Checks an attention request's shapes: the query and the output hold
    /// `head_dim` values and the context is not empty.
    pub fn check_request(&self, query_len: usize, output_len: usize, context_tokens: usize) -> (res: Result<()>)
        ensures
            query_len != self.spec_config().head_dim ==> res == Err::<(), CfrError>(
                CfrError::Dimension { name: "query", expected: self.spec_config().head_dim, got: query_len },
            ),
            query_len == self.spec_config().head_dim && output_len != self.spec_config().head_dim
                ==> res == Err::<(), CfrError>(
                CfrError::Dimension {
                    name: "attention output",
                    expected: self.spec_config().head_dim,
                    got: output_len,
                },
            ),
            query_len == self.spec_config().head_dim && output_len == self.spec_config().head_dim
                && context_tokens == 0 ==> res == Err::<(), CfrError>(
                CfrError::InvalidConfig("context_tokens must be non-zero"),
            ),
            query_len == self.spec_config().head_dim && output_len == self.spec_config().head_dim
                && context_tokens != 0 ==> res is Ok,
    {
        expect_len("query", self.config.head_dim, query_len)?;
        expect_len("attention output", self.config.head_dim, output_len)?;
        if context_tokens == 0 {
            return Err(CfrError::InvalidConfig("context_tokens must be non-zero"));
        }
        Ok(())
    }

    /// End of the page that starts at `start` (which lies inside the context):
    /// pages are contiguous, non-empty and hold at most `page_tokens` tokens,
    /// the last one ending exactly at the context end.
    pub fn page_end(&self, start: usize, context_tokens: usize) -> (res: Result<usize>)
        requires
            self.wf(),
            start < context_tokens,
        ensures
            start + self.spec_config().page_tokens > usize::MAX ==> res == Err::<usize, CfrError>(
                CfrError::CapacityOverflow { name: "attention page end" },
            ),
            start + self.spec_config().page_tokens <= usize::MAX ==> res == Ok::<usize, CfrError>(
                page_end(start as int, self.spec_config().page_tokens as int, context_tokens as int) as usize,
            ),
            res matches Ok(end) ==> start < end <= context_tokens && end - start
                <= self.spec_config().page_tokens && end - start <= self.spec_config().max_scratch_tokens,
    {
        let end = checked_add("attention page end", start, self.config.page_tokens)?;
        if end < context_tokens {
            Ok(end)
        } else {
            Ok(context_tokens)
        }
    }

    /// Looks up the resident page for a page of `tokens` rows. A resident page
    /// of the same shape is returned and becomes most recently used; a
    /// resident page of another shape is stale: it is removed (counted as an
    /// eviction) and the page must be regenerated.
    pub fn hot_page(&mut self, key: PageKey, tokens: usize) -> (view: Option<PageView<'_>>)
        requires
            old(self).wf(),
        ensures
            final(self).wf(),
            final(self).spec_config() == old(self).spec_config(),
            lookup(old(self).spec_cache()@, key) is None ==> view is None && final(self).spec_cache()@
                == old(self).spec_cache()@ && final(self).spec_counters() == old(self).spec_counters(),
            lookup(old(self).spec_cache()@, key) matches Some(p) ==> (if p.tokens != tokens {
                &&& view is None
                &&& final(self).spec_cache()@ == crate::cache::remove_key(old(self).spec_cache()@, key)
                &&& final(self).spec_counters() == (CfrCounters {
                    cache_evictions: sat_add_u64(old(self).spec_counters().cache_evictions as int, 1),
                    ..old(self).spec_counters()
                })
            } else {
                &&& view matches Some(v) && v.tokens == p.tokens && v.k@ == p.k && v.v@ == p.v
                &&& final(self).spec_cache()@ == old(self).spec_cache()@.remove(
                    crate::cache::index_of_key(old(self).spec_cache()@, key, 0),
                ).push(p)
                &&& final(self).spec_counters() == old(self).spec_counters()
            }),
    {
        let resident = self.cache.page_tokens(&key);
        match resident {
            None => None,
            Some(resident_tokens) => {
                if resident_tokens != tokens {
                    let removed = self.cache.remove(&key);
                    if removed {
                        self.counters.cache_evictions = saturating_add_u64(self.counters.cache_evictions, 1);
                    }
                    None
                } else {
                    self.cache.get(&key)
                }
            },
        }
    }

    /// Records a consumed hot page of `tokens` rows.
    pub fn record_hot_hit(&mut self, tokens: usize)
        ensures
            final(self).spec_config() == old(self).spec_config(),
            final(self).spec_cache() == old(self).spec_cache(),
            final(self).spec_counters() == (CfrCounters {
                hot_hits: sat_add_u64(old(self).spec_counters().hot_hits as int, 1),
                consumed_tokens: sat_add_u64(old(self).spec_counters().consumed_tokens as int, tokens as int),
                ..old(self).spec_counters()
            }),
    {
        self.counters.hot_hits = saturating_add_u64(self.counters.hot_hits, 1);
        self.counters.consumed_tokens = saturating_add_u64(self.counters.consumed_tokens, tokens as u64);
    }

    /// Number of values in each of the K and V scratch matrices of a cold
    /// page of `tokens` rows, which must fit the scratch limit.
    pub fn cold_page_len(&self, key: PageKey, tokens: usize) -> (res: Result<usize>)
        requires
            self.wf(),
        ensures
            tokens > self.spec_config().max_scratch_tokens ==> res == Err::<usize, CfrError>(
                CfrError::InvalidPage { key, message: "page exceeds max_scratch_tokens" },
            ),
            tokens <= self.spec_config().max_scratch_tokens ==> res == Ok::<usize, CfrError>(
                (tokens * self.spec_config().head_dim) as usize,
            ),
    {
        if tokens > self.config.max_scratch_tokens {
            return Err(CfrError::InvalidPage { key, message: "page exceeds max_scratch_tokens" });
        }
        proof {
            assert(tokens * self.config.head_dim <= self.config.max_scratch_tokens * self.config.head_dim)
                by (nonlinear_arith)
                requires
                    tokens <= self.config.max_scratch_tokens,
            ;
        }
        self.config.page_f32_len(tokens)
    }

    /// Records a regenerated cold page.
    pub fn record_cold_regeneration(&mut self)
        ensures
            final(self).spec_config() == old(self).spec_config(),
            final(self).spec_cache() == old(self).spec_cache(),
            final(self).spec_counters() == (CfrCounters {
                cold_regenerations: sat_add_u64(old(self).spec_counters().cold_regenerations as int, 1),
                ..old(self).spec_counters()
            }),
    {
        self.counters.cold_regenerations = saturating_add_u64(self.counters.cold_regenerations, 1);
    }

    /// Records `tokens` consumed rows of a cold page.
    pub fn record_consumed(&mut self, tokens: usize)
        ensures
            final(self).spec_config() == old(self).spec_config(),
            final(self).spec_cache() == old(self).spec_cache(),
            final(self).spec_counters() == (CfrCounters {
                consumed_tokens: sat_add_u64(old(self).spec_counters().consumed_tokens as int, tokens as int),
                ..old(self).spec_counters()
            }),
    {
        self.counters.consumed_tokens = saturating_add_u64(self.counters.consumed_tokens, tokens as u64);
    }

    /// What applying a residency decision to a regenerated page does: the
    /// page is inserted and counted when admission of regenerated pages is
    /// enabled and the decision is to admit it, and the result reports the
    /// insertion's error; otherwise nothing changes and the result is `Ok`.
    pub open spec fn decided(
        old_core: Self,
        new_core: Self,
        decision: ResidencyDecision,
        key: PageKey,
        tokens: usize,
        k: Seq<u32>,
        v: Seq<u32>,
        res: Result<()>,
    ) -> bool {
        if old_core.spec_config().admit_regenerated_pages && decision == ResidencyDecision::Admit {
            exists|outcome: Result<InsertOutcome>| {
                &&& #[trigger] Self::insert_effect(old_core, new_core, key, tokens, k, v, outcome)
                &&& res == match outcome {
                    Err(e) => Err::<(), CfrError>(e),
                    Ok(_) => Ok::<(), CfrError>(()),
                }
            }
        } else {
            &&& res is Ok
            &&& new_core.spec_cache() == old_core.spec_cache()
            &&& new_core.spec_counters() == old_core.spec_counters()
        }
    }

    /// The statistics snapshot a policy sees when a page is offered.
    pub open spec fn offer_stats(core: Self) -> CfrStatsSnapshot {
        core.spec_counters().snapshot_spec(
            crate::cache::sum_bytes(core.spec_cache()@) as usize,
            core.spec_cache()@.len() as usize,
        )
    }

    /// The context a policy decides with when a page is offered: the page,
    /// the context length, the statistics snapshot, and the hot cache's
    /// budget and resident bytes.
    pub open spec fn offer_context<'a>(
        core: Self,
        key: PageKey,
        tokens: usize,
        context_tokens: usize,
        stats: &'a CfrStatsSnapshot,
    ) -> ResidencyContext<'a> {
        ResidencyContext {
            key,
            page_tokens: tokens,
            context_tokens,
            stats,
            hot_cache_max_bytes: core.spec_cache().spec_max_bytes(),
            hot_cache_used_bytes: crate::cache::sum_bytes(core.spec_cache()@) as usize,
        }
    }

    /// Offers a regenerated and consumed page to the residency policy. When
    /// admission of regenerated pages is disabled, nothing changes. Otherwise
    /// the policy decides with the current telemetry (a policy that does not
    /// read it decides for the page alone); an admitted page is inserted into
    /// the hot cache and counted.
    pub fn offer_regenerated<P: ResidencyPolicy>(
        &mut self,
        policy: &P,
        key: PageKey,
        tokens: usize,
        context_tokens: usize,
        k: &[u32],
        v: &[u32],
    ) -> (res: Result<()>)
        requires
            old(self).wf(),
        ensures
            final(self).wf(),
            final(self).spec_config() == old(self).spec_config(),
            !old(self).spec_config().admit_regenerated_pages ==> res is Ok && final(self).spec_cache()
                == old(self).spec_cache() && final(self).spec_counters() == old(self).spec_counters(),
            old(self).spec_config().admit_regenerated_pages ==> exists|d: ResidencyDecision| {
                &&& #[trigger] call_ensures(
                    P::decide_with_context,
                    (
                        policy,
                        &Self::offer_context(
                            *old(self),
                            key,
                            tokens,
                            context_tokens,
                            &Self::offer_stats(*old(self)),
                        ),
                    ),
                    d,
                )
                &&& Self::decided(*old(self), *final(self), d, key, tokens, k@, v@, res)
            },
    {
        if !self.config.admit_regenerated_pages {
            return Ok(());
        }
        let stats = self.stats();
        let decision = {
            let context = ResidencyContext {
                key,
                page_tokens: tokens,
                context_tokens,
                stats: &stats,
                hot_cache_max_bytes: self.cache.max_bytes(),
                hot_cache_used_bytes: self.cache.used_bytes(),
            };
            policy.decide_with_context(&context)
        };
        let res = self.admit_decided(decision, key, tokens, k, v);
        res
    }

    /// Applies a residency decision to a regenerated and consumed page: the
    /// page is inserted into the hot cache, and counted, only when admission
    /// of regenerated pages is enabled and the decision is to admit it;
    /// otherwise nothing changes.
    pub fn admit_decided(
        &mut self,
        decision: ResidencyDecision,
        key: PageKey,
        tokens: usize,
        k: &[u32],
        v: &[u32],
    ) -> (res: Result<()>)
        requires
            old(self).wf(),
        ensures
            final(self).wf(),
            final(self).spec_config() == old(self).spec_config(),
            Self::decided(*old(self), *final(self), decision, key, tokens, k@, v@, res),
            !(old(self).spec_config().admit_regenerated_pages && decision == ResidencyDecision::Admit)
                ==> res is Ok && final(self).spec_cache() == old(self).spec_cache()
                && final(self).spec_counters() == old(self).spec_counters(),
            old(self).spec_config().admit_regenerated_pages && decision == ResidencyDecision::Admit
                ==> exists|outcome: Result<InsertOutcome>| {
                &&& #[trigger] Self::insert_effect(*old(self), *final(self), key, tokens, k@, v@, outcome)
                &&& res == match outcome {
                    Err(e) => Err::<(), CfrError>(e),
                    Ok(_) => Ok::<(), CfrError>(()),
                }
            },
    {
        if !self.config.admit_regenerated_pages || decision != ResidencyDecision::Admit {
            return Ok(());
        }
        let ghost old_cache = self.cache;
        let ghost before = self.counters;
        let outcome = self.cache.insert_internal(key, tokens, self.config.head_dim, k, v);
        let res = match outcome {
            Ok(InsertOutcome::Inserted { evicted }) => {
                self.count_inserted(evicted);
                Ok(())
            },
            Ok(InsertOutcome::RejectedTooLarge) => {
                self.counters.cache_admission_rejections = saturating_add_u64(
                    self.counters.cache_admission_rejections,
                    1,
                );
                Ok(())
            },
            Err(e) => Err(e),
        };
        assert(HotCache::insert_spec(old_cache, self.cache, key, tokens, self.config.head_dim, k@, v@, outcome));
        assert(Self::counted(before, self.counters, outcome));
        assert(Self::insert_effect(*old(self), *self, key, tokens, k@, v@, outcome));
        res
    }
}

} // verus!
