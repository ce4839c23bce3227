//! Page-size autotuning for cache-local CPU regeneration.
//!
//! Candidate page sizes start at `min(min_page_tokens, context_tokens)` and
//! double while they stay within both the maximum page size and the context.
//! The largest candidate that fits both the cache-local target and the scratch
//! budget is chosen; failing that, the smallest one that fits the scratch
//! budget.

use vstd::prelude::*;
use crate::error::{CfrError, Result};
use crate::layout::{checked_kv_bytes, kv_bytes_spec};

verus! {

/// Input constraints for page-size autotuning.
#[derive(Debug, Clone, Copy, PartialEq, Eq)]
pub struct PageTuningInput {
    /// Attention head dimension.
    pub head_dim: usize,
    /// Minimum page size to consider.
    pub min_page_tokens: usize,
    /// Maximum page size to consider.
    pub max_page_tokens: usize,
    /// Estimated private `L2` cache bytes.
    pub l2_bytes: usize,
    /// Estimated shared `L3` cache bytes.
    pub l3_bytes: usize,
    /// Maximum scratch bytes the runtime is willing to reserve per K/V page.
    pub max_scratch_bytes: usize,
    /// Current causal context length.
    pub context_tokens: usize,
}

impl PageTuningInput {
    /// Creates a tuning input with conservative cache defaults.
    pub fn new(head_dim: usize, context_tokens: usize) -> (input: Self)
        ensures
            input == (PageTuningInput {
                head_dim,
                min_page_tokens: 64,
                max_page_tokens: 2048,
                l2_bytes: 1048576,
                l3_bytes: 33554432,
                max_scratch_bytes: 8388608,
                context_tokens,
            }),
    {
        Self {
            head_dim,
            min_page_tokens: 64,
            max_page_tokens: 2048,
            l2_bytes: 1048576,
            l3_bytes: 33554432,
            max_scratch_bytes: 8388608,
            context_tokens,
        }
    }

    /// Sets the candidate token range.
    pub fn page_token_bounds(self, min_tokens: usize, max_tokens: usize) -> (input: Self)
        ensures
            input == (PageTuningInput {
                min_page_tokens: min_tokens,
                max_page_tokens: max_tokens,
                ..self
            }),
    {
        PageTuningInput { min_page_tokens: min_tokens, max_page_tokens: max_tokens, ..self }
    }

    /// Sets cache estimates in bytes.
    pub fn cache_bytes(self, l2_bytes: usize, l3_bytes: usize) -> (input: Self)
        ensures
            input == (PageTuningInput { l2_bytes, l3_bytes, ..self }),
    {
        PageTuningInput { l2_bytes, l3_bytes, ..self }
    }

    /// Sets the maximum scratch bytes for one regenerated K/V page.
    pub fn max_scratch_bytes(self, bytes: usize) -> (input: Self)
        ensures
            input == (PageTuningInput { max_scratch_bytes: bytes, ..self }),
    {
        PageTuningInput { max_scratch_bytes: bytes, ..self }
    }
}

/// One candidate considered by the tuner.
#[derive(Debug, Clone, Copy, PartialEq, Eq)]
pub struct PageTuningCandidate {
    /// Candidate page tokens.
    pub page_tokens: usize,
    /// K/V bytes for one page.
    pub kv_bytes: usize,
    /// Whether the candidate fits the cache-local target.
    pub fits_cache_target: bool,
    /// Whether the candidate fits the configured scratch budget.
    pub fits_scratch_budget: bool,
}

/// Selected page-size plan.
#[derive(Debug, Clone, PartialEq, Eq)]
pub struct PageTuningResult {
    /// Selected page size.
    pub page_tokens: usize,
    /// Estimated K/V bytes for one selected page.
    pub kv_bytes: usize,
    /// Cache-local byte target used by the tuner.
    pub cache_target_bytes: usize,
    /// All candidates inspected in ascending order.
    pub candidates: Vec<PageTuningCandidate>,
}

/// Conservative page-size tuner for CPU locality.
#[derive(Debug, Clone, Copy, Default)]
pub struct PageSizeTuner;

/// The error `validate_input` reports, if any.
pub open spec fn input_error(input: PageTuningInput) -> Option<CfrError> {
    if input.head_dim == 0 {
        Some(CfrError::InvalidConfig("head_dim must be non-zero"))
    } else if input.context_tokens == 0 {
        Some(CfrError::InvalidConfig("context_tokens must be non-zero"))
    } else if input.min_page_tokens == 0 || input.max_page_tokens < input.min_page_tokens {
        Some(CfrError::InvalidConfig("invalid page token bounds"))
    } else if input.max_scratch_bytes == 0 {
        Some(CfrError::InvalidConfig("max_scratch_bytes must be non-zero"))
    } else {
        None
    }
}

/// Cache-local byte target: half of `L2`, clamped to `[1, max(L3 / 16, 1)]`,
/// and never above the scratch budget.
pub open spec fn cache_target_spec(input: PageTuningInput) -> int {
    let l2_target = input.l2_bytes as int / 2;
    let l3_target = input.l3_bytes as int / 16;
    let upper = if l3_target > 1 { l3_target } else { 1 };
    let clamped = if l2_target < 1 { 1 } else if l2_target > upper { upper } else { l2_target };
    if clamped < input.max_scratch_bytes { clamped } else { input.max_scratch_bytes as int }
}

/// The cache-local target is the least of half of `L2` (at least one byte),
/// a sixteenth of `L3` (at least one byte) and the scratch budget: it never
/// exceeds any of the three, and it is one of them.
pub proof fn lemma_cache_target_is_least_bound(input: PageTuningInput)
    ensures
        ({
            let half_l2 = if input.l2_bytes / 2 >= 1 { input.l2_bytes / 2 } else { 1 };
            let l3_share = if input.l3_bytes / 16 >= 1 { input.l3_bytes / 16 } else { 1 };
            let t = cache_target_spec(input);
            &&& t <= half_l2
            &&& t <= l3_share
            &&& t <= input.max_scratch_bytes
            &&& (t == half_l2 || t == l3_share || t == input.max_scratch_bytes)
        }),
{
}

/// Candidate page sizes: `p, 2p, 4p, ...` while `<= limit`, stopping early
/// when doubling would leave `usize`.
pub open spec fn doubling_pages(p: int, limit: int) -> Seq<int>
    decreases (if p > limit { 0 } else { limit - p + 1 }),
{
    if p < 1 || p > limit {
        Seq::empty()
    } else if 2 * p > usize::MAX {
        seq![p]
    } else {
        seq![p] + doubling_pages(2 * p, limit)
    }
}

/// First candidate page size.
pub open spec fn first_page(input: PageTuningInput) -> int {
    if input.min_page_tokens < input.context_tokens {
        input.min_page_tokens as int
    } else {
        input.context_tokens as int
    }
}

/// Largest candidate page size.
pub open spec fn page_limit(input: PageTuningInput) -> int {
    if input.max_page_tokens < input.context_tokens {
        input.max_page_tokens as int
    } else {
        input.context_tokens as int
    }
}

/// Page sizes the tuner inspects, in ascending order.
pub open spec fn candidate_pages(input: PageTuningInput) -> Seq<int> {
    doubling_pages(first_page(input), page_limit(input))
}

/// The candidate record for a page size.
pub open spec fn candidate_of(input: PageTuningInput, page_tokens: int) -> PageTuningCandidate {
    let bytes = kv_bytes_spec(page_tokens, input.head_dim as int);
    PageTuningCandidate {
        page_tokens: page_tokens as usize,
        kv_bytes: bytes as usize,
        fits_cache_target: bytes <= cache_target_spec(input),
        fits_scratch_budget: bytes <= input.max_scratch_bytes,
    }
}

/// Whether a candidate fits both the cache target and the scratch budget.
pub open spec fn fits_both(c: PageTuningCandidate) -> bool {
    c.fits_cache_target && c.fits_scratch_budget
}

/// Index `sel` is the tuner's choice among `cands`.
pub open spec fn is_selection(cands: Seq<PageTuningCandidate>, sel: int) -> bool {
    &&& 0 <= sel < cands.len()
    &&& if exists|i: int| 0 <= i < cands.len() && #[trigger] fits_both(cands[i]) {
        &&& fits_both(cands[sel])
        &&& forall|j: int| sel < j < cands.len() ==> !#[trigger] fits_both(cands[j])
    } else {
        &&& cands[sel].fits_scratch_budget
        &&& forall|j: int| 0 <= j < sel ==> !#[trigger] cands[j].fits_scratch_budget
    }
}

impl PageSizeTuner {
    /// Tunes page size from cache, scratch and context constraints.
    pub fn tune(input: PageTuningInput) -> (res: Result<PageTuningResult>)
        ensures
            input_error(input) matches Some(e) ==> res == Err::<PageTuningResult, CfrError>(e),
            input_error(input) is None && (exists|i: int|
                0 <= i < candidate_pages(input).len() && kv_bytes_spec(
                    #[trigger] candidate_pages(input)[i],
                    input.head_dim as int,
                ) > usize::MAX) ==> res == Err::<PageTuningResult, CfrError>(
                CfrError::CapacityOverflow { name: "page tuning candidate bytes" },
            ),
            input_error(input) is None && (forall|i: int|
                0 <= i < candidate_pages(input).len() ==> kv_bytes_spec(
                    #[trigger] candidate_pages(input)[i],
                    input.head_dim as int,
                ) <= usize::MAX) ==> {
                let cands = candidate_pages(input).map_values(|p: int| candidate_of(input, p));
                &&& (forall|i: int| 0 <= i < cands.len() ==> !#[trigger] cands[i].fits_scratch_budget)
                    ==> res == Err::<PageTuningResult, CfrError>(
                    CfrError::InvalidConfig("no page-size candidate fits scratch budget"),
                )
                &&& (exists|i: int| 0 <= i < cands.len() && #[trigger] cands[i].fits_scratch_budget)
                    ==> (res matches Ok(r) && {
                    &&& r.candidates@ == cands
                    &&& r.cache_target_bytes == cache_target_spec(input)
                    &&& exists|sel: int|
                        is_selection(cands, sel) && r.page_tokens == cands[sel].page_tokens
                            && r.kv_bytes == cands[sel].kv_bytes
                    &&& r.kv_bytes <= input.max_scratch_bytes
                })
            },
    {
        validate_input(input)?;
        let cache_target_bytes = cache_target(input);
        let ghost all = candidate_pages(input);
        let ghost limit = page_limit(input);
        let mut candidates: Vec<PageTuningCandidate> = Vec::new();
        let mut selected: Option<usize> = None;
        let mut page_tokens = if input.min_page_tokens < input.context_tokens {
            input.min_page_tokens
        } else {
            input.context_tokens
        };
        let mut done = false;
        proof {
            assert(all == Seq::<int>::empty() + doubling_pages(page_tokens as int, limit));
        }
        while !done && page_tokens <= input.max_page_tokens && page_tokens <= input.context_tokens
            invariant
                input_error(input) is None,
                cache_target_bytes == cache_target_spec(input),
                all == candidate_pages(input),
                limit == page_limit(input),
                page_tokens >= 1,
                all == candidates@.map_values(|c: PageTuningCandidate| c.page_tokens as int) + (
                if done {
                    Seq::<int>::empty()
                } else {
                    doubling_pages(page_tokens as int, limit)
                }),
                forall|i: int|
                    0 <= i < candidates@.len() ==> #[trigger] candidates@[i] == candidate_of(
                        input,
                        candidates@[i].page_tokens as int,
                    ) && kv_bytes_spec(candidates@[i].page_tokens as int, input.head_dim as int)
                        <= usize::MAX,
                selected matches Some(s) ==> s < candidates@.len() && fits_both(candidates@[s as int])
                    && forall|j: int| s < j < candidates@.len() ==> !#[trigger] fits_both(candidates@[j]),
                selected is None ==> forall|j: int| 0 <= j < candidates@.len() ==> !#[trigger] fits_both(candidates@[j]),
            decreases (if done { 0 } else { 1 + usize::MAX - page_tokens }),
        {
            proof {
                reveal_with_fuel(doubling_pages, 2);
            }
            let kv_bytes = match checked_kv_bytes("page tuning candidate bytes", page_tokens, input.head_dim) {
                Ok(b) => b,
                Err(e) => {
                    proof {
                        let k = candidates@.len() as int;
                        assert(all[k] == page_tokens as int);
                    }
                    return Err(e);
                },
            };
            let fits_cache_target = kv_bytes <= cache_target_bytes;
            let fits_scratch_budget = kv_bytes <= input.max_scratch_bytes;
            let candidate = PageTuningCandidate {
                page_tokens,
                kv_bytes,
                fits_cache_target,
                fits_scratch_budget,
            };
            if fits_cache_target && fits_scratch_budget {
                selected = Some(candidates.len());
            }
            let ghost prev = candidates@;
            candidates.push(candidate);
            proof {
                assert(candidates@.map_values(|c: PageTuningCandidate| c.page_tokens as int)
                    =~= prev.map_values(|c: PageTuningCandidate| c.page_tokens as int).push(
                    page_tokens as int,
                ));
            }
            match page_tokens.checked_mul(2) {
                Some(next) => {
                    page_tokens = next;
                },
                None => {
                    done = true;
                },
            }
        }
        proof {
            assert(all =~= candidates@.map_values(|c: PageTuningCandidate| c.page_tokens as int));
        }
        let ghost cands = all.map_values(|p: int| candidate_of(input, p));
        proof {
            assert(cands =~= candidates@);
        }
        let chosen = match selected {
            Some(s) => {
                proof {
                    assert(fits_both(cands[s as int]));
                    assert(is_selection(cands, s as int));
                }
                s
            },
            None => {
                let mut i: usize = 0;
                let mut found: Option<usize> = None;
                while i < candidates.len()
                    invariant_except_break
                        found is None,
                    invariant
                        0 <= i <= candidates@.len(),
                        forall|j: int| 0 <= j < i ==> !#[trigger] candidates@[j].fits_scratch_budget,
                    ensures
                        found matches Some(f) ==> f < candidates@.len()
                            && candidates@[f as int].fits_scratch_budget
                            && forall|j: int| 0 <= j < f ==> !#[trigger] candidates@[j].fits_scratch_budget,
                        found is None ==> forall|j: int| 0 <= j < candidates@.len() ==> !#[trigger] candidates@[j].fits_scratch_budget,
                    decreases candidates.len() - i,
                {
                    if candidates[i].fits_scratch_budget {
                        found = Some(i);
                        break;
                    }
                    i += 1;
                }
                match found {
                    Some(f) => {
                        proof {
                            assert(is_selection(cands, f as int));
                        }
                        f
                    },
                    None => {
                        return Err(
                            CfrError::InvalidConfig("no page-size candidate fits scratch budget"),
                        );
                    },
                }
            },
        };
        Ok(
            PageTuningResult {
                page_tokens: candidates[chosen].page_tokens,
                kv_bytes: candidates[chosen].kv_bytes,
                cache_target_bytes,
                candidates,
            },
        )
    }
}

fn validate_input(input: PageTuningInput) -> (res: Result<()>)
    ensures
        input_error(input) matches Some(e) ==> res == Err::<(), CfrError>(e),
        input_error(input) is None ==> res is Ok,
{
    if input.head_dim == 0 {
        return Err(CfrError::InvalidConfig("head_dim must be non-zero"));
    }
    if input.context_tokens == 0 {
        return Err(CfrError::InvalidConfig("context_tokens must be non-zero"));
    }
    if input.min_page_tokens == 0 || input.max_page_tokens < input.min_page_tokens {
        return Err(CfrError::InvalidConfig("invalid page token bounds"));
    }
    if input.max_scratch_bytes == 0 {
        return Err(CfrError::InvalidConfig("max_scratch_bytes must be non-zero"));
    }
    Ok(())
}

fn cache_target(input: PageTuningInput) -> (r: usize)
    ensures
        r == cache_target_spec(input),
{
    let l2_target = input.l2_bytes / 2;
    let l3_target = input.l3_bytes / 16;
    let upper = if l3_target > 1 { l3_target } else { 1 };
    let clamped = if l2_target < 1 { 1 } else if l2_target > upper { upper } else { l2_target };
    if clamped < input.max_scratch_bytes { clamped } else { input.max_scratch_bytes }
}

} // verus!
