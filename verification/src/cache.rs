//! Bounded hot-page cache for resident K/V blocks.
//!
//! The cache keeps resident pages under a global byte budget and optional
//! per-layer byte budgets, evicting least-recently-used pages first. Pages are
//! kept in recency order: the first page is the least recently used. K/V
//! element values are stored as single-precision bit patterns.

use vstd::prelude::*;
use crate::error::{CfrError, Result};
use crate::layout::{
    all_finite_bits, checked_kv_bytes, checked_matrix_len, expect_all_finite_bits, expect_len,
    kv_bytes_spec, wipe_words,
};
use crate::page::PageKey;

verus! {

/// Abstract content of one resident page.
pub struct CachedPage {
    /// Page identity.
    pub key: PageKey,
    /// Number of token rows.
    pub tokens: usize,
    /// Row-major key matrix bit patterns.
    pub k: Seq<u32>,
    /// Row-major value matrix bit patterns.
    pub v: Seq<u32>,
    /// K and V bytes accounted for this page.
    pub bytes: usize,
}

/// Resident bytes of a page sequence.
pub open spec fn sum_bytes(pages: Seq<CachedPage>) -> int
    decreases pages.len(),
{
    if pages.len() == 0 {
        0
    } else {
        sum_bytes(pages.drop_last()) + pages.last().bytes
    }
}

/// Resident bytes of the pages of one layer.
pub open spec fn layer_bytes(pages: Seq<CachedPage>, layer: u32) -> int
    decreases pages.len(),
{
    if pages.len() == 0 {
        0
    } else {
        layer_bytes(pages.drop_last(), layer) + if pages.last().key.layer == layer {
            pages.last().bytes as int
        } else {
            0
        }
    }
}

/// The sum of the resident bytes of each of the given layers.
pub open spec fn sum_over_layers(pages: Seq<CachedPage>, layers: Seq<u32>) -> int
    decreases layers.len(),
{
    if layers.len() == 0 {
        0
    } else {
        sum_over_layers(pages, layers.drop_last()) + layer_bytes(pages, layers.last())
    }
}

proof fn lemma_sum_over_layers_empty(pages: Seq<CachedPage>, layers: Seq<u32>)
    requires
        pages.len() == 0,
    ensures
        sum_over_layers(pages, layers) == 0,
    decreases layers.len(),
{
    if layers.len() > 0 {
        lemma_sum_over_layers_empty(pages, layers.drop_last());
    }
}

proof fn lemma_sum_over_layers_last(pages: Seq<CachedPage>, layers: Seq<u32>)
    requires
        pages.len() > 0,
        layers.no_duplicates(),
    ensures
        sum_over_layers(pages, layers) == sum_over_layers(pages.drop_last(), layers) + if layers.contains(
            pages.last().key.layer,
        ) {
            pages.last().bytes as int
        } else {
            0
        },
    decreases layers.len(),
{
    if layers.len() > 0 {
        let rest = layers.drop_last();
        assert(rest.no_duplicates()) by {
            assert forall|i: int, j: int| 0 <= i < rest.len() && 0 <= j < rest.len() && i != j implies rest[i]
                != rest[j] by {
                assert(rest[i] == layers[i] && rest[j] == layers[j]);
            }
        }
        lemma_sum_over_layers_last(pages, rest);
        let x = layers.last();
        let l = pages.last().key.layer;
        if rest.contains(l) {
            let i = choose|i: int| 0 <= i < rest.len() && rest[i] == l;
            assert(layers[i] == l);
            assert(x != l);
        }
        if layers.contains(l) && x != l {
            let i = choose|i: int| 0 <= i < layers.len() && layers[i] == l;
            assert(i != layers.len() - 1);
            assert(rest[i] == l);
        }
        if x == l {
            assert(layers[layers.len() - 1] == l);
        }
    }
}

/// The resident bytes are the sum of the layer totals over any list of
/// distinct layers that holds the layer of every page.
pub proof fn lemma_sum_over_layers(pages: Seq<CachedPage>, layers: Seq<u32>)
    requires
        layers.no_duplicates(),
        forall|i: int| 0 <= i < pages.len() ==> layers.contains(#[trigger] pages[i].key.layer),
    ensures
        sum_over_layers(pages, layers) == sum_bytes(pages),
    decreases pages.len(),
{
    if pages.len() == 0 {
        lemma_sum_over_layers_empty(pages, layers);
    } else {
        let rest = pages.drop_last();
        assert forall|i: int| 0 <= i < rest.len() implies layers.contains(#[trigger] rest[i].key.layer) by {
            assert(rest[i] == pages[i]);
        }
        lemma_sum_over_layers(rest, layers);
        lemma_sum_over_layers_last(pages, layers);
        assert(pages[pages.len() - 1] == pages.last());
    }
}

/// Index of the first (least recently used) page with the given key, or the
/// length when there is none.
pub open spec fn index_of_key(pages: Seq<CachedPage>, key: PageKey, from: int) -> int
    decreases pages.len() - from,
{
    if from < 0 || from >= pages.len() {
        pages.len() as int
    } else if pages[from].key == key {
        from
    } else {
        index_of_key(pages, key, from + 1)
    }
}

/// Index of the least recently used page of a layer, or the length when
/// there is none.
pub open spec fn first_of_layer(pages: Seq<CachedPage>, layer: u32, from: int) -> int
    decreases pages.len() - from,
{
    if from < 0 || from >= pages.len() {
        pages.len() as int
    } else if pages[from].key.layer == layer {
        from
    } else {
        first_of_layer(pages, layer, from + 1)
    }
}

/// The resident page for a key, if any.
pub open spec fn lookup(pages: Seq<CachedPage>, key: PageKey) -> Option<CachedPage> {
    let i = index_of_key(pages, key, 0);
    if i < pages.len() {
        Some(pages[i])
    } else {
        None
    }
}

/// The pages without the page for `key`.
pub open spec fn remove_key(pages: Seq<CachedPage>, key: PageKey) -> Seq<CachedPage> {
    let i = index_of_key(pages, key, 0);
    if i < pages.len() {
        pages.remove(i)
    } else {
        pages
    }
}

/// Evicts least-recently-used pages of `layer` while the layer holds more
/// than `limit` bytes.
pub open spec fn evict_layer(pages: Seq<CachedPage>, layer: u32, limit: int) -> Seq<CachedPage>
    decreases pages.len(),
{
    let i = first_of_layer(pages, layer, 0);
    if layer_bytes(pages, layer) > limit && 0 <= i < pages.len() {
        evict_layer(pages.remove(i), layer, limit)
    } else {
        pages
    }
}

/// Evicts least-recently-used pages while more than `limit` bytes are resident.
pub open spec fn evict_global(pages: Seq<CachedPage>, limit: int) -> Seq<CachedPage>
    decreases pages.len(),
{
    if sum_bytes(pages) > limit && pages.len() > 0 {
        evict_global(pages.remove(0), limit)
    } else {
        pages
    }
}

/// The budget configured for a layer, if any.
pub open spec fn budget_of(budgets: Seq<(u32, usize)>, layer: u32) -> Option<usize> {
    if exists|i: int| 0 <= i < budgets.len() && #[trigger] budgets[i].0 == layer {
        Some(budgets[choose|i: int| 0 <= i < budgets.len() && #[trigger] budgets[i].0 == layer].1)
    } else {
        None
    }
}

/// Removing the page at `i` removes exactly its bytes.
pub proof fn lemma_sum_remove(pages: Seq<CachedPage>, i: int)
    requires
        0 <= i < pages.len(),
    ensures
        sum_bytes(pages.remove(i)) == sum_bytes(pages) - pages[i].bytes,
        forall|l: u32| #[trigger] layer_bytes(pages.remove(i), l) == layer_bytes(pages, l) - (
        if pages[i].key.layer == l {
            pages[i].bytes as int
        } else {
            0
        }),
    decreases pages.len(),
{
    if i == pages.len() - 1 {
        assert(pages.remove(i) =~= pages.drop_last());
        assert forall|l: u32| #[trigger] layer_bytes(pages.remove(i), l) == layer_bytes(pages, l) - (
            if pages[i].key.layer == l {
                pages[i].bytes as int
            } else {
                0
            }) by {
            assert(pages.remove(i) == pages.drop_last());
        }
    } else {
        let r = pages.remove(i);
        lemma_sum_remove(pages.drop_last(), i);
        assert(r.drop_last() =~= pages.drop_last().remove(i));
        assert(r.last() == pages.last());
        assert forall|l: u32| #[trigger] layer_bytes(pages.remove(i), l) == layer_bytes(pages, l) - (
            if pages[i].key.layer == l {
                pages[i].bytes as int
            } else {
                0
            }) by {
            assert(layer_bytes(pages.drop_last().remove(i), l) == layer_bytes(pages.drop_last(), l) - (
                if pages.drop_last()[i].key.layer == l {
                    pages.drop_last()[i].bytes as int
                } else {
                    0
                }));
            assert(layer_bytes(r, l) == layer_bytes(r.drop_last(), l) + if r.last().key.layer == l {
                r.last().bytes as int
            } else {
                0
            });
        }
    }
}

/// Appending a page adds exactly its bytes.
pub proof fn lemma_sum_push(pages: Seq<CachedPage>, page: CachedPage)
    ensures
        sum_bytes(pages.push(page)) == sum_bytes(pages) + page.bytes,
        forall|l: u32| #[trigger] layer_bytes(pages.push(page), l) == layer_bytes(pages, l) + (
        if page.key.layer == l {
            page.bytes as int
        } else {
            0
        }),
{
    assert(pages.push(page).drop_last() =~= pages);
}

/// Sums are non-negative and a layer never holds more than the whole cache.
pub proof fn lemma_sum_bounds(pages: Seq<CachedPage>, layer: u32)
    ensures
        0 <= layer_bytes(pages, layer) <= sum_bytes(pages),
    decreases pages.len(),
{
    if pages.len() > 0 {
        lemma_sum_bounds(pages.drop_last(), layer);
    }
}

/// A page's bytes are part of the total and of its layer's total.
pub proof fn lemma_page_bytes_bounded(pages: Seq<CachedPage>, i: int)
    requires
        0 <= i < pages.len(),
    ensures
        pages[i].bytes <= sum_bytes(pages),
        pages[i].bytes <= layer_bytes(pages, pages[i].key.layer),
{
    lemma_sum_remove(pages, i);
    lemma_sum_bounds(pages.remove(i), pages[i].key.layer);
    assert(layer_bytes(pages.remove(i), pages[i].key.layer) == layer_bytes(
        pages,
        pages[i].key.layer,
    ) - pages[i].bytes);
}

/// The page found by `first_of_layer` belongs to that layer, and no page
/// before it does.
pub proof fn lemma_first_of_layer(pages: Seq<CachedPage>, layer: u32, from: int)
    requires
        0 <= from,
    ensures
        first_of_layer(pages, layer, from) <= pages.len(),
        first_of_layer(pages, layer, from) < pages.len() ==> pages[first_of_layer(pages, layer, from)].key.layer
            == layer,
    decreases pages.len() - from,
{
    if from < pages.len() && pages[from].key.layer != layer {
        lemma_first_of_layer(pages, layer, from + 1);
    }
}

/// Enforcing one layer's budget evicts pages of that layer only: every page
/// of another layer stays resident, and every other layer keeps its bytes.
pub proof fn lemma_evict_layer_keeps_other_layers(pages: Seq<CachedPage>, layer: u32, limit: int)
    ensures
        forall|l: u32| l != layer ==> #[trigger] layer_bytes(evict_layer(pages, layer, limit), l) == layer_bytes(pages, l),
        forall|p: CachedPage| pages.contains(p) && p.key.layer != layer ==> #[trigger] evict_layer(pages, layer, limit).contains(p),
    decreases pages.len(),
{
    let first = first_of_layer(pages, layer, 0);
    if 0 <= first < pages.len() && layer_bytes(pages, layer) > limit {
        let i = first;
        let rest = pages.remove(i);
        lemma_first_of_layer(pages, layer, 0);
        lemma_sum_remove(pages, i);
        lemma_evict_layer_keeps_other_layers(rest, layer, limit);
        assert(evict_layer(pages, layer, limit) == evict_layer(rest, layer, limit));
        assert forall|p: CachedPage| pages.contains(p) && p.key.layer != layer implies #[trigger] evict_layer(
            pages,
            layer,
            limit,
        ).contains(p) by {
            let j = choose|j: int| 0 <= j < pages.len() && pages[j] == p;
            assert(j != i);
            if j < i {
                assert(rest[j] == p);
            } else {
                assert(rest[j - 1] == p);
            }
            assert(rest.contains(p));
        }
    }
}

/// Stored page: owned K/V bit patterns plus accounting.
#[derive(Debug)]
struct HotPage {
    key: PageKey,
    tokens: usize,
    k: Vec<u32>,
    v: Vec<u32>,
    bytes: usize,
}

impl HotPage {
    spec fn data(self) -> CachedPage {
        CachedPage { key: self.key, tokens: self.tokens, k: self.k@, v: self.v@, bytes: self.bytes }
    }
}

/// Borrowed view over a resident K/V page.
pub struct PageView<'a> {
    /// Number of token rows in the page.
    pub tokens: usize,
    /// Row-major key matrix `[token][head_dim]` as bit patterns.
    pub k: &'a [u32],
    /// Row-major value matrix `[token][head_dim]` as bit patterns.
    pub v: &'a [u32],
}

/// Result of trying to insert a hot page.
#[derive(Debug, Clone, Copy, PartialEq, Eq, Structural)]
pub enum InsertOutcome {
    /// Page was inserted; `evicted` is the number of pages removed to fit it.
    Inserted {
        /// Number of pages evicted before insertion.
        evicted: usize,
    },
    /// Page is larger than the applicable cache budget.
    RejectedTooLarge,
}

/// Bounded resident K/V cache.
#[derive(Debug)]
pub struct HotCache {
    max_bytes: usize,
    used_bytes: usize,
    entries: Vec<HotPage>,
    layer_budgets: Vec<(u32, usize)>,
}

impl View for HotCache {
    type V = Seq<CachedPage>;

    /// Resident pages, least recently used first.
    closed spec fn view(&self) -> Seq<CachedPage> {
        self.entries@.map_values(|e: HotPage| e.data())
    }
}

/// Page contents are consistent with their accounting.
pub open spec fn page_consistent(p: CachedPage) -> bool {
    &&& p.tokens > 0
    &&& p.k.len() == p.v.len()
    &&& p.bytes == p.k.len() * 8
    &&& all_finite_bits(p.k)
    &&& all_finite_bits(p.v)
}

/// No key occurs twice.
pub open spec fn keys_distinct(pages: Seq<CachedPage>) -> bool {
    forall|i: int, j: int|
        0 <= i < pages.len() && 0 <= j < pages.len() && i != j ==> #[trigger] pages[i].key
            != #[trigger] pages[j].key
}

/// No layer has two budgets.
pub open spec fn layers_distinct(budgets: Seq<(u32, usize)>) -> bool {
    forall|i: int, j: int|
        0 <= i < budgets.len() && 0 <= j < budgets.len() && i != j ==> #[trigger] budgets[i].0
            != #[trigger] budgets[j].0
}

impl HotCache {
    /// Global byte budget.
    pub closed spec fn spec_max_bytes(self) -> usize {
        self.max_bytes
    }

    /// Per-layer budgets.
    pub closed spec fn spec_budgets(self) -> Seq<(u32, usize)> {
        self.layer_budgets@
    }

    /// The configured budget of a layer.
    pub open spec fn spec_budget(self, layer: u32) -> Option<usize> {
        budget_of(self.spec_budgets(), layer)
    }

    /// The cache's accounting invariant: byte counts match resident pages,
    /// the global budget and every layer budget hold, and keys are unique.
    pub closed spec fn wf(self) -> bool {
        &&& self.used_bytes == sum_bytes(self@)
        &&& self.used_bytes <= self.max_bytes
        &&& keys_distinct(self@)
        &&& layers_distinct(self.layer_budgets@)
        &&& forall|i: int| 0 <= i < self@.len() ==> page_consistent(#[trigger] self@[i])
        &&& forall|i: int|
            0 <= i < self.layer_budgets@.len() ==> layer_bytes(self@, #[trigger] self.layer_budgets@[i].0)
                <= self.layer_budgets@[i].1
    }

    /// Creates an empty hot cache with a byte budget.
    pub fn new(max_bytes: usize) -> (cache: Self)
        ensures
            cache.wf(),
            cache@ == Seq::<CachedPage>::empty(),
            cache.spec_max_bytes() == max_bytes,
            cache.spec_budgets() == Seq::<(u32, usize)>::empty(),
    {
        let cache = Self { max_bytes, used_bytes: 0, entries: Vec::new(), layer_budgets: Vec::new() };
        assert(cache@ =~= Seq::<CachedPage>::empty());
        cache
    }

    /// Maximum resident bytes.
    pub fn max_bytes(&self) -> (n: usize)
        ensures
            n == self.spec_max_bytes(),
    {
        self.max_bytes
    }

    /// Current resident bytes: the sum of the resident pages' bytes, which
    /// never exceeds the global budget.
    pub fn used_bytes(&self) -> (n: usize)
        requires
            self.wf(),
        ensures
            n == sum_bytes(self@),
            n <= self.spec_max_bytes(),
    {
        self.used_bytes
    }

    /// Current resident page count.
    pub fn len(&self) -> (n: usize)
        ensures
            n == self@.len(),
    {
        self.entries.len()
    }

    /// Whether the cache is empty.
    pub fn is_empty(&self) -> (empty: bool)
        ensures
            empty == (self@.len() == 0),
    {
        self.entries.len() == 0
    }
}

/// A sum over a prefix never exceeds the sum over the whole sequence.
proof fn lemma_layer_prefix(pages: Seq<CachedPage>, i: int, layer: u32)
    requires
        0 <= i <= pages.len(),
    ensures
        layer_bytes(pages.subrange(0, i), layer) <= layer_bytes(pages, layer),
    decreases pages.len() - i,
{
    if i == pages.len() {
        assert(pages.subrange(0, i) =~= pages);
    } else {
        lemma_layer_prefix(pages.drop_last(), i, layer);
        assert(pages.drop_last().subrange(0, i) =~= pages.subrange(0, i));
    }
}

/// A layer with no resident page holds no bytes.
proof fn lemma_layer_absent(pages: Seq<CachedPage>, layer: u32)
    requires
        forall|j: int| 0 <= j < pages.len() ==> (#[trigger] pages[j]).key.layer != layer,
    ensures
        layer_bytes(pages, layer) == 0,
    decreases pages.len(),
{
    if pages.len() > 0 {
        lemma_layer_absent(pages.drop_last(), layer);
    }
}

/// With distinct layers, the budget of a layer is the one stored for it.
proof fn lemma_budget_at(budgets: Seq<(u32, usize)>, i: int)
    requires
        layers_distinct(budgets),
        0 <= i < budgets.len(),
    ensures
        budget_of(budgets, budgets[i].0) == Some(budgets[i].1),
{
    let l = budgets[i].0;
    assert(exists|j: int| 0 <= j < budgets.len() && #[trigger] budgets[j].0 == l);
    let j = choose|j: int| 0 <= j < budgets.len() && #[trigger] budgets[j].0 == l;
    assert(j == i);
}

/// A layer without a stored entry has no budget.
proof fn lemma_budget_absent(budgets: Seq<(u32, usize)>, l: u32)
    requires
        forall|j: int| 0 <= j < budgets.len() ==> (#[trigger] budgets[j]).0 != l,
    ensures
        budget_of(budgets, l) is None,
{
}

/// Overwriting or appending the entry of `layer` leaves other layers' budgets.
proof fn lemma_budget_update(old_b: Seq<(u32, usize)>, new_b: Seq<(u32, usize)>, i: int, layer: u32, l: u32)
    requires
        layers_distinct(old_b),
        layers_distinct(new_b),
        l != layer,
        0 <= i <= old_b.len(),
        i < old_b.len() ==> old_b[i].0 == layer && new_b.len() == old_b.len(),
        i == old_b.len() ==> new_b.len() == old_b.len() + 1,
        new_b[i].0 == layer,
        forall|j: int| 0 <= j < old_b.len() && j != i ==> new_b[j] == old_b[j],
    ensures
        budget_of(new_b, l) == budget_of(old_b, l),
{
    if exists|j: int| 0 <= j < old_b.len() && #[trigger] old_b[j].0 == l {
        let j = choose|j: int| 0 <= j < old_b.len() && #[trigger] old_b[j].0 == l;
        lemma_budget_at(old_b, j);
        assert(new_b[j] == old_b[j]);
        lemma_budget_at(new_b, j);
    } else {
        assert forall|k: int| 0 <= k < new_b.len() implies (#[trigger] new_b[k]).0 != l by {
            if k != i {
                assert(new_b[k] == old_b[k]);
            }
        }
        lemma_budget_absent(new_b, l);
    }
}

/// Removing the entry at `i` leaves other layers' budgets.
proof fn lemma_budget_remove(old_b: Seq<(u32, usize)>, i: int, l: u32)
    requires
        layers_distinct(old_b),
        0 <= i < old_b.len(),
        l != old_b[i].0,
    ensures
        layers_distinct(old_b.remove(i)),
        budget_of(old_b.remove(i), l) == budget_of(old_b, l),
{
    let new_b = old_b.remove(i);
    assert forall|a: int, b: int|
        0 <= a < new_b.len() && 0 <= b < new_b.len() && a != b implies #[trigger] new_b[a].0
        != #[trigger] new_b[b].0 by {
        let a2 = if a < i { a } else { a + 1 };
        let b2 = if b < i { b } else { b + 1 };
        assert(new_b[a] == old_b[a2] && new_b[b] == old_b[b2]);
    }
    if exists|j: int| 0 <= j < old_b.len() && #[trigger] old_b[j].0 == l {
        let j = choose|j: int| 0 <= j < old_b.len() && #[trigger] old_b[j].0 == l;
        lemma_budget_at(old_b, j);
        let k = if j < i { j } else { j - 1 };
        assert(new_b[k] == old_b[j]);
        lemma_budget_at(new_b, k);
    } else {
        assert forall|k: int| 0 <= k < new_b.len() implies (#[trigger] new_b[k]).0 != l by {
            let k2 = if k < i { k } else { k + 1 };
            assert(new_b[k] == old_b[k2]);
        }
        lemma_budget_absent(new_b, l);
    }
}

impl HotCache {

    fn find_key(&self, key: &PageKey) -> (i: usize)
        requires
            self.wf(),
        ensures
            i == index_of_key(self@, *key, 0),
            i <= self@.len(),
            i < self@.len() ==> self@[i as int].key == *key,
            i == self@.len() ==> forall|j: int| 0 <= j < self@.len() ==> (#[trigger] self@[j]).key != *key,
    {
        let mut i: usize = 0;
        while i < self.entries.len()
            invariant
                0 <= i <= self.entries@.len(),
                index_of_key(self@, *key, 0) == index_of_key(self@, *key, i as int),
                forall|j: int| 0 <= j < i ==> (#[trigger] self@[j]).key != *key,
            decreases self.entries.len() - i,
        {
            assert(self@[i as int] == self.entries@[i as int].data());
            if self.entries[i].key == *key {
                return i;
            }
            i += 1;
        }
        i
    }

    fn find_first_of_layer(&self, layer: u32) -> (i: usize)
        requires
            self.wf(),
        ensures
            i == first_of_layer(self@, layer, 0),
            i <= self@.len(),
            i < self@.len() ==> self@[i as int].key.layer == layer,
            i == self@.len() ==> forall|j: int| 0 <= j < self@.len() ==> (#[trigger] self@[j]).key.layer != layer,
    {
        let mut i: usize = 0;
        while i < self.entries.len()
            invariant
                0 <= i <= self.entries@.len(),
                first_of_layer(self@, layer, 0) == first_of_layer(self@, layer, i as int),
                forall|j: int| 0 <= j < i ==> (#[trigger] self@[j]).key.layer != layer,
            decreases self.entries.len() - i,
        {
            assert(self@[i as int] == self.entries@[i as int].data());
            if self.entries[i].key.layer == layer {
                return i;
            }
            i += 1;
        }
        i
    }

    fn find_budget(&self, layer: u32) -> (i: usize)
        requires
            self.wf(),
        ensures
            i <= self.layer_budgets@.len(),
            i < self.layer_budgets@.len() ==> self.layer_budgets@[i as int].0 == layer
                && self.spec_budget(layer) == Some(self.layer_budgets@[i as int].1),
            i == self.layer_budgets@.len() ==> (forall|j: int|
                0 <= j < self.layer_budgets@.len() ==> (#[trigger] self.layer_budgets@[j]).0 != layer)
                && self.spec_budget(layer) is None,
    {
        let mut i: usize = 0;
        while i < self.layer_budgets.len()
            invariant
                self.wf(),
                0 <= i <= self.layer_budgets@.len(),
                forall|j: int| 0 <= j < i ==> (#[trigger] self.layer_budgets@[j]).0 != layer,
            decreases self.layer_budgets.len() - i,
        {
            if self.layer_budgets[i].0 == layer {
                proof {
                    lemma_budget_at(self.layer_budgets@, i as int);
                }
                return i;
            }
            i += 1;
        }
        i
    }

    /// Removes the page at `i`, wiping its values.
    fn remove_at(&mut self, i: usize)
        requires
            old(self).wf(),
            i < old(self)@.len(),
        ensures
            final(self).wf(),
            final(self)@ == old(self)@.remove(i as int),
            final(self).spec_max_bytes() == old(self).spec_max_bytes(),
            final(self).spec_budgets() == old(self).spec_budgets(),
            forall|l: u32| #[trigger] layer_bytes(final(self)@, l) <= layer_bytes(old(self)@, l),
            forall|j: int| 0 <= j < final(self)@.len() ==> #[trigger] final(self)@[j] == old(self)@[if j < i { j } else { j + 1 }],
    {
        let ghost old_view = self@;
        proof {
            lemma_sum_remove(old_view, i as int);
            lemma_page_bytes_bounded(old_view, i as int);
            assert(old_view[i as int] == self.entries@[i as int].data());
        }
        let mut page = self.entries.remove(i);
        self.used_bytes = self.used_bytes - page.bytes;
        wipe_words(&mut page.k);
        wipe_words(&mut page.v);
        proof {
            assert(self@ =~= old_view.remove(i as int));
            assert forall|a: int, b: int|
                0 <= a < self@.len() && 0 <= b < self@.len() && a != b implies #[trigger] self@[a].key
                != #[trigger] self@[b].key by {
                let a2 = if a < i { a } else { a + 1 };
                let b2 = if b < i { b } else { b + 1 };
                assert(self@[a] == old_view[a2]);
                assert(self@[b] == old_view[b2]);
            }
            assert forall|j: int| 0 <= j < self@.len() implies page_consistent(#[trigger] self@[j]) by {
                let j2 = if j < i { j } else { j + 1 };
                assert(self@[j] == old_view[j2]);
            }
            assert forall|l: u32| #[trigger] layer_bytes(self@, l) <= layer_bytes(old_view, l) by {
                assert(layer_bytes(old_view.remove(i as int), l) == layer_bytes(old_view, l) - (
                if old_view[i as int].key.layer == l {
                    old_view[i as int].bytes as int
                } else {
                    0
                }));
            }
            assert forall|j: int| 0 <= j < self.layer_budgets@.len() implies layer_bytes(
                self@,
                #[trigger] self.layer_budgets@[j].0,
            ) <= self.layer_budgets@[j].1 by {
                let l = self.layer_budgets@[j].0;
                assert(layer_bytes(self@, l) <= layer_bytes(old_view, l));
            }
        }
    }

    /// Evicts least-recently-used pages of `layer` until the layer holds at
    /// most `limit` bytes; returns the number of evicted pages.
    fn evict_layer_until(&mut self, layer: u32, limit: usize, Ghost(absent): Ghost<Option<PageKey>>) -> (evicted: usize)
        requires
            old(self).wf(),
            absent matches Some(key) ==> forall|j: int| 0 <= j < old(self)@.len() ==> (#[trigger] old(self)@[j]).key != key,
        ensures
            final(self).wf(),
            absent matches Some(key) ==> forall|j: int| 0 <= j < final(self)@.len() ==> (#[trigger] final(self)@[j]).key != key,
            forall|l: u32| #[trigger] layer_bytes(final(self)@, l) <= layer_bytes(old(self)@, l),
            final(self)@ == evict_layer(old(self)@, layer, limit as int),
            layer_bytes(final(self)@, layer) <= limit,
            evicted == old(self)@.len() - final(self)@.len(),
            final(self).spec_max_bytes() == old(self).spec_max_bytes(),
            final(self).spec_budgets() == old(self).spec_budgets(),
    {
        let entry_count = self.entries.len();
        assert(old(self)@.len() == entry_count);
        let mut evicted: usize = 0;
        loop
            invariant
                old(self)@.len() <= usize::MAX,
                absent matches Some(key) ==> forall|j: int| 0 <= j < self@.len() ==> (#[trigger] self@[j]).key != key,
                forall|l: u32| #[trigger] layer_bytes(self@, l) <= layer_bytes(old(self)@, l),
                self.wf(),
                evict_layer(self@, layer, limit as int) == evict_layer(old(self)@, layer, limit as int),
                evicted == old(self)@.len() - self@.len(),
                self@.len() <= old(self)@.len(),
                self.spec_max_bytes() == old(self).spec_max_bytes(),
                self.spec_budgets() == old(self).spec_budgets(),
            ensures
                self.wf(),
                absent matches Some(key) ==> forall|j: int| 0 <= j < self@.len() ==> (#[trigger] self@[j]).key != key,
                forall|l: u32| #[trigger] layer_bytes(self@, l) <= layer_bytes(old(self)@, l),
                self@ == evict_layer(old(self)@, layer, limit as int),
                layer_bytes(self@, layer) <= limit,
                evicted == old(self)@.len() - self@.len(),
                self.spec_max_bytes() == old(self).spec_max_bytes(),
                self.spec_budgets() == old(self).spec_budgets(),
            decreases self@.len(),
        {
            let used = self.layer_used_bytes(layer);
            if used <= limit {
                return evicted;
            }
            let victim = self.find_first_of_layer(layer);
            if victim == self.entries.len() {
                proof {
                    lemma_layer_absent(self@, layer);
                }
                return evicted;
            }
            self.remove_at(victim);
            evicted = evicted + 1;
        }
    }

    /// Evicts least-recently-used pages until at most `limit` bytes are
    /// resident; returns the number of evicted pages.
    fn evict_until(&mut self, limit: usize, Ghost(absent): Ghost<Option<PageKey>>) -> (evicted: usize)
        requires
            old(self).wf(),
            absent matches Some(key) ==> forall|j: int| 0 <= j < old(self)@.len() ==> (#[trigger] old(self)@[j]).key != key,
        ensures
            final(self).wf(),
            absent matches Some(key) ==> forall|j: int| 0 <= j < final(self)@.len() ==> (#[trigger] final(self)@[j]).key != key,
            forall|l: u32| #[trigger] layer_bytes(final(self)@, l) <= layer_bytes(old(self)@, l),
            final(self)@ == evict_global(old(self)@, limit as int),
            sum_bytes(final(self)@) <= limit,
            evicted == old(self)@.len() - final(self)@.len(),
            final(self).spec_max_bytes() == old(self).spec_max_bytes(),
            final(self).spec_budgets() == old(self).spec_budgets(),
    {
        let entry_count = self.entries.len();
        assert(old(self)@.len() == entry_count);
        let mut evicted: usize = 0;
        loop
            invariant
                old(self)@.len() <= usize::MAX,
                absent matches Some(key) ==> forall|j: int| 0 <= j < self@.len() ==> (#[trigger] self@[j]).key != key,
                forall|l: u32| #[trigger] layer_bytes(self@, l) <= layer_bytes(old(self)@, l),
                self.wf(),
                evict_global(self@, limit as int) == evict_global(old(self)@, limit as int),
                evicted == old(self)@.len() - self@.len(),
                self@.len() <= old(self)@.len(),
                self.spec_max_bytes() == old(self).spec_max_bytes(),
                self.spec_budgets() == old(self).spec_budgets(),
            ensures
                self.wf(),
                absent matches Some(key) ==> forall|j: int| 0 <= j < self@.len() ==> (#[trigger] self@[j]).key != key,
                forall|l: u32| #[trigger] layer_bytes(self@, l) <= layer_bytes(old(self)@, l),
                self@ == evict_global(old(self)@, limit as int),
                sum_bytes(self@) <= limit,
                evicted == old(self)@.len() - self@.len(),
                self.spec_max_bytes() == old(self).spec_max_bytes(),
                self.spec_budgets() == old(self).spec_budgets(),
            decreases self@.len(),
        {
            if self.used_bytes <= limit {
                return evicted;
            }
            if self.entries.len() == 0 {
                return evicted;
            }
            self.remove_at(0);
            evicted = evicted + 1;
        }
    }

    /// Resident bytes used by one layer.
    pub fn layer_used_bytes(&self, layer: u32) -> (n: usize)
        requires
            self.wf(),
        ensures
            n == layer_bytes(self@, layer),
            self.spec_budget(layer) matches Some(b) ==> n <= b,
    {
        proof {
            self.lemma_budgets_hold(layer);
        }
        let mut total: usize = 0;
        let mut i: usize = 0;
        while i < self.entries.len()
            invariant
                self.wf(),
                0 <= i <= self.entries@.len(),
                total == layer_bytes(self@.subrange(0, i as int), layer),
            decreases self.entries.len() - i,
        {
            proof {
                assert(self@.subrange(0, i + 1).drop_last() =~= self@.subrange(0, i as int));
                assert(self@[i as int] == self.entries@[i as int].data());
                lemma_layer_prefix(self@, i + 1, layer);
                lemma_sum_bounds(self@, layer);
            }
            if self.entries[i].key.layer == layer {
                total = total + self.entries[i].bytes;
            }
            i += 1;
        }
        proof {
            assert(self@.subrange(0, self@.len() as int) =~= self@);
        }
        total
    }

    /// Sets or replaces a per-layer budget. Least-recently-used pages of that
    /// layer are evicted until the layer fits the new budget; returns the
    /// number of evicted pages. The global budget still applies.
    pub fn set_layer_budget(&mut self, layer: u32, bytes: usize) -> (evicted: usize)
        requires
            old(self).wf(),
        ensures
            final(self).wf(),
            final(self)@ == evict_layer(old(self)@, layer, bytes as int),
            layer_bytes(final(self)@, layer) <= bytes,
            forall|l: u32| l != layer ==> #[trigger] layer_bytes(final(self)@, l) == layer_bytes(old(self)@, l),
            forall|p: CachedPage|
                old(self)@.contains(p) && p.key.layer != layer ==> #[trigger] final(self)@.contains(p),
            evicted == old(self)@.len() - final(self)@.len(),
            final(self).spec_max_bytes() == old(self).spec_max_bytes(),
            final(self).spec_budget(layer) == Some(bytes),
            forall|l: u32| l != layer ==> #[trigger] final(self).spec_budget(l) == old(self).spec_budget(l),
    {
        proof {
            lemma_evict_layer_keeps_other_layers(old(self)@, layer, bytes as int);
        }
        let evicted = self.evict_layer_until(layer, bytes, Ghost(None));
        let ghost old_b = self.layer_budgets@;
        let i = self.find_budget(layer);
        if i < self.layer_budgets.len() {
            self.layer_budgets.set(i, (layer, bytes));
        } else {
            self.layer_budgets.push((layer, bytes));
        }
        proof {
            let new_b = self.layer_budgets@;
            assert(layers_distinct(new_b)) by {
                assert forall|a: int, b: int|
                    0 <= a < new_b.len() && 0 <= b < new_b.len() && a != b implies #[trigger] new_b[a].0
                    != #[trigger] new_b[b].0 by {
                    if a < old_b.len() && b < old_b.len() && a != i && b != i {
                        assert(new_b[a] == old_b[a] && new_b[b] == old_b[b]);
                    }
                }
            }
            lemma_budget_at(new_b, i as int);
            assert forall|l: u32| l != layer implies #[trigger] budget_of(new_b, l) == budget_of(old_b, l) by {
                lemma_budget_update(old_b, new_b, i as int, layer, l);
            }
            assert forall|j: int| 0 <= j < new_b.len() implies layer_bytes(
                self@,
                #[trigger] new_b[j].0,
            ) <= new_b[j].1 by {
                if j != i {
                    assert(new_b[j] == old_b[j]);
                }
            }
        }
        evicted
    }

    /// Removes a per-layer budget and keeps existing resident pages.
    pub fn clear_layer_budget(&mut self, layer: u32)
        requires
            old(self).wf(),
        ensures
            final(self).wf(),
            final(self)@ == old(self)@,
            final(self).spec_max_bytes() == old(self).spec_max_bytes(),
            final(self).spec_budget(layer) is None,
            forall|l: u32| l != layer ==> #[trigger] final(self).spec_budget(l) == old(self).spec_budget(l),
    {
        let ghost old_b = self.layer_budgets@;
        let i = self.find_budget(layer);
        if i < self.layer_budgets.len() {
            self.layer_budgets.remove(i);
            proof {
                let new_b = self.layer_budgets@;
                assert(new_b =~= old_b.remove(i as int));
                assert(layers_distinct(new_b)) by {
                    assert forall|a: int, b: int|
                        0 <= a < new_b.len() && 0 <= b < new_b.len() && a != b implies #[trigger] new_b[a].0
                        != #[trigger] new_b[b].0 by {
                        let a2 = if a < i { a } else { a + 1 };
                        let b2 = if b < i { b } else { b + 1 };
                        assert(new_b[a] == old_b[a2] && new_b[b] == old_b[b2]);
                    }
                }
                assert forall|j: int| 0 <= j < new_b.len() implies (#[trigger] new_b[j]).0 != layer by {
                    let j2 = if j < i { j } else { j + 1 };
                    assert(new_b[j] == old_b[j2]);
                }
                lemma_budget_absent(new_b, layer);
                assert forall|l: u32| l != layer implies #[trigger] budget_of(new_b, l) == budget_of(old_b, l) by {
                    lemma_budget_remove(old_b, i as int, l);
                }
                assert forall|j: int| 0 <= j < new_b.len() implies layer_bytes(
                    self@,
                    #[trigger] new_b[j].0,
                ) <= new_b[j].1 by {
                    let j2 = if j < i { j } else { j + 1 };
                    assert(new_b[j] == old_b[j2]);
                }
            }
        }
    }

    /// Returns the configured budget for a layer.
    pub fn layer_budget(&self, layer: u32) -> (b: Option<usize>)
        requires
            self.wf(),
        ensures
            b == self.spec_budget(layer),
    {
        let i = self.find_budget(layer);
        if i < self.layer_budgets.len() {
            Some(self.layer_budgets[i].1)
        } else {
            None
        }
    }

    /// Clears all resident pages (wiping their values) but keeps the layer
    /// budgets.
    pub fn clear(&mut self)
        requires
            old(self).wf(),
        ensures
            final(self).wf(),
            final(self)@ == Seq::<CachedPage>::empty(),
            final(self).spec_max_bytes() == old(self).spec_max_bytes(),
            final(self).spec_budgets() == old(self).spec_budgets(),
    {
        while self.entries.len() > 0
            invariant
                self.wf(),
                self.spec_max_bytes() == old(self).spec_max_bytes(),
                self.spec_budgets() == old(self).spec_budgets(),
            decreases self@.len(),
        {
            let last = self.entries.len() - 1;
            self.remove_at(last);
        }
        proof {
            assert(self@ =~= Seq::<CachedPage>::empty());
        }
    }

    /// Returns the resident token count for a page without touching recency.
    pub fn page_tokens(&self, key: &PageKey) -> (t: Option<usize>)
        requires
            self.wf(),
        ensures
            lookup(self@, *key) matches Some(p) ==> t == Some(p.tokens),
            lookup(self@, *key) is None ==> t is None,
    {
        let i = self.find_key(key);
        if i < self.entries.len() {
            assert(self@[i as int] == self.entries@[i as int].data());
            Some(self.entries[i].tokens)
        } else {
            None
        }
    }

    /// Removes a resident page, wiping its values; returns whether it was
    /// resident.
    pub fn remove(&mut self, key: &PageKey) -> (removed: bool)
        requires
            old(self).wf(),
        ensures
            final(self).wf(),
            removed == (lookup(old(self)@, *key) is Some),
            final(self)@ == remove_key(old(self)@, *key),
            final(self).spec_max_bytes() == old(self).spec_max_bytes(),
            final(self).spec_budgets() == old(self).spec_budgets(),
    {
        let i = self.find_key(key);
        if i < self.entries.len() {
            self.remove_at(i);
            true
        } else {
            false
        }
    }

    /// Gets a resident page and marks it most recently used.
    pub fn get(&mut self, key: &PageKey) -> (view: Option<PageView<'_>>)
        requires
            old(self).wf(),
        ensures
            final(self).wf(),
            final(self).spec_max_bytes() == old(self).spec_max_bytes(),
            final(self).spec_budgets() == old(self).spec_budgets(),
            lookup(old(self)@, *key) is None ==> view is None && final(self)@ == old(self)@,
            lookup(old(self)@, *key) matches Some(p) ==> {
                let i = index_of_key(old(self)@, *key, 0);
                &&& final(self)@ == old(self)@.remove(i).push(p)
                &&& view matches Some(v) && v.tokens == p.tokens && v.k@ == p.k && v.v@ == p.v
            },
    {
        let i = self.find_key(key);
        if i == self.entries.len() {
            return None;
        }
        let ghost old_view = self@;
        let page = self.entries.remove(i);
        self.entries.push(page);
        proof {
            let r = old_view.remove(i as int);
            assert(self@ =~= r.push(old_view[i as int]));
            lemma_sum_remove(old_view, i as int);
            lemma_sum_push(r, old_view[i as int]);
            assert forall|a: int, b: int|
                0 <= a < self@.len() && 0 <= b < self@.len() && a != b implies #[trigger] self@[a].key
                != #[trigger] self@[b].key by {
                let a2 = if a == r.len() { i as int } else if a < i { a } else { a + 1 };
                let b2 = if b == r.len() { i as int } else if b < i { b } else { b + 1 };
                assert(self@[a] == old_view[a2]);
                assert(self@[b] == old_view[b2]);
            }
            assert forall|j: int| 0 <= j < self@.len() implies page_consistent(#[trigger] self@[j]) by {
                let j2 = if j == r.len() { i as int } else if j < i { j } else { j + 1 };
                assert(self@[j] == old_view[j2]);
            }
            assert forall|j: int| 0 <= j < self.layer_budgets@.len() implies layer_bytes(
                self@,
                #[trigger] self.layer_budgets@[j].0,
            ) <= self.layer_budgets@[j].1 by {
                let l = self.layer_budgets@[j].0;
                assert(layer_bytes(r, l) == layer_bytes(old_view, l) - (
                if old_view[i as int].key.layer == l {
                    old_view[i as int].bytes as int
                } else {
                    0
                }));
            }
        }
        let last = self.entries.len() - 1;
        let entry = &self.entries[last];
        Some(PageView { tokens: entry.tokens, k: entry.k.as_slice(), v: entry.v.as_slice() })
    }
}

/// Why an insertion is refused before any budget check, if it is.
pub open spec fn insert_input_error(
    key: PageKey,
    tokens: usize,
    head_dim: usize,
    k: Seq<u32>,
    v: Seq<u32>,
) -> Option<CfrError> {
    let expected = tokens * head_dim;
    if tokens == 0 {
        Some(CfrError::InvalidPage { key, message: "hot page token count must be non-zero" })
    } else if head_dim == 0 {
        Some(CfrError::InvalidConfig("head_dim must be non-zero"))
    } else if expected > usize::MAX {
        Some(CfrError::CapacityOverflow { name: "hot page matrix length" })
    } else if k.len() != expected {
        Some(CfrError::Dimension { name: "hot page K", expected: expected as usize, got: k.len() as usize })
    } else if v.len() != expected {
        Some(CfrError::Dimension { name: "hot page V", expected: expected as usize, got: v.len() as usize })
    } else if !all_finite_bits(k) {
        Some(CfrError::Numeric("hot page K contains a non-finite value"))
    } else if !all_finite_bits(v) {
        Some(CfrError::Numeric("hot page V contains a non-finite value"))
    } else if kv_bytes_spec(tokens as int, head_dim as int) > usize::MAX {
        Some(CfrError::CapacityOverflow { name: "hot page bytes" })
    } else {
        None
    }
}

/// Bytes of the resident page for `key`, or zero.
pub open spec fn replaced_bytes(pages: Seq<CachedPage>, key: PageKey) -> int {
    match lookup(pages, key) {
        Some(p) => p.bytes as int,
        None => 0,
    }
}

/// Pages after inserting a page of `bytes` bytes for `key`: the old page for
/// the key goes, then least-recently-used pages of the key's layer while the
/// layer budget (if any) lacks room, then least-recently-used pages while the
/// global budget lacks room, and the new page becomes most recently used.
pub open spec fn pages_after_insert(
    pages: Seq<CachedPage>,
    max_bytes: usize,
    budget: Option<usize>,
    page: CachedPage,
) -> Seq<CachedPage> {
    let s0 = remove_key(pages, page.key);
    let s1 = match budget {
        Some(b) => evict_layer(s0, page.key.layer, b - page.bytes),
        None => s0,
    };
    evict_global(s1, max_bytes - page.bytes).push(page)
}

proof fn lemma_index_of_key_push(s: Seq<CachedPage>, p: CachedPage, from: int)
    requires
        0 <= from <= s.len(),
        forall|j: int| 0 <= j < s.len() ==> (#[trigger] s[j]).key != p.key,
    ensures
        index_of_key(s.push(p), p.key, from) == s.len(),
    decreases s.len() - from,
{
    if from < s.len() {
        assert(s.push(p)[from] == s[from]);
        lemma_index_of_key_push(s, p, from + 1);
    }
}

impl HotCache {
    /// Inserts a page if it fits the cache budgets; returns whether it was
    /// inserted. See [`HotCache::insert_internal`] for the exact effect.
    pub fn insert(&mut self, key: PageKey, tokens: usize, head_dim: usize, k: &[u32], v: &[u32]) -> (res: Result<bool>)
        requires
            old(self).wf(),
        ensures
            final(self).wf(),
            final(self).spec_max_bytes() == old(self).spec_max_bytes(),
            final(self).spec_budgets() == old(self).spec_budgets(),
            Self::insert_spec(*old(self), *final(self), key, tokens, head_dim, k@, v@, match res {
                Ok(true) => Ok(InsertOutcome::Inserted {
                    evicted: (remove_key(old(self)@, key).len() + 1 - final(self)@.len()) as usize,
                }),
                Ok(false) => Ok(InsertOutcome::RejectedTooLarge),
                Err(e) => Err(e),
            }),
    {
        match self.insert_internal(key, tokens, head_dim, k, v) {
            Ok(InsertOutcome::Inserted { evicted }) => Ok(true),
            Ok(InsertOutcome::RejectedTooLarge) => Ok(false),
            Err(e) => Err(e),
        }
    }

    /// The outcome and effect of inserting a page.
    pub open spec fn insert_spec(
        old_cache: Self,
        new_cache: Self,
        key: PageKey,
        tokens: usize,
        head_dim: usize,
        k: Seq<u32>,
        v: Seq<u32>,
        res: Result<InsertOutcome>,
    ) -> bool {
        let bytes = kv_bytes_spec(tokens as int, head_dim as int);
        let budget = old_cache.spec_budget(key.layer);
        let replaced = replaced_bytes(old_cache@, key);
        let page = CachedPage { key, tokens, k, v, bytes: bytes as usize };
        if let Some(e) = insert_input_error(key, tokens, head_dim, k, v) {
            res == Err::<InsertOutcome, CfrError>(e) && new_cache@ == old_cache@
        } else if bytes > old_cache.spec_max_bytes() || (budget matches Some(b) && bytes > b) {
            res == Ok::<InsertOutcome, CfrError>(InsertOutcome::RejectedTooLarge) && new_cache@ == old_cache@
        } else if sum_bytes(old_cache@) - replaced + bytes > usize::MAX {
            res == Err::<InsertOutcome, CfrError>(CfrError::CapacityOverflow { name: "hot cache used bytes" })
                && new_cache@ == old_cache@
        } else if layer_bytes(old_cache@, key.layer) - replaced + bytes > usize::MAX {
            res == Err::<InsertOutcome, CfrError>(
                CfrError::CapacityOverflow { name: "layer hot cache used bytes" },
            ) && new_cache@ == old_cache@
        } else {
            &&& new_cache@ == pages_after_insert(old_cache@, old_cache.spec_max_bytes(), budget, page)
            &&& res == Ok::<InsertOutcome, CfrError>(InsertOutcome::Inserted {
                evicted: (remove_key(old_cache@, key).len() + 1 - new_cache@.len()) as usize,
            })
            &&& lookup(new_cache@, key) == Some(page)
        }
    }

    /// Inserts a page if it fits the cache budgets. Invalid input, oversized
    /// pages and accounting overflow leave the cache unchanged.
    pub(crate) fn insert_internal(
        &mut self,
        key: PageKey,
        tokens: usize,
        head_dim: usize,
        k: &[u32],
        v: &[u32],
    ) -> (res: Result<InsertOutcome>)
        requires
            old(self).wf(),
        ensures
            final(self).wf(),
            final(self).spec_max_bytes() == old(self).spec_max_bytes(),
            final(self).spec_budgets() == old(self).spec_budgets(),
            Self::insert_spec(*old(self), *final(self), key, tokens, head_dim, k@, v@, res),
    {
        if tokens == 0 {
            return Err(CfrError::InvalidPage { key, message: "hot page token count must be non-zero" });
        }
        if head_dim == 0 {
            return Err(CfrError::InvalidConfig("head_dim must be non-zero"));
        }
        let expected = checked_matrix_len("hot page matrix length", tokens, head_dim)?;
        expect_len("hot page K", expected, k.len())?;
        expect_len("hot page V", expected, v.len())?;
        expect_all_finite_bits("hot page K contains a non-finite value", k)?;
        expect_all_finite_bits("hot page V contains a non-finite value", v)?;
        let bytes = checked_kv_bytes("hot page bytes", tokens, head_dim)?;
        if bytes > self.max_bytes {
            return Ok(InsertOutcome::RejectedTooLarge);
        }
        let budget = self.layer_budget(key.layer);
        if let Some(b) = budget {
            if bytes > b {
                return Ok(InsertOutcome::RejectedTooLarge);
            }
        }
        let ghost old_view = self@;
        let found = self.find_key(&key);
        let replaced = if found < self.entries.len() {
            proof {
                assert(old_view[found as int] == self.entries@[found as int].data());
                lemma_page_bytes_bounded(old_view, found as int);
            }
            self.entries[found].bytes
        } else {
            0
        };
        let layer_used = self.layer_used_bytes(key.layer);
        proof {
            lemma_sum_bounds(old_view, key.layer);
        }
        if (self.used_bytes - replaced).checked_add(bytes).is_none() {
            return Err(CfrError::CapacityOverflow { name: "hot cache used bytes" });
        }
        if (layer_used - replaced).checked_add(bytes).is_none() {
            return Err(CfrError::CapacityOverflow { name: "layer hot cache used bytes" });
        }
        let page = HotPage {
            key,
            tokens,
            k: vstd::slice::slice_to_vec(k),
            v: vstd::slice::slice_to_vec(v),
            bytes,
        };
        self.remove(&key);
        let ghost s0 = self@;
        proof {
            assert(s0 == remove_key(old_view, key));
            if found < old_view.len() {
                assert forall|j: int| 0 <= j < s0.len() implies (#[trigger] s0[j]).key != key by {
                    let j2 = if j < found { j } else { j + 1 };
                    assert(s0[j] == old_view.remove(found as int)[j]);
                    assert(old_view.remove(found as int)[j] == old_view[j2]);
                }
            }
        }
        let layer_evicted = match budget {
            Some(b) => self.evict_layer_until(key.layer, b - bytes, Ghost(Some(key))),
            None => 0,
        };
        let ghost s1 = self@;
        let global_evicted = self.evict_until(self.max_bytes - bytes, Ghost(Some(key)));
        let ghost s2 = self@;
        let evicted = layer_evicted + global_evicted;
        let ghost new_page = page.data();
        proof {
            lemma_sum_push(s2, new_page);
            lemma_index_of_key_push(s2, new_page, 0);
        }
        self.entries.push(page);
        self.used_bytes = self.used_bytes + bytes;
        proof {
            assert(self@ =~= s2.push(new_page));
            assert(self@[s2.len() as int] == new_page);
            assert forall|a: int, b: int|
                0 <= a < self@.len() && 0 <= b < self@.len() && a != b implies #[trigger] self@[a].key
                != #[trigger] self@[b].key by {
                if a < s2.len() && b < s2.len() {
                    assert(self@[a] == s2[a] && self@[b] == s2[b]);
                } else if a < s2.len() {
                    assert(self@[a] == s2[a]);
                } else if b < s2.len() {
                    assert(self@[b] == s2[b]);
                }
            }
            assert forall|j: int| 0 <= j < self@.len() implies page_consistent(#[trigger] self@[j]) by {
                if j < s2.len() {
                    assert(self@[j] == s2[j]);
                }
            }
            assert forall|j: int| 0 <= j < self.layer_budgets@.len() implies layer_bytes(
                self@,
                #[trigger] self.layer_budgets@[j].0,
            ) <= self.layer_budgets@[j].1 by {
                let l = self.layer_budgets@[j].0;
                if l == key.layer {
                    lemma_budget_at(self.layer_budgets@, j);
                }
            }
        }
        Ok(InsertOutcome::Inserted { evicted })
    }
}
proof fn lemma_index_of_key_absent(pages: Seq<CachedPage>, key: PageKey, from: int)
    requires
        0 <= from <= pages.len(),
        forall|j: int| from <= j < pages.len() ==> (#[trigger] pages[j]).key != key,
    ensures
        index_of_key(pages, key, from) == pages.len(),
    decreases pages.len() - from,
{
    if from < pages.len() {
        lemma_index_of_key_absent(pages, key, from + 1);
    }
}

proof fn lemma_index_of_key_found(pages: Seq<CachedPage>, key: PageKey, from: int)
    requires
        0 <= from <= pages.len(),
    ensures
        from <= index_of_key(pages, key, from) <= pages.len(),
        index_of_key(pages, key, from) < pages.len() ==> pages[index_of_key(pages, key, from)].key
            == key,
    decreases pages.len() - from,
{
    if from < pages.len() && pages[from].key != key {
        lemma_index_of_key_found(pages, key, from + 1);
    }
}

impl HotCache {
    /// Every well-formed cache holds no more than its global budget, and no
    /// layer holds more than the budget configured for it.
    pub proof fn lemma_budgets_hold(self, layer: u32)
        requires
            self.wf(),
        ensures
            sum_bytes(self@) <= self.spec_max_bytes(),
            self.spec_budget(layer) matches Some(b) ==> layer_bytes(self@, layer) <= b,
    {
        if let Some(b) = self.spec_budget(layer) {
            let i = choose|i: int|
                0 <= i < self.layer_budgets@.len() && #[trigger] self.layer_budgets@[i].0 == layer;
            assert(layer_bytes(self@, self.layer_budgets@[i].0) <= self.layer_budgets@[i].1);
        }
    }

    /// The cache's accounting holds in every well-formed cache: the resident
    /// bytes are the sum of the resident pages' bytes and never exceed the
    /// global budget, every layer with a budget holds no more than it, and the
    /// resident bytes are the sum of the layer totals over any list of
    /// distinct layers that holds the layer of every resident page.
    pub proof fn lemma_accounting(self, layers: Seq<u32>)
        requires
            self.wf(),
            layers.no_duplicates(),
            forall|i: int| 0 <= i < self@.len() ==> layers.contains(#[trigger] self@[i].key.layer),
        ensures
            sum_bytes(self@) <= self.spec_max_bytes(),
            forall|l: u32| #[trigger] self.spec_budget(l) matches Some(b) ==> layer_bytes(self@, l) <= b,
            sum_over_layers(self@, layers) == sum_bytes(self@),
    {
        assert forall|l: u32| #[trigger] self.spec_budget(l) is Some implies layer_bytes(self@, l)
            <= self.spec_budget(l)->0 by {
            self.lemma_budgets_hold(l);
        }
        lemma_sum_over_layers(self@, layers);
    }

    /// An insertion keeps the accounting, whatever it returns: the cache after
    /// it is well formed (as [`HotCache::insert`] ensures), so
    /// [`HotCache::lemma_accounting`] holds of it; and an insertion that fails
    /// or is refused leaves the resident pages, the resident bytes and every
    /// layer's bytes as they were.
    pub proof fn lemma_insert_keeps_accounting(
        old_cache: Self,
        new_cache: Self,
        key: PageKey,
        tokens: usize,
        head_dim: usize,
        k: Seq<u32>,
        v: Seq<u32>,
        res: Result<InsertOutcome>,
        layers: Seq<u32>,
    )
        requires
            new_cache.wf(),
            Self::insert_spec(old_cache, new_cache, key, tokens, head_dim, k, v, res),
            layers.no_duplicates(),
            forall|i: int|
                0 <= i < new_cache@.len() ==> layers.contains(#[trigger] new_cache@[i].key.layer),
        ensures
            sum_bytes(new_cache@) <= new_cache.spec_max_bytes(),
            forall|l: u32| #[trigger] new_cache.spec_budget(l) matches Some(b) ==> layer_bytes(new_cache@, l)
                <= b,
            sum_over_layers(new_cache@, layers) == sum_bytes(new_cache@),
            !(res matches Ok(InsertOutcome::Inserted { .. })) ==> {
                &&& new_cache@ == old_cache@
                &&& sum_bytes(new_cache@) == sum_bytes(old_cache@)
                &&& forall|l: u32| #[trigger] layer_bytes(new_cache@, l) == layer_bytes(old_cache@, l)
            },
    {
        new_cache.lemma_accounting(layers);
    }

    /// A page that was inserted is read back as written: after an insertion
    /// that admitted the page, the cache holds it under its key.
    pub proof fn lemma_insert_then_lookup(
        old_cache: Self,
        new_cache: Self,
        key: PageKey,
        tokens: usize,
        head_dim: usize,
        k: Seq<u32>,
        v: Seq<u32>,
        evicted: usize,
    )
        requires
            Self::insert_spec(
                old_cache,
                new_cache,
                key,
                tokens,
                head_dim,
                k,
                v,
                Ok(InsertOutcome::Inserted { evicted }),
            ),
        ensures
            lookup(new_cache@, key) matches Some(p) && p.tokens == tokens && p.k == k && p.v == v,
    {
    }

    /// An insertion that fails or is refused leaves the resident pages as
    /// they were.
    pub proof fn lemma_refused_insert_keeps_pages(
        old_cache: Self,
        new_cache: Self,
        key: PageKey,
        tokens: usize,
        head_dim: usize,
        k: Seq<u32>,
        v: Seq<u32>,
        res: Result<InsertOutcome>,
    )
        requires
            Self::insert_spec(old_cache, new_cache, key, tokens, head_dim, k, v, res),
            !(res matches Ok(InsertOutcome::Inserted { .. })),
        ensures
            new_cache@ == old_cache@,
    {
    }

    /// Only finite values are ever resident: every page of a well-formed
    /// cache holds finite K and V values of equal length, accounted at eight
    /// bytes per K/V element pair.
    pub proof fn lemma_resident_pages_finite(self, i: int)
        requires
            self.wf(),
            0 <= i < self@.len(),
        ensures
            all_finite_bits(self@[i].k),
            all_finite_bits(self@[i].v),
            self@[i].k.len() == self@[i].v.len(),
            self@[i].bytes == self@[i].k.len() * 8,
    {
        assert(page_consistent(self@[i]));
    }

    /// A removed key is no longer resident.
    pub proof fn lemma_remove_then_lookup(self, key: PageKey)
        requires
            self.wf(),
        ensures
            lookup(remove_key(self@, key), key) is None,
    {
        let pages = self@;
        lemma_index_of_key_found(pages, key, 0);
        let i = index_of_key(pages, key, 0);
        if i < pages.len() {
            let r = pages.remove(i);
            assert forall|j: int| 0 <= j < r.len() implies (#[trigger] r[j]).key != key by {
                let j2 = if j < i { j } else { j + 1 };
                assert(r[j] == pages[j2]);
                assert(j2 != i);
            }
            lemma_index_of_key_absent(r, key, 0);
        }
    }
}

} // verus!
