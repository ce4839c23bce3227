use cfr_atlas::{
    checked_kv_bytes, checked_matrix_len, CfrStatsSnapshot, HotCache, PageKey, PageSizeTuner,
    PageTuningInput, ResidencyContext, ResidencyDecision, ResidencyPolicy,
    TelemetryResidencyPolicy,
};

#[test]
fn page_tuner_selects_budget_safe_candidate() -> cfr_atlas::Result<()> {
    let input = PageTuningInput::new(64, 8192)
        .page_token_bounds(64, 2048)
        .cache_bytes(512 * 1024, 8 * 1024 * 1024)
        .max_scratch_bytes(512 * 1024);
    let result = PageSizeTuner::tune(input)?;
    assert!(result.page_tokens >= 64);
    assert!(result.kv_bytes <= input.max_scratch_bytes);
    assert!(!result.candidates.is_empty());
    Ok(())
}

#[test]
fn hot_cache_respects_layer_budget() -> cfr_atlas::Result<()> {
    let mut cache = HotCache::new(1 << 20);
    let key0 = PageKey::new(0, 0, 0);
    let key1 = PageKey::new(0, 0, 64);
    let tokens = 64;
    let head_dim = 8;
    let len = checked_matrix_len("layer budget len", tokens, head_dim)?;
    let k = vec![1.0f32.to_bits(); len];
    let v = vec![2.0f32.to_bits(); len];
    let bytes = checked_kv_bytes("layer budget bytes", tokens, head_dim)?;
    let _old_layer_budget = cache.set_layer_budget(0, bytes);
    assert!(cache.insert(key0, tokens, head_dim, &k, &v)?);
    assert!(cache.insert(key1, tokens, head_dim, &k, &v)?);
    assert_eq!(cache.layer_used_bytes(0), bytes);
    assert!(cache.page_tokens(&key0).is_none() || cache.page_tokens(&key1).is_none());
    Ok(())
}

#[test]
fn telemetry_policy_uses_context() {
    let stats = CfrStatsSnapshot {
        hot_hits: 0,
        cold_regenerations: 8,
        cache_admissions: 0,
        cache_admission_rejections: 0,
        cache_evictions: 0,
        consumed_tokens: 512,
        hot_cache_bytes: 0,
        hot_cache_pages: 0,
    };
    let policy = TelemetryResidencyPolicy::balanced(256);
    let context = ResidencyContext {
        key: PageKey::new(0, 0, 768),
        page_tokens: 128,
        context_tokens: 1024,
        stats: &stats,
        hot_cache_max_bytes: 1 << 20,
        hot_cache_used_bytes: 0,
    };
    assert_eq!(
        policy.decide_with_context(&context),
        ResidencyDecision::Admit
    );
}

#[test]
fn page_tuner_handles_context_smaller_than_min_bound() -> cfr_atlas::Result<()> {
    let input = PageTuningInput::new(32, 16).page_token_bounds(64, 256);
    let result = PageSizeTuner::tune(input)?;
    assert_eq!(result.page_tokens, 16);
    assert_eq!(result.candidates.len(), 1);
    Ok(())
}

#[test]
fn hot_cache_evicts_least_recently_used_page() -> cfr_atlas::Result<()> {
    let head_dim = 2;
    let bytes = checked_kv_bytes("lru page bytes", 1, head_dim)?;
    let mut cache = HotCache::new(bytes * 2);
    let page = [0u32, 0u32];
    let a = PageKey::new(0, 0, 0);
    let b = PageKey::new(0, 0, 1);
    let c = PageKey::new(0, 0, 2);
    assert!(cache.insert(a, 1, head_dim, &page, &page)?);
    assert!(cache.insert(b, 1, head_dim, &page, &page)?);
    assert!(cache.get(&a).is_some());
    assert!(cache.insert(c, 1, head_dim, &page, &page)?);
    assert_eq!(cache.page_tokens(&a), Some(1));
    assert_eq!(cache.page_tokens(&b), None);
    assert_eq!(cache.page_tokens(&c), Some(1));
    assert_eq!(cache.used_bytes(), bytes * 2);
    Ok(())
}

#[test]
fn hot_cache_refuses_page_larger_than_budget() -> cfr_atlas::Result<()> {
    let head_dim = 2;
    let bytes = checked_kv_bytes("large page bytes", 2, head_dim)?;
    let mut cache = HotCache::new(bytes - 1);
    let page = [0u32; 4];
    assert!(!cache.insert(PageKey::new(0, 0, 0), 2, head_dim, &page, &page)?);
    assert!(cache.is_empty());
    assert!(cache.insert(PageKey::new(0, 0, 0), 2, 3, &page, &page).is_err());
    Ok(())
}

#[test]
fn hot_cache_remove_and_clear_release_bytes() -> cfr_atlas::Result<()> {
    let mut cache = HotCache::new(1 << 16);
    let page = [0u32; 8];
    let key = PageKey::new(3, 1, 16);
    assert!(cache.insert(key, 4, 2, &page, &page)?);
    assert_eq!(cache.layer_used_bytes(3), 64);
    assert!(cache.remove(&key));
    assert!(!cache.remove(&key));
    assert_eq!(cache.used_bytes(), 0);
    assert!(cache.insert(key, 4, 2, &page, &page)?);
    cache.clear();
    assert!(cache.is_empty());
    assert_eq!(cache.layer_used_bytes(3), 0);
    Ok(())
}
