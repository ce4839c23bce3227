use cfr_atlas::{CfrError, Config, HotCache, PageKey};

#[test]
fn config_rejects_overflowing_page_shape() {
    let result = Config::builder(usize::MAX, 2).build(Ok(((1.0 / 2f64.sqrt()) as f32).to_bits()));
    assert!(matches!(result, Err(CfrError::CapacityOverflow { .. })));
}

#[test]
fn cache_rejects_zero_token_page() {
    let mut cache = HotCache::new(1024);
    let result = cache.insert(PageKey::new(0, 0, 0), 0, 8, &[], &[]);
    assert!(matches!(result, Err(CfrError::InvalidPage { .. })));
}
