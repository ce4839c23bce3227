use cfr_atlas::{checked_matrix_len, Config, HotCache, PageKey, PageRange};

fn read_u32(data: &[u8], offset: usize) -> u32 {
    let mut bytes = [0u8; 4];
    if let Some(slice) = data.get(offset..offset + 4) {
        bytes.copy_from_slice(slice);
    }
    u32::from_le_bytes(bytes)
}

fn usize_from_u32_or_zero(value: u32) -> usize {
    usize::try_from(value).map_or(0, |value| value)
}

fn exercise(data: &[u8]) {
    if data.len() < 24 {
        return;
    }
    let page_tokens = usize_from_u32_or_zero(read_u32(data, 0)) % 4096;
    let head_dim = usize_from_u32_or_zero(read_u32(data, 4)) % 2048;
    let max_scratch_tokens = usize_from_u32_or_zero(read_u32(data, 8)) % 4096;
    let hot_cache_bytes = usize_from_u32_or_zero(read_u32(data, 12)) % (1 << 24);
    let start = usize_from_u32_or_zero(read_u32(data, 16)) % 4096;
    let len = usize_from_u32_or_zero(read_u32(data, 20)) % 4096;
    let key = PageKey::new(0, 0, start);

    let config = Config::builder(page_tokens, head_dim)
        .hot_cache_bytes(hot_cache_bytes)
        .max_scratch_tokens(max_scratch_tokens)
        .build(Ok(0x3f80_0000));
    assert_eq!(config.is_ok(), page_tokens > 0 && head_dim > 0 && max_scratch_tokens >= page_tokens);

    let range = PageRange::new(key, start..start.saturating_add(len));
    assert_eq!(range.is_ok(), len > 0);

    if head_dim > 0 && len > 0 {
        let mut cache = HotCache::new(hot_cache_bytes);
        if let Ok(values) = checked_matrix_len("fuzz matrix", len, head_dim) {
            if values <= 16_384 {
                let k = vec![0u32; values];
                let v = vec![0u32; values];
                let inserted = cache.insert(key, len, head_dim, &k, &v);
                assert!(cache.used_bytes() <= cache.max_bytes());
                let resident = cache.get(&key).is_some();
                assert_eq!(resident, inserted == Ok(true));
                assert_eq!(cache.remove(&key), resident);
                assert!(cache.get(&key).is_none());
                assert_eq!(cache.used_bytes(), 0);
            }
        }
    }
}

#[test]
fn config_and_page_validation_hold_on_pseudo_random_inputs() {
    let mut state = 0x9e37_79b9_7f4a_7c15u64;
    for round in 0..4096 {
        let mut data = vec![0u8; 24 + round % 3];
        for byte in data.iter_mut() {
            state = state
                .wrapping_mul(6_364_136_223_846_793_005)
                .wrapping_add(1_442_695_040_888_963_407);
            *byte = (state >> 56) as u8;
        }
        if round % 4 == 0 {
            data[5] = 0;
            data[6] = 0;
            data[7] = 0;
            data[21] = 0;
            data[22] = 0;
            data[23] = 0;
        }
        exercise(&data);
    }
    exercise(&[0u8; 8]);
    exercise(&[0u8; 24]);
}
