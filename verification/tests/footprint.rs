use cfr_atlas::{
    estimate_benchmark_memory, memory_footprint, AttentionTopology, BenchScenario, CfrError, Config,
    MemoryFootprint,
};

#[test]
fn validation_footprint_counts_every_layer_and_kv_head() {
    let config = Config::new(64, 128, 4096, Ok(0x3dea_0000)).unwrap();
    let topology = AttentionTopology::gqa(8, 2).unwrap();
    assert_eq!(
        memory_footprint(&config, topology, 4, 1024, 4096),
        Ok(MemoryFootprint {
            baseline_kv_bytes: 8_388_608,
            cfr_scratch_bytes: 65_536,
            cfr_hot_cache_bytes: 4096,
            cfr_resident_bytes: 69_632,
        })
    );
    assert_eq!(
        memory_footprint(&config, topology, 4, usize::MAX, 0),
        Err(CfrError::CapacityOverflow {
            name: "validation baseline one head"
        })
    );
    assert_eq!(
        memory_footprint(&config, topology, 4, 1024, usize::MAX),
        Err(CfrError::CapacityOverflow {
            name: "validation CFR resident bytes"
        })
    );
}

#[test]
fn benchmark_estimate_refuses_counts_beyond_exact_f64_range() {
    assert_eq!(
        estimate_benchmark_memory(BenchScenario::new(1 << 40, 1024, 1, 0)),
        Err(CfrError::Numeric("benchmark baseline bytes"))
    );
    assert_eq!(
        estimate_benchmark_memory(BenchScenario::new(16, 64, 16, 1 << 53)),
        Err(CfrError::Numeric("benchmark resident bytes"))
    );
    let estimate = estimate_benchmark_memory(BenchScenario::new(16, 64, 16, 0)).unwrap();
    assert_eq!(estimate.baseline_kv_bytes, 8192);
    assert_eq!(estimate.cfr_scratch_bytes, 8192);
    assert_eq!(estimate.cfr_resident_budget_bytes, 8192);
}
