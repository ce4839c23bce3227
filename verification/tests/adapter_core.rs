use cfr_atlas::{AttentionTopology, DTypePolicy, TokenLedger, TokenRecord};

#[test]
fn token_ledger_preserves_ids_and_positions() -> cfr_atlas::Result<()> {
    let mut ledger = TokenLedger::new();
    ledger.push(10)?;
    ledger.push(11)?;
    ledger.push_with_position(12, 10)?;

    assert_eq!(ledger.len(), 3);
    assert_eq!(ledger.token_ids(), vec![10, 11, 12]);
    assert_eq!(ledger.positions(), vec![0, 1, 10]);
    assert_eq!(ledger.range(1..3)?[0], TokenRecord::new(11, 1));
    Ok(())
}

#[test]
fn topology_maps_mha_mqa_and_gqa() -> cfr_atlas::Result<()> {
    assert_eq!(AttentionTopology::mha(4)?.map_query_head(3)?.kv_head, 3);
    assert_eq!(AttentionTopology::mqa(8)?.map_query_head(7)?.kv_head, 0);

    let mapping = AttentionTopology::gqa(16, 4)?.map_query_head(10)?;
    assert_eq!(mapping.kv_head, 2);
    assert_eq!(mapping.group_start, 8);
    assert_eq!(mapping.group_end, 12);
    Ok(())
}

#[test]
fn dtype_policy_rounding_is_deterministic() {
    let values = [0.1f32, -0.2, 1.337, 65504.0];
    for policy in [DTypePolicy::float32(), DTypePolicy::bf16(), DTypePolicy::float16()] {
        let rounded_once: Vec<u32> = values
            .iter()
            .map(|value| policy.round_bits(value.to_bits()))
            .collect();
        let rounded_twice: Vec<u32> = rounded_once
            .iter()
            .map(|bits| policy.round_bits(*bits))
            .collect();
        assert_eq!(rounded_once, rounded_twice);
    }
}

#[test]
fn token_ledger_push_after_explicit_position_stays_monotonic() -> cfr_atlas::Result<()> {
    let mut ledger = TokenLedger::new();
    ledger.push_with_position(1, 10)?;
    ledger.push(2)?;
    assert_eq!(ledger.positions(), vec![10, 11]);
    Ok(())
}

#[test]
fn token_ledger_refuses_non_increasing_position() -> cfr_atlas::Result<()> {
    let mut ledger = TokenLedger::from_token_ids(&[7, 8, 9])?;
    assert_eq!(ledger.positions(), vec![0, 1, 2]);
    assert!(ledger.push_with_position(4, 2).is_err());
    assert!(ledger.push_with_position(4, 1).is_err());
    assert_eq!(ledger.len(), 3);
    assert_eq!(ledger.push_with_position(4, 3)?, 3);
    assert_eq!(ledger.get(3), Some(TokenRecord::new(4, 3)));
    assert_eq!(ledger.get(4), None);
    assert!(ledger.range(2..5).is_err());
    Ok(())
}

#[test]
fn topology_rejects_invalid_shapes() {
    assert!(AttentionTopology::mha(0).is_err());
    assert!(AttentionTopology::gqa(10, 4).is_err());
    assert!(AttentionTopology::gqa(8, 0).is_err());
    let gqa = AttentionTopology::gqa(8, 2).unwrap();
    assert_eq!(gqa.group_size(), 4);
    assert!(gqa.map_query_head(8).is_err());
}

#[test]
fn bf16_rounding_keeps_high_half() {
    let policy = DTypePolicy::bf16();
    assert_eq!(policy.round_bits(0x3f80_0000), 0x3f80_0000);
    assert_eq!(policy.round_bits(0x3f80_8000), 0x3f80_0000);
    assert_eq!(policy.round_bits(0x3f81_8000), 0x3f82_0000);
    assert_eq!(policy.round_bits(0x7f80_0001), 0x7f80_0001);
}

#[test]
fn f16_rounding_matches_half_precision() {
    let policy = DTypePolicy::float16();
    assert_eq!(policy.round_bits(1.0f32.to_bits()), 1.0f32.to_bits());
    assert_eq!(policy.round_bits(65504.0f32.to_bits()), 65504.0f32.to_bits());
    assert_eq!(policy.round_bits(1.0e6f32.to_bits()), f32::INFINITY.to_bits());
    assert_eq!(policy.round_bits(1.0e-9f32.to_bits()), 0);
    let smallest = 2.0f32.powi(-24);
    assert_eq!(policy.round_bits(smallest.to_bits()), smallest.to_bits());
}
