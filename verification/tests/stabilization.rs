use cfr_atlas::{
    estimate_benchmark_memory, stabilization_benchmark_scenarios, stabilization_report,
    BenchScenario, CfrError, Config, ConfigFields, NoStdBlocker, NoStdReadiness,
    StabilizationStatus, VersionedConfig, CONFIG_SCHEMA_VERSION, MSRV,
};

fn default_scale_bits(head_dim: usize) -> cfr_atlas::Result<u32> {
    if head_dim as u64 > (1u64 << 53) {
        return Err(CfrError::Numeric("head_dim must fit exact f64 scale math"));
    }
    let scale = 1.0 / (head_dim as f64).sqrt();
    if !scale.is_finite() || scale < f64::from(f32::MIN) || scale > f64::from(f32::MAX) {
        return Err(CfrError::Numeric("default attention scale is outside f32 range"));
    }
    Ok((scale as f32).to_bits())
}

fn encode(versioned: &VersionedConfig) -> String {
    let scale = f32::from_bits(versioned.config().scale_bits);
    versioned.encode_with_scale(&format!("{scale:?}"))
}

fn decode(input: &str) -> cfr_atlas::Result<VersionedConfig> {
    let scales: Vec<(String, Option<u32>)> = VersionedConfig::scale_texts(input)
        .into_iter()
        .map(|text| {
            let bits = text.parse::<f32>().ok().map(f32::to_bits);
            (text, bits)
        })
        .collect();
    VersionedConfig::decode(input, &scales)
}

#[test]
fn versioned_config_round_trips() -> cfr_atlas::Result<()> {
    let config = Config::builder(512, 64)
        .hot_cache_bytes(128 << 20)
        .admit_regenerated_pages(true)
        .max_scratch_tokens(512)
        .wipe_scratch_after_use(true)
        .build(default_scale_bits(64))?;
    let versioned = VersionedConfig::new(config.clone())?;
    let encoded = encode(&versioned);
    let decoded = decode(&encoded)?;

    assert_eq!(decoded.schema_version(), CONFIG_SCHEMA_VERSION);
    assert_eq!(decoded.config(), &config);
    assert!(encoded.contains("cfr_atlas_config_schema=1"));
    assert!(encoded.contains("page_tokens=512"));
    Ok(())
}

#[test]
fn versioned_config_rejects_unknown_schema() -> cfr_atlas::Result<()> {
    let config = Config::new(128, 32, 0, default_scale_bits(32))?;
    let encoded = encode(&VersionedConfig::new(config)?);
    let unsupported = encoded.replace("cfr_atlas_config_schema=1", "cfr_atlas_config_schema=2");
    let error = match decode(&unsupported) {
        Ok(_) => return Err(CfrError::InvalidConfig("schema version was accepted")),
        Err(error) => error,
    };
    assert!(matches!(error, CfrError::InvalidConfig(_)));
    Ok(())
}

#[test]
fn versioned_config_rejects_missing_required_field() -> cfr_atlas::Result<()> {
    let config = Config::new(128, 32, 0, default_scale_bits(32))?;
    let encoded = encode(&VersionedConfig::new(config)?);
    let missing_head_dim = encoded
        .lines()
        .filter(|line| !line.starts_with("head_dim="))
        .collect::<Vec<_>>()
        .join("\n");
    let error = match decode(&missing_head_dim) {
        Ok(_) => return Err(CfrError::InvalidConfig("missing field was accepted")),
        Err(error) => error,
    };
    assert!(matches!(error, CfrError::InvalidConfig(_)));
    Ok(())
}

#[test]
fn stabilization_report_matches_release_policy() {
    let report = stabilization_report();
    assert_eq!(report.msrv, MSRV);
    assert_eq!(report.config_schema_version, CONFIG_SCHEMA_VERSION);
    assert!(report.public_api.root_reexports_reviewed);
    assert!(report.public_api.missing_docs_denied);
    assert!(report.public_api.unsafe_code_forbidden);
    assert_eq!(report.no_std.readiness, NoStdReadiness::RequiresStd);
    assert!(report.no_std.alloc_only_core_feasible);
    assert!(report
        .no_std
        .blockers
        .contains(&NoStdBlocker::HotCacheAllocation));
    assert_eq!(report.supply_chain.runtime_dependency_count, 0);
    assert!(report.supply_chain.cargo_deny_policy_shipped);
    assert_eq!(
        report.claims.status,
        StabilizationStatus::RequiresExternalReview
    );
}

#[test]
fn benchmark_memory_estimate_is_deterministic() -> cfr_atlas::Result<()> {
    let scenario = BenchScenario::new(65_536, 64, 512, 0);
    let estimate = estimate_benchmark_memory(scenario)?;
    assert_eq!(estimate.baseline_kv_bytes, 33_554_432);
    assert_eq!(estimate.cfr_scratch_bytes, 262_144);
    assert_eq!(estimate.cfr_resident_budget_bytes, 262_144);
    let reduction = estimate.baseline_kv_bytes as f64 / estimate.cfr_resident_budget_bytes as f64;
    assert!((reduction as f32 - 128.0).abs() <= f32::EPSILON);
    Ok(())
}

#[test]
fn stabilization_benchmark_matrix_is_non_empty_and_ordered() {
    let scenarios = stabilization_benchmark_scenarios();
    assert!(!scenarios.is_empty());
    assert_eq!(scenarios[0], BenchScenario::new(4_096, 64, 128, 0));
    assert_eq!(scenarios[1], BenchScenario::new(4_096, 64, 128, 64 << 20));
}

#[test]
fn versioned_config_rejects_duplicate_field() -> cfr_atlas::Result<()> {
    let config = Config::new(128, 32, 0, default_scale_bits(32))?;
    let encoded = encode(&VersionedConfig::new(config)?);
    let duplicated = format!("{encoded}page_tokens=256\n");
    let error = match decode(&duplicated) {
        Ok(_) => return Err(CfrError::InvalidConfig("duplicate field was accepted")),
        Err(error) => error,
    };
    assert!(matches!(error, CfrError::InvalidConfig(_)));
    Ok(())
}

#[test]
fn benchmark_memory_estimate_rejects_invalid_shapes() {
    let zero_context = BenchScenario::new(0, 64, 64, 0);
    let zero_head_dim = BenchScenario::new(128, 0, 64, 0);
    let zero_page = BenchScenario::new(128, 64, 0, 0);
    let oversized_page = BenchScenario::new(128, 64, 256, 0);

    assert!(estimate_benchmark_memory(zero_context).is_err());
    assert!(estimate_benchmark_memory(zero_head_dim).is_err());
    assert!(estimate_benchmark_memory(zero_page).is_err());
    assert!(estimate_benchmark_memory(oversized_page).is_err());
}

#[test]
fn encoded_config_has_fixed_line_layout() -> cfr_atlas::Result<()> {
    let config = Config::new(16, 4, 4096, default_scale_bits(4))?;
    let text = VersionedConfig::new(config)?.encode_with_scale("0.5");
    assert_eq!(
        text,
        "cfr_atlas_config_schema=1\npage_tokens=16\nhead_dim=4\nhot_cache_bytes=4096\nscale=0.5\nadmit_regenerated_pages=false\nmax_scratch_tokens=16\nwipe_scratch_after_use=true\n"
    );
    Ok(())
}

#[test]
fn decoder_reports_each_field_error() {
    let mut fields = ConfigFields::new();
    assert_eq!(fields.accept_line("   "), Ok(None));
    assert_eq!(
        fields.accept_line("page_tokens"),
        Err(CfrError::InvalidConfig("invalid config schema line"))
    );
    assert_eq!(
        fields.accept_line("colour=blue"),
        Err(CfrError::InvalidConfig("unknown config schema field"))
    );
    assert_eq!(
        fields.accept_line("page_tokens=-1"),
        Err(CfrError::InvalidConfig("invalid page_tokens"))
    );
    assert_eq!(
        fields.accept_line("head_dim=99999999999999999999999"),
        Err(CfrError::InvalidConfig("invalid head_dim"))
    );
    assert_eq!(
        fields.accept_line("admit_regenerated_pages=TRUE"),
        Err(CfrError::InvalidConfig("invalid boolean config value"))
    );
    assert_eq!(fields.accept_line(" page_tokens = +8 \r"), Ok(None));
    assert_eq!(fields.page_tokens, Some(8));
    assert_eq!(
        fields.accept_line("page_tokens=8"),
        Err(CfrError::InvalidConfig("duplicate page_tokens"))
    );
    assert_eq!(
        fields.accept_line("scale = 0.25 "),
        Ok(Some("0.25".to_owned()))
    );
    assert_eq!(
        fields.accept_scale(None),
        Err(CfrError::InvalidConfig("invalid scale"))
    );
    assert_eq!(
        fields.accept_scale(Some((-1.0f32).to_bits())),
        Err(CfrError::InvalidConfig("scale must be positive and finite"))
    );
    assert_eq!(
        fields.accept_scale(Some(f32::INFINITY.to_bits())),
        Err(CfrError::InvalidConfig("scale must be positive and finite"))
    );
    assert_eq!(fields.accept_scale(Some(0.25f32.to_bits())), Ok(()));
    assert_eq!(
        fields.accept_scale(Some(0.25f32.to_bits())),
        Err(CfrError::InvalidConfig("duplicate scale"))
    );
}

#[test]
fn decoder_requires_every_field_in_order() {
    let fields = ConfigFields::new();
    assert_eq!(
        fields.finish().map(|v| v.schema_version()),
        Err(CfrError::InvalidConfig("missing config schema version"))
    );
    let mut fields = ConfigFields::new();
    assert_eq!(fields.accept_line("cfr_atlas_config_schema=1"), Ok(None));
    assert_eq!(
        fields.finish().map(|v| v.schema_version()),
        Err(CfrError::InvalidConfig("missing page_tokens"))
    );
    let mut fields = ConfigFields::new();
    assert_eq!(fields.accept_line("cfr_atlas_config_schema=2"), Ok(None));
    assert_eq!(
        fields.finish().map(|v| v.schema_version()),
        Err(CfrError::InvalidConfig("unsupported config schema version"))
    );
}

#[test]
fn decoded_config_is_validated() {
    let text = "cfr_atlas_config_schema=1\npage_tokens=16\nhead_dim=4\nhot_cache_bytes=0\nscale=0.5\nadmit_regenerated_pages=true\nmax_scratch_tokens=8\nwipe_scratch_after_use=false\n";
    assert_eq!(
        decode(text).map(|v| v.schema_version()),
        Err(CfrError::InvalidConfig("page_tokens must be <= max_scratch_tokens"))
    );
}

#[test]
fn decode_reads_scale_texts_through_the_given_pairs() -> cfr_atlas::Result<()> {
    let versioned = VersionedConfig::new(Config::new(64, 16, 0, Ok(0x3e80_0000))?)?;
    let text = encode(&versioned);
    assert_eq!(VersionedConfig::scale_texts(&text), vec!["0.25".to_owned()]);
    let decoded = VersionedConfig::decode(&text, &[("0.25".to_owned(), Some(0x3e80_0000))])?;
    assert_eq!(decoded.config(), versioned.config());
    assert_eq!(
        VersionedConfig::decode(&text, &[]).err(),
        Some(CfrError::InvalidConfig("invalid scale"))
    );
    assert_eq!(
        VersionedConfig::decode(&text, &[("0.25".to_owned(), Some(0))]).err(),
        Some(CfrError::InvalidConfig("scale must be positive and finite"))
    );
    assert_eq!(
        VersionedConfig::scale_texts("scale = 1.0\nbroken line\nscale=2\n"),
        vec!["1.0".to_owned(), "2".to_owned()]
    );
    Ok(())
}
