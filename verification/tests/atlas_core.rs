use cfr_atlas::{AtlasCore, Config, KeepRecent, NeverAdmit, PageKey, ResidencyDecision};

fn atlas_core(admission: bool) -> AtlasCore {
    let config = Config::builder(2, 2)
        .hot_cache_bytes(1024)
        .admit_regenerated_pages(admission)
        .build(Ok(0x3f80_0000))
        .unwrap();
    AtlasCore::new(config).unwrap()
}

#[test]
fn residency_decisions_admit_only_when_enabled() {
    let key = PageKey::new(0, 0, 0);
    let values = [0x3f80_0000u32; 4];

    let mut enabled = atlas_core(true);
    enabled.admit_decided(ResidencyDecision::Drop, key, 2, &values, &values).unwrap();
    assert_eq!(enabled.hot_cache().len(), 0);
    enabled.admit_decided(ResidencyDecision::Admit, key, 2, &values, &values).unwrap();
    assert_eq!(enabled.hot_cache().len(), 1);
    assert_eq!(enabled.stats().cache_admissions, 1);
    let view = enabled.hot_page(key, 2).unwrap();
    assert_eq!(view.k, &values);

    let mut disabled = atlas_core(false);
    disabled.admit_decided(ResidencyDecision::Admit, key, 2, &values, &values).unwrap();
    assert_eq!(disabled.hot_cache().len(), 0);
    assert_eq!(disabled.stats().cache_admissions, 0);
}

#[test]
fn residency_policies_decide_what_is_offered() {
    let key = PageKey::new(0, 0, 6);
    let values = [0u32; 4];
    let mut recent = atlas_core(true);
    recent
        .offer_regenerated(&KeepRecent { recent_tokens: 4 }, key, 2, 8, &values, &values)
        .unwrap();
    assert_eq!(recent.hot_cache().len(), 1);
    let mut never = atlas_core(true);
    never.offer_regenerated(&NeverAdmit, key, 2, 8, &values, &values).unwrap();
    assert_eq!(never.hot_cache().len(), 0);
}

struct EveryPage;

impl cfr_atlas::ResidencyPolicy for EveryPage {
    fn decide(&self, _key: PageKey, _page_tokens: usize, _context_tokens: usize) -> ResidencyDecision {
        ResidencyDecision::Admit
    }
}

#[test]
fn a_policy_that_only_decides_per_page_is_offered_pages() {
    let key = PageKey::new(0, 0, 0);
    let values = [0u32; 4];
    let mut core = atlas_core(true);
    core.offer_regenerated(&EveryPage, key, 2, 8, &values, &values).unwrap();
    assert_eq!(core.hot_cache().len(), 1);
}

#[test]
fn a_stale_page_of_another_shape_is_evicted_not_served() {
    let key = PageKey::new(0, 0, 0);
    let values = [0x3f80_0000u32; 4];
    let mut core = atlas_core(true);
    core.admit_decided(ResidencyDecision::Admit, key, 2, &values, &values).unwrap();
    assert!(core.hot_page(key, 1).is_none());
    assert_eq!(core.hot_cache().len(), 0);
    assert_eq!(core.stats().cache_evictions, 1);
    assert_eq!(core.stats().hot_hits, 0);
    assert!(core.hot_page(key, 2).is_none());
}

#[test]
fn the_hot_cache_can_be_tuned_through_the_core() {
    let key = PageKey::new(3, 0, 0);
    let values = [0u32; 4];
    let mut core = atlas_core(true);
    core.admit_decided(ResidencyDecision::Admit, key, 2, &values, &values).unwrap();
    assert_eq!(core.hot_cache_mut().set_layer_budget(3, 0), 1);
    assert_eq!(core.hot_cache().len(), 0);
    assert_eq!(core.hot_cache().layer_budget(3), Some(0));
}

#[test]
fn the_telemetry_policy_reads_the_cache_budget() {
    let key = PageKey::new(0, 0, 6);
    let values = [0u32; 4];
    let config = cfr_atlas::Config::builder(2, 2)
        .hot_cache_bytes(0)
        .admit_regenerated_pages(true)
        .build(Ok(0x3f80_0000))
        .unwrap();
    let mut core = AtlasCore::new(config).unwrap();
    let policy = cfr_atlas::TelemetryResidencyPolicy::balanced(8);
    core.offer_regenerated(&policy, key, 2, 8, &values, &values).unwrap();
    assert_eq!(core.stats().cache_admission_rejections, 0);
    assert_eq!(core.hot_cache().len(), 0);
    let mut recent = AtlasCore::new(
        cfr_atlas::Config::builder(2, 2)
            .hot_cache_bytes(0)
            .admit_regenerated_pages(true)
            .build(Ok(0x3f80_0000))
            .unwrap(),
    )
    .unwrap();
    recent
        .offer_regenerated(&KeepRecent { recent_tokens: 8 }, key, 2, 8, &values, &values)
        .unwrap();
    assert_eq!(recent.stats().cache_admission_rejections, 1);
}
