use panels::config::PanelsConfig;

#[test]
fn settings_default_to_a_small_local_service() {
    let config = PanelsConfig::defaults();
    assert_eq!(config.port, 3000);
    assert_eq!(config.data_dir, "data");
    assert_eq!(config.strip_cache_max, 500);
    assert_eq!(config.strip_cache_ttl_secs, 1800);
}
