use gh_ci_watch::config::AppConfig;

#[test]
fn default_config_enables_reporting() {
    let config = AppConfig::default();
    assert!(config.enable_sentry);
}
