use projectpad::config::Config;

#[test]
fn default_config_is_light() {
    assert!(!Config::default_config().prefer_dark_theme);
}
