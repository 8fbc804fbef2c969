use jarvis::ui::config::{default_theme_name, Config};
use jarvis::ui::theme::Theme;

#[test]
fn test_default_config() {
    let config = Config::default();
    assert_eq!(config.theme, "Catppuccin Mocha");
}

#[test]
fn default_config_names_a_built_in_theme() {
    let config = Config::default();
    assert!(Theme::by_name(&config.theme).is_some());
    assert_eq!(default_theme_name(), Theme::default_theme().name);
}
