use clashctl::clash_types::ClashMode;
use clashctl::mode::Mode;
use clashctl::pages::{line_color, log_level_to_ws, LogLevel};
use clashctl::preset::Preset;
use clashctl::settings::AppConfig;
use clashctl::state::HealthStatus;
use clashctl::theme::{Color, Theme};

#[test]
fn test_default_config() {
    let config = AppConfig::default();
    assert_eq!(config.api_url, "http://127.0.0.1:9090");
    assert_eq!(config.default_mode, "simple");
    assert_eq!(config.current_preset, "default");
}

#[test]
fn test_preset_from_str() {
    assert_eq!(Preset::from_str("default"), Some(Preset::Default));
    assert_eq!(Preset::from_str("work"), Some(Preset::Work));
    assert_eq!(Preset::from_str("strict"), Some(Preset::Strict));
    assert_eq!(Preset::from_str("expert"), Some(Preset::Expert));
    assert_eq!(Preset::from_str("invalid"), None);
}

#[test]
fn test_preset_behaviors() {
    assert!(Preset::Default.show_speed_test());
    assert!(!Preset::Work.show_speed_test());
    assert!(Preset::Strict.show_speed_test());

    assert!(Preset::Default.allow_quick_switch());
    assert!(!Preset::Strict.allow_quick_switch());
}

#[test]
fn test_preset_cycle() {
    let preset = Preset::Default;
    assert_eq!(preset.next(), Preset::Work);
    assert_eq!(preset.next().next(), Preset::Strict);
    assert_eq!(preset.next().next().next(), Preset::Expert);
    assert_eq!(preset.next().next().next().next(), Preset::Default);
}

#[test]
fn preset_words_and_modes() {
    assert_eq!(Preset::from_str("WORK"), Some(Preset::Work));
    assert_eq!(Preset::from_str("Expert"), Some(Preset::Expert));
    assert_eq!(Preset::from_str(""), None);
    assert_eq!(Preset::from_str(" work"), None);
    for preset in Preset::all() {
        assert_eq!(Preset::from_str(preset.as_str()), Some(preset));
        assert!(preset.auto_refresh());
        assert!(!preset.description().is_empty());
    }
    assert_eq!(
        Preset::all(),
        vec![Preset::Default, Preset::Work, Preset::Strict, Preset::Expert]
    );
    assert_eq!(Preset::Expert.default_mode(), Mode::Expert);
    assert_eq!(Preset::Default.default_mode(), Mode::Simple);
    assert_eq!(Preset::Work.default_mode(), Mode::Simple);
    assert_eq!(Preset::Strict.default_mode(), Mode::Simple);
    assert_eq!(Preset::Strict.name(), "Strict");
    assert_eq!(Preset::Work.description(), "Minimal UI, hide speed test, focus on switching");
    assert_eq!(Preset::default(), Preset::Default);
    assert!(Preset::Expert.show_speed_test());
    assert!(Preset::Work.allow_quick_switch());
    assert!(Preset::Expert.allow_quick_switch());
}

#[test]
fn modes_toggle() {
    assert_eq!(Mode::Simple.toggle(), Mode::Expert);
    assert_eq!(Mode::Expert.toggle(), Mode::Simple);
    assert_eq!(Mode::Simple.as_str(), "Simple");
    assert_eq!(Mode::Expert.as_str(), "Expert");
}

#[test]
fn themes_by_name() {
    assert_eq!(Theme::from_str("light"), Theme::Light);
    assert_eq!(Theme::from_str("DRACULA"), Theme::Dracula);
    assert_eq!(Theme::from_str("Nord"), Theme::Nord);
    assert_eq!(Theme::from_str("dark"), Theme::Dark);
    assert_eq!(Theme::from_str("solarized"), Theme::Dark);
    assert_eq!(Theme::from_str(""), Theme::Dark);
    assert_eq!(Theme::Dark.next(), Theme::Light);
    assert_eq!(Theme::Light.next(), Theme::Dracula);
    assert_eq!(Theme::Dracula.next(), Theme::Nord);
    assert_eq!(Theme::Nord.next(), Theme::Dark);
    assert_eq!(Theme::Nord.as_str(), "nord");
    assert_eq!(Theme::Dracula.name(), "Dracula");
    assert_eq!(Theme::default(), Theme::Dark);
}

#[test]
fn cycles_of_modes_and_levels() {
    assert_eq!(ClashMode::Rule.next(), ClashMode::Global);
    assert_eq!(ClashMode::Global.next(), ClashMode::Direct);
    assert_eq!(ClashMode::Direct.next(), ClashMode::Rule);
    assert_eq!(ClashMode::Global.as_str(), "global");
    assert_eq!(LogLevel::All.next(), LogLevel::Info);
    assert_eq!(LogLevel::Info.next(), LogLevel::Warning);
    assert_eq!(LogLevel::Warning.next(), LogLevel::Error);
    assert_eq!(LogLevel::Error.next(), LogLevel::All);
    assert_eq!(LogLevel::Warning.as_str(), "WARNING");
    assert_eq!(log_level_to_ws(LogLevel::All), None);
    assert_eq!(log_level_to_ws(LogLevel::Info), Some("info"));
    assert_eq!(log_level_to_ws(LogLevel::Warning), Some("warning"));
    assert_eq!(log_level_to_ws(LogLevel::Error), Some("error"));
    assert_eq!(HealthStatus::Unknown.as_str(), "Unknown");
    assert_eq!(HealthStatus::Good.as_str(), "Good");
}

#[test]
fn colours_of_themes_and_states() {
    assert_eq!(Theme::Dark.primary(), Color::Cyan);
    assert_eq!(Theme::Light.primary(), Color::Blue);
    assert_eq!(Theme::Dracula.primary(), Color::Magenta);
    assert_eq!(Theme::Nord.secondary(), Color::LightBlue);
    assert_eq!(Theme::Light.text(), Color::Black);
    assert_eq!(Theme::Light.text_muted(), Color::DarkGray);
    assert_eq!(Theme::Dracula.background(), Color::Rgb(40, 42, 54));
    assert_eq!(Theme::Nord.background(), Color::Rgb(46, 52, 64));
    assert_eq!(Theme::Dracula.border(), Color::Rgb(68, 71, 90));
    assert_eq!(Theme::Nord.border(), Color::Rgb(76, 86, 106));
    assert_eq!(Theme::Dracula.highlight(), Color::Rgb(255, 121, 198));
    assert_eq!(Theme::Nord.highlight(), Color::Rgb(136, 192, 208));
    assert_eq!(Theme::Dark.selected(), Color::Cyan);
    for theme in [Theme::Dark, Theme::Light, Theme::Dracula, Theme::Nord] {
        assert_eq!(theme.success(), Color::Green);
        assert_eq!(theme.warning(), Color::Yellow);
        assert_eq!(theme.error(), Color::Red);
    }
    assert_eq!(HealthStatus::Good.color(), Color::Green);
    assert_eq!(HealthStatus::Fair.color(), Color::Yellow);
    assert_eq!(HealthStatus::Bad.color(), Color::Red);
    assert_eq!(HealthStatus::Error.color(), Color::Magenta);
    assert_eq!(HealthStatus::Unknown.color(), Color::Gray);
    assert_eq!(LogLevel::All.color(), Color::Gray);
    assert_eq!(LogLevel::Info.color(), Color::Cyan);
    assert_eq!(LogLevel::Warning.color(), Color::Yellow);
    assert_eq!(LogLevel::Error.color(), Color::Red);
    assert_eq!(line_color("ERROR"), Color::Red);
    assert_eq!(line_color("WARNING"), Color::Yellow);
    assert_eq!(line_color("WARN"), Color::Yellow);
    assert_eq!(line_color("DEBUG"), Color::Gray);
    assert_eq!(line_color("INFO"), Color::Cyan);
    assert_eq!(line_color("error"), Color::Cyan);
}
