use picoredsp::core_logic::config::WaveFormat;
use picoredsp::core_logic::config::ConfigMode;
use picoredsp::core_logic::logging::LogLevel;

#[test]
fn parse_accepts_static() {
    assert_eq!(ConfigMode::parse("static"), Ok(ConfigMode::Static));
}

#[test]
fn parse_accepts_adaptive() {
    assert_eq!(ConfigMode::parse("adaptive"), Ok(ConfigMode::Adaptive));
}

#[test]
fn parse_rejects_unknown_value() {
    let err = ConfigMode::parse("bogus").unwrap_err();
    assert!(err.contains("static"));
    assert!(err.contains("adaptive"));
    assert!(err.contains("bogus"));
}

#[test]
fn default_is_adaptive_for_backward_compatibility() {
    // The installer always passes `--config-mode static` explicitly
    // (see `install_picoredsp.sh`); the in-binary default stays
    // `Adaptive` so any existing manual/CI invocation without the flag
    // keeps behaving exactly as it did before `ConfigMode` existed.
    assert_eq!(ConfigMode::default(), ConfigMode::Adaptive);
}

#[test]
fn display_round_trips_through_parse() {
    for mode in [ConfigMode::Static, ConfigMode::Adaptive] {
        assert_eq!(ConfigMode::parse(&mode.to_string()), Ok(mode));
    }
}

#[test]
fn log_level_names_parse_back() {

    for (name, level) in [
        ("DEBUG", LogLevel::Debug),
        ("INFO", LogLevel::Info),
        ("WARNING", LogLevel::Warning),
        ("ERROR", LogLevel::Error),
        ("CRITICAL", LogLevel::Critical),
    ] {
        assert_eq!(LogLevel::parse(name).unwrap(), level);
    }
    assert_eq!(LogLevel::parse("debug").unwrap_err().message, "invalid log level: debug");
}

#[test]
fn wave_format_display_writes_each_field_in_debug_form() {
    let wave = WaveFormat {
        sample_rate: Some(48_000),
        sample_format: Some("S32_LE".to_owned()),
        channels: None,
    };
    assert_eq!(wave.display(), "rate=Some(48000), format=Some(\"S32_LE\"), channels=None");
    let odd = WaveFormat { sample_rate: None, sample_format: Some("a\"b".to_owned()), channels: Some(2) };
    assert_eq!(odd.display(), "rate=None, format=Some(\"a\\\"b\"), channels=Some(2)");
    assert_eq!(odd.display(), format!("rate={:?}, format={:?}, channels={:?}", odd.sample_rate, odd.sample_format, odd.channels));
}
