use picoredsp::camilla::control::{DspState, StopReason, Version};
use picoredsp::camilla::protocol::{
    command_message, config_file_path_outcome, config_outcome, config_outcome_v5, optional_config_text,
    parse_envelope, parse_state, parse_state_v5, parse_stop_reason, parse_stop_reason_v5, parse_version,
    set_config_message, set_config_value_message, state_event, stop_reason_outcome, CamillaDspV4,
    CamillaDspV5,
};
use picoredsp::camilla::{
    managed_mode_for, validate_transport_contract, CaptureTransportConfig, ConfigReadError, ManagedMode,
    TransportContractViolation,
};
use picoredsp::error::PicorecdspError;
use picoredsp::json::{json_to_string, Json, JsonNumber};

fn s(v: &str) -> Json {
    Json::Str(v.to_string())
}

#[test]
fn dsp_state_transitional_and_active_flags() {
    assert!(DspState::Starting.is_transitional());
    assert!(!DspState::Running.is_transitional());

    assert!(DspState::Running.is_active());
    assert!(DspState::Paused.is_active());
    assert!(!DspState::Inactive.is_active());
    assert!(!DspState::Stalled.is_active());
    assert!(!DspState::Failed.is_active());

    assert!(DspState::Inactive.is_settled_inactive());
    assert!(!DspState::Running.is_settled_inactive());
    assert_eq!(DspState::default(), DspState::Inactive);
}

#[test]
fn version_parsing() {
    let v: Version = "4.2.1".parse().unwrap();
    assert_eq!(v, Version::new(4, 2, 1));
    assert!(v.supports_subscribe_state());

    let v: Version = "4.1.0".parse().unwrap();
    assert!(!v.supports_subscribe_state());

    let v: Version = "5.0.0".parse().unwrap();
    assert!(v.supports_subscribe_state());
}

#[test]
fn version_parsing_short_form() {
    let v: Version = "4.2".parse().unwrap();
    assert_eq!(v.patch, 0);
    assert_eq!(v.major, 4);
}

#[test]
fn version_parsing_invalid() {
    assert!("4".parse::<Version>().is_err());
    assert!("abc.def".parse::<Version>().is_err());
}

#[test]
fn version_ordering() {
    assert!(Version::new(5, 0, 0) > Version::new(4, 2, 1));
    assert!(Version::new(4, 2, 1) > Version::new(4, 1, 9));
    assert!(Version::new(4, 2, 0) == Version::new(4, 2, 0));
}

#[test]
fn version_display() {
    assert_eq!(Version::new(4, 2, 1).to_string(), "4.2.1");
}

#[test]
fn version_parse_messages_and_trimming() {
    assert_eq!(Version::parse(" 4.2.1\n"), Ok(Version::new(4, 2, 1)));
    assert_eq!(Version::parse("4"), Err("cannot parse version string `4`".to_string()));
    assert_eq!(
        Version::parse("4.x.1"),
        Err("invalid version component `x` in `4.x.1`".to_string())
    );
    assert_eq!(Version::parse("4.2.1.9"), Ok(Version::new(4, 2, 1)));
}

#[test]
fn parse_state_all_variants() {
    for (text, expected) in &[
        ("Starting", DspState::Starting),
        ("Running", DspState::Running),
        ("Paused", DspState::Paused),
        ("Inactive", DspState::Inactive),
        ("Idle", DspState::Inactive),
        ("Stopped", DspState::Inactive),
        ("Stalled", DspState::Stalled),
        ("Failed", DspState::Failed),
        ("Error", DspState::Failed),
    ] {
        assert_eq!(parse_state(&s(text)).unwrap(), *expected, "state string `{text}`");
    }
}

#[test]
fn parse_state_unknown_is_error() {
    assert!(parse_state(&s("XYZ")).is_err());
    assert_eq!(
        parse_state(&s("XYZ")),
        Err(PicorecdspError::ProtocolError("unknown GetState value: Some(\"XYZ\")".to_string()))
    );
    assert_eq!(
        parse_state(&Json::Null),
        Err(PicorecdspError::ProtocolError("unknown GetState value: None".to_string()))
    );
}

#[test]
fn parse_stop_reason_variants() {
    assert_eq!(parse_stop_reason(&Json::Null), StopReason::NoReason);
    assert_eq!(parse_stop_reason(&s("CaptureError")), StopReason::CaptureError);
    assert_eq!(parse_stop_reason(&s("PlaybackError")), StopReason::PlaybackError);
    assert_eq!(parse_stop_reason(&s("Done")), StopReason::Done);
    assert!(matches!(parse_stop_reason(&s("SomeNewReason")), StopReason::Other(_)));
}

#[test]
fn parse_optional_config_null_gives_none() {
    assert!(optional_config_text(&Json::Null).unwrap().is_none());
}

#[test]
fn parse_optional_config_empty_string_gives_none() {
    assert!(optional_config_text(&s("")).unwrap().is_none());
    assert!(optional_config_text(&s("  \n")).unwrap().is_none());
    assert_eq!(optional_config_text(&s("devices: {}")).unwrap(), Some("devices: {}".to_string()));
    assert!(matches!(
        optional_config_text(&Json::Bool(true)),
        Err(PicorecdspError::ProtocolError(_))
    ));
}

#[test]
fn parse_state_v5_inactive_variants() {
    for text in &["Inactive", "Idle", "Stopped"] {
        assert_eq!(parse_state_v5(&s(text)).unwrap(), DspState::Inactive, "state string `{text}`");
    }
}

#[test]
fn parse_state_v5_active_variants() {
    assert_eq!(parse_state_v5(&s("Running")).unwrap(), DspState::Running);
    assert_eq!(parse_state_v5(&s("Paused")).unwrap(), DspState::Paused);
}

#[test]
fn parse_stop_reason_v5_none() {
    assert_eq!(parse_stop_reason_v5(&Json::Null), StopReason::NoReason);
    assert_eq!(parse_stop_reason_v5(&s("None")), StopReason::NoReason);
}

#[test]
fn parse_version_reads_string_results() {
    assert_eq!(parse_version(&s("4.1.3")), Ok(Version::new(4, 1, 3)));
    assert_eq!(
        parse_version(&Json::Null),
        Err(PicorecdspError::ProtocolError("GetVersion result is not a string".to_string()))
    );
    assert_eq!(CamillaDspV4::new("ws://127.0.0.1:1234".to_string()).url, "ws://127.0.0.1:1234");
    assert_eq!(CamillaDspV5::new("ws://h:1".to_string()).url, "ws://h:1");
}

fn compliant() -> CaptureTransportConfig {
    CaptureTransportConfig {
        capture_type: "Alsa".to_string(),
        device: "hw:Loopback,0,0".to_string(),
        channels: 2,
        format: "S32_LE".to_string(),
        stop_on_inactive: true,
    }
}

#[test]
fn compliant_config_reads_and_validates() {
    let cfg = compliant();
    assert_eq!(cfg.capture_type, "Alsa");
    assert_eq!(cfg.device, "hw:Loopback,0,0");
    assert_eq!(cfg.channels, 2);
    assert_eq!(cfg.format, "S32_LE");
    assert!(cfg.stop_on_inactive);
    assert_eq!(validate_transport_contract(&cfg), Ok(()));
    assert_eq!(managed_mode_for(&cfg), ManagedMode::Active);
}

#[test]
fn wrong_device_suspends_managed_mode_with_clear_reason() {
    let mut cfg = compliant();
    cfg.device = "hw:Loopback,1,0".to_string();
    let violations = validate_transport_contract(&cfg).unwrap_err();
    assert_eq!(
        violations,
        vec![TransportContractViolation::UnexpectedCaptureDevice {
            expected: "hw:Loopback,0,0",
            actual: "hw:Loopback,1,0".into(),
        }]
    );
    match managed_mode_for(&cfg) {
        ManagedMode::Suspended { reason } => {
            assert!(reason.contains("devices.capture.device"));
            assert_eq!(reason, "devices.capture.device must be `hw:Loopback,0,0`, found `hw:Loopback,1,0`");
        }
        ManagedMode::Active => panic!("expected managed mode to suspend"),
    }
}

#[test]
fn stop_on_inactive_false_is_a_violation() {
    let mut cfg = compliant();
    cfg.stop_on_inactive = false;
    assert_eq!(
        validate_transport_contract(&cfg).unwrap_err(),
        vec![TransportContractViolation::StopOnInactiveDisabled]
    );
}

#[test]
fn missing_stop_on_inactive_defaults_to_false_and_is_a_violation() {
    let cfg = CaptureTransportConfig { stop_on_inactive: false, ..compliant() };
    assert_eq!(
        validate_transport_contract(&cfg).unwrap_err(),
        vec![TransportContractViolation::StopOnInactiveDisabled]
    );
}

#[test]
fn every_violation_is_reported_together() {
    let cfg = CaptureTransportConfig {
        capture_type: "File".to_string(),
        device: "hw:Loopback,2,0".to_string(),
        channels: 1,
        format: "S16_LE".to_string(),
        stop_on_inactive: false,
    };
    let violations = validate_transport_contract(&cfg).unwrap_err();
    assert_eq!(violations.len(), 5);
    match managed_mode_for(&cfg) {
        ManagedMode::Suspended { reason } => assert_eq!(
            reason,
            "devices.capture.type must be `Alsa`, found `File`; \
             devices.capture.device must be `hw:Loopback,0,0`, found `hw:Loopback,2,0`; \
             devices.capture.channels must be 2, found 1; \
             devices.capture.format must be `S32_LE`, found `S16_LE`; \
             devices.capture.stop_on_inactive must be true"
        ),
        ManagedMode::Active => panic!("expected suspension"),
    }
}

#[test]
fn config_read_error_names_the_capture_paths() {
    let err = ConfigReadError("missing field `device`".to_string());
    assert!(err.to_string().contains("devices.capture"));
}

#[test]
fn version_text_parses_back() {
    for v in [Version::new(0, 0, 0), Version::new(4, 1, 3), Version::new(10, 20, 300), Version::new(u32::MAX, 7, u32::MAX)] {
        assert_eq!(Version::parse(&v.to_string()), Ok(v));
    }
}

fn obj(members: Vec<(&str, Json)>) -> Json {
    Json::Object(members.into_iter().map(|(k, v)| (k.to_owned(), v)).collect())
}

#[test]
fn command_envelopes_are_opened() {
    assert_eq!(parse_envelope(obj(vec![("Ok", s("Running"))])).unwrap(), s("Running"));
    assert!(matches!(
        parse_envelope(obj(vec![("Error", s("no config"))])),
        Err(PicorecdspError::ProtocolError(m)) if m == "no config"
    ));
    assert!(matches!(
        parse_envelope(obj(vec![("Other", Json::Null)])),
        Err(PicorecdspError::ProtocolError(m)) if m == "unknown error"
    ));
    assert!(matches!(
        parse_envelope(obj(vec![("Error", Json::Bool(true))])),
        Err(PicorecdspError::ProtocolError(m)) if m == "unknown error"
    ));
}

#[test]
fn command_messages_have_the_wire_shape() {
    assert_eq!(json_to_string(&command_message("GetState")), "{\"GetState\":null}");
    assert_eq!(
        json_to_string(&set_config_message("devices: {}".to_owned())),
        "{\"SetConfig\":\"devices: {}\"}"
    );
    assert_eq!(
        json_to_string(&set_config_value_message("devices.samplerate", Json::Number(JsonNumber::PosInt(48000)))),
        "{\"SetConfigValue\":{\"param\":\"devices.samplerate\",\"value\":48000}}"
    );
}

#[test]
fn missing_commands_mean_nothing_recorded() {
    let proto = || Err(PicorecdspError::ProtocolError("unsupported".to_owned()));
    let offline = || Err(PicorecdspError::WebSocketOffline("down".to_owned()));
    assert_eq!(stop_reason_outcome(proto()).unwrap(), None);
    assert_eq!(stop_reason_outcome(Ok(s("Done"))).unwrap(), Some(StopReason::Done));
    assert!(matches!(stop_reason_outcome(offline()), Err(PicorecdspError::WebSocketOffline(_))));
    assert_eq!(config_outcome(proto()).unwrap(), None);
    assert_eq!(config_outcome(Ok(s("  "))).unwrap(), None);
    assert_eq!(config_outcome(Ok(s("devices: {}"))).unwrap(), Some("devices: {}".to_owned()));
    assert!(matches!(
        config_outcome_v5(Ok(Json::Bool(true))),
        Err(PicorecdspError::ProtocolError(m)) if m == "expected string YAML or null (v5), got true"
    ));
    assert_eq!(config_file_path_outcome(Ok(s("/x.yml")), false).unwrap(), Some("/x.yml".to_owned()));
    assert_eq!(config_file_path_outcome(Ok(Json::Null), true).unwrap(), None);
    assert_eq!(config_file_path_outcome(proto(), false).unwrap(), None);
    assert!(matches!(
        config_file_path_outcome(Ok(Json::Number(JsonNumber::PosInt(3))), false),
        Err(PicorecdspError::ProtocolError(m)) if m == "GetConfigFilePath: unexpected value 3"
    ));
}

#[test]
fn state_pushes_name_their_state() {
    assert_eq!(state_event(&obj(vec![("State", s("Running"))]), false), Some(DspState::Running));
    assert_eq!(state_event(&obj(vec![("State", s("Idle"))]), true), Some(DspState::Inactive));
    assert_eq!(state_event(&obj(vec![("State", s("Bogus"))]), false), None);
    assert_eq!(state_event(&obj(vec![("Other", s("Running"))]), false), None);
}
