use picoredsp::camilla::config_document::ConfigDocument;
use picoredsp::config_view::{ConfigView, PATH_CAPTURE_SAMPLERATE, PATH_SAMPLERATE};
use picoredsp::core_logic::adaptation::{
    adapt_document, bypass_config, config_path_of, conv_coefficient_files, mute_block,
    playback_device_of, state_sequence_of, with_coefficient_file, RuntimeBackend,
};
use picoredsp::core_logic::paths::normalize_path;
use picoredsp::core_logic::config::WaveFormat;
use picoredsp::json::JsonNumber;
use picoredsp::yaml::Yaml;
use serde_yaml_ng::Value;
use std::path::{Component, Path, PathBuf};

fn to_tree(v: &Value) -> Yaml {
    match v {
        Value::Null => Yaml::Null,
        Value::Bool(b) => Yaml::Bool(*b),
        Value::Number(n) => {
            if let Some(u) = n.as_u64() {
                Yaml::Number(JsonNumber::PosInt(u))
            } else if let Some(i) = n.as_i64() {
                Yaml::Number(JsonNumber::NegInt(i))
            } else {
                Yaml::Number(JsonNumber::Float(n.to_string()))
            }
        }
        Value::String(s) => Yaml::Str(s.clone()),
        Value::Sequence(s) => Yaml::Sequence(s.iter().map(to_tree).collect()),
        Value::Mapping(m) => Yaml::Mapping(m.iter().map(|(k, v)| (to_tree(k), to_tree(v))).collect()),
        Value::Tagged(t) => Yaml::Tagged(t.tag.to_string(), Box::new(to_tree(&t.value))),
    }
}

fn tree(yaml: &str) -> Yaml {
    let v: Value = serde_yaml_ng::from_str(yaml).expect("test yaml parses");
    to_tree(&v)
}

fn doc(yaml: &str) -> ConfigDocument {
    ConfigDocument::from_tree(tree(yaml)).expect("mapping")
}

fn num(n: u64) -> Yaml {
    Yaml::Number(JsonNumber::PosInt(n))
}

fn s(v: &str) -> Yaml {
    Yaml::Str(v.to_string())
}

fn get<'a>(y: &'a Yaml, path: &[&str]) -> Option<&'a Yaml> {
    let mut cur = y;
    for k in path {
        match cur {
            Yaml::Mapping(entries) => {
                cur = &entries.iter().find(|(key, _)| *key == s(k))?.1;
            }
            _ => return None,
        }
    }
    Some(cur)
}

const MINIMAL_YAML: &str = r#"
devices:
  samplerate: 44100
  capture:
    type: Alsa
    device: "hw:Loopback,0,0"
    channels: 2
    format: S32_LE
    stop_on_inactive: true
"#;

const RESAMPLER_YAML: &str = r#"
devices:
  samplerate: 96000
  capture_samplerate: 44100
  resampler:
    type: FastAsync
  capture:
    type: Alsa
    device: "hw:Loopback,0,0"
    channels: 2
    format: S32_LE
    stop_on_inactive: true
"#;

const SAMPLERATE_TOKEN_YAML: &str = r#"
devices:
  samplerate: 44100
  capture:
    type: Alsa
    device: "hw:Loopback,0,0"
    channels: 2
    format: S32_LE
    stop_on_inactive: true
filters:
  fir_filter:
    type: Conv
    parameters:
      filename: "fir_$samplerate$.wav"
"#;

#[test]
fn parse_minimal_config() {
    let d = doc(MINIMAL_YAML);
    assert_eq!(d.get("devices.samplerate"), Some(&num(44100)));
    assert_eq!(d.get("devices.capture.device"), Some(&s("hw:Loopback,0,0")));
    assert_eq!(d.get("devices.nothing"), None);
}

#[test]
fn non_mapping_yaml_is_rejected() {
    let err = ConfigDocument::from_tree(tree("- a\n- b")).unwrap_err();
    assert!(err.to_string().contains("mapping"));
}

#[test]
fn rate_field_path_no_resampler() {
    let d = doc(MINIMAL_YAML);
    assert_eq!(d.rate_field_path(), "devices.samplerate");
    assert!(!d.has_resampler());
}

#[test]
fn rate_field_path_with_resampler() {
    let d = doc(RESAMPLER_YAML);
    assert_eq!(d.rate_field_path(), "devices.capture_samplerate");
    assert!(d.has_resampler());
}

#[test]
fn null_resampler_counts_as_no_resampler() {
    let yaml = r#"
devices:
  samplerate: 44100
  resampler: ~
  capture:
    type: Alsa
    device: "hw:Loopback,0,0"
    channels: 2
    format: S32_LE
    stop_on_inactive: true
"#;
    let d = doc(yaml);
    assert!(!d.has_resampler());
    assert_eq!(d.rate_field_path(), "devices.samplerate");
}

#[test]
fn with_path_value_patches_rate() {
    let d = doc(MINIMAL_YAML);
    let patched = d.with_path_value("devices.samplerate", num(96000)).unwrap();
    assert_eq!(patched.get("devices.samplerate"), Some(&num(96000)));
    assert_eq!(patched.get("devices.capture.format"), Some(&s("S32_LE")));
    assert_eq!(d.get("devices.samplerate"), Some(&num(44100)));
}

#[test]
fn with_path_value_rejects_samplerate_token() {
    let d = doc(SAMPLERATE_TOKEN_YAML);
    let err = d.with_path_value("devices.samplerate", num(96000)).unwrap_err();
    assert!(err.to_string().contains("$samplerate$"));
}

#[test]
fn has_samplerate_token_detects_token_in_nested_value() {
    assert!(doc(SAMPLERATE_TOKEN_YAML).has_samplerate_token());
}

#[test]
fn clean_config_has_no_samplerate_token() {
    assert!(!doc(MINIMAL_YAML).has_samplerate_token());
}

#[test]
fn missing_intermediate_path_is_an_error() {
    let d = doc(MINIMAL_YAML);
    let err = d.with_path_value("devices.nonexistent.rate", num(48000)).unwrap_err();
    assert!(err.to_string().contains("nonexistent") || err.to_string().contains("not found"));
    assert_eq!(err.0, "path component `nonexistent` not found in config");
    let err = d.with_path_value("devices.samplerate.x", num(1)).unwrap_err();
    assert_eq!(err.0, "expected an object at `x`, found number");
}

const YAML_NO_RESAMPLER: &str = "\
devices:
  samplerate: 44100
  capture:
    type: Alsa
    device: \"hw:Loopback,0,0\"
    channels: 2
    format: S32_LE
    stop_on_inactive: true
";

const YAML_WITH_RESAMPLER: &str = "\
devices:
  samplerate: 96000
  capture_samplerate: 44100
  resampler:
    type: BalancedAsync
  capture:
    type: Alsa
    device: \"hw:Loopback,0,0\"
    channels: 2
    format: S32_LE
    stop_on_inactive: true
";

#[test]
fn no_resampler_reads_samplerate() {
    let d = doc(YAML_NO_RESAMPLER);
    let view = ConfigView::new(&d);
    assert_eq!(view.samplerate(), Some(44100));
    assert_eq!(view.capture_samplerate(), None);
    assert!(!view.has_resampler());
    assert_eq!(view.rate_field_path(), PATH_SAMPLERATE);
    assert_eq!(view.effective_source_rate(), Some(44100));
}

#[test]
fn resampler_reads_capture_samplerate() {
    let d = doc(YAML_WITH_RESAMPLER);
    let view = ConfigView::new(&d);
    assert_eq!(view.capture_samplerate(), Some(44100));
    assert!(view.has_resampler());
    assert_eq!(view.rate_field_path(), PATH_CAPTURE_SAMPLERATE);
    assert_eq!(view.effective_source_rate(), Some(44100));
}

#[test]
fn capture_device_fields_are_readable() {
    let d = doc(YAML_NO_RESAMPLER);
    let view = ConfigView::new(&d);
    assert_eq!(view.capture_type(), Some("Alsa"));
    assert_eq!(view.capture_device(), Some("hw:Loopback,0,0"));
    assert_eq!(view.capture_channels(), Some(2));
    assert_eq!(view.capture_format(), Some("S32_LE"));
    assert!(view.stop_on_inactive());
}

#[test]
fn stop_on_inactive_absent_returns_false() {
    const YAML: &str = "\
devices:
  samplerate: 48000
  capture:
    type: Alsa
    device: \"hw:Loopback,0,0\"
    channels: 2
    format: S32_LE
";
    let d = doc(YAML);
    let view = ConfigView::new(&d);
    assert!(!view.stop_on_inactive());
}

fn base_config(playback: &str, format: Option<&str>) -> String {
    let format_line = format.map(|fmt| format!("    format: {fmt}\n")).unwrap_or_default();
    format!(
        "devices:\n  samplerate: 44100\n  chunksize: 2048\n  \
         capture:\n    type: Alsa\n    channels: 2\n    \
         device: \"hw:Loopback,0,0\"\n{format_line}  \
         playback:\n    type: Alsa\n    channels: 2\n    \
         device: \"{playback}\"\nfilters: {{}}\nmixers: {{}}\n\
         pipeline: []\nprocessors: {{}}\n"
    )
}

fn portable_base_config(playback: &str) -> String {
    format!(
        "devices:\n  samplerate: 44100\n  chunksize: 2048\n  \
         capture:\n    labels:\n      - Input_L\n      - Input_R\n  \
         playback:\n    type: Alsa\n    channels: 2\n    \
         device: \"{playback}\"\nfilters:\n  Gain:\n    type: Gain\n    parameters:\n      gain: -3.0\nmixers: {{}}\n\
         pipeline:\n  - type: Filter\n    channel: 0\n    names:\n      - Gain\nprocessors: {{}}\n"
    )
}

fn wave(rate: u32, format: Option<&str>, channels: u32) -> WaveFormat {
    WaveFormat {
        sample_rate: Some(rate),
        sample_format: format.map(|f| f.to_string()),
        channels: Some(channels),
    }
}

#[test]
fn adapt_updates_rate_and_explicit_format_keeps_playback() {
    let root = tree(&base_config("hw:99,0", Some("S16_LE")));
    let adapted = adapt_document(root, &wave(48000, Some("S32_LE"), 2), RuntimeBackend::Aloop).unwrap();
    assert_eq!(get(&adapted, &["devices", "samplerate"]), Some(&num(48000)));
    assert_eq!(get(&adapted, &["devices", "capture", "format"]), Some(&s("S32_LE")));
    assert_eq!(get(&adapted, &["devices", "playback", "device"]), Some(&s("hw:99,0")));
    assert_eq!(get(&adapted, &["devices", "capture", "stop_on_inactive"]), Some(&Yaml::Bool(true)));
}

#[test]
fn automatic_capture_format_is_not_touched() {
    let root = tree(&base_config("null", None));
    let adapted = adapt_document(root, &wave(96000, Some("S32_LE"), 2), RuntimeBackend::Aloop).unwrap();
    assert!(get(&adapted, &["devices", "capture", "format"]).is_none());
    assert_eq!(get(&adapted, &["devices", "samplerate"]), Some(&num(96000)));
}

#[test]
fn synchronous_one_to_one_resampler_is_disabled_for_runtime_copy() {
    let yaml = "devices:\n  samplerate: 48000\n  capture_samplerate: 44100\n  \
                resampler:\n    type: Synchronous\n  \
                capture:\n    type: Alsa\n    channels: 2\n    device: \"hw:Loopback,0,0\"\n  \
                playback:\n    type: Alsa\n    channels: 2\n    device: \"hw:0\"\n";
    let adapted = adapt_document(tree(yaml), &wave(48000, None, 2), RuntimeBackend::Aloop).unwrap();
    assert_eq!(get(&adapted, &["devices", "resampler"]), Some(&Yaml::Null));
    assert_eq!(get(&adapted, &["devices", "capture_samplerate"]), Some(&num(48000)));
    assert_eq!(get(&adapted, &["devices", "samplerate"]), Some(&num(48000)));

    // An asynchronous resampler stays.
    let asynchronous = yaml.replace("Synchronous", "AsyncSinc");
    let adapted = adapt_document(tree(&asynchronous), &wave(48000, None, 2), RuntimeBackend::Aloop).unwrap();
    assert_ne!(get(&adapted, &["devices", "resampler"]), Some(&Yaml::Null));
}

#[test]
fn malformed_resampler_missing_type_is_rejected() {
    let yaml = "devices:\n  samplerate: 48000\n  resampler:\n    profile: Balanced\n  \
                capture:\n    type: Alsa\n    channels: 2\n";
    let err = adapt_document(tree(yaml), &wave(44100, None, 2), RuntimeBackend::Aloop).unwrap_err();
    assert_eq!(err.message, "devices.resampler.type must be a string");
}

#[test]
fn channel_count_change_is_rejected() {
    let root = tree(&base_config("null", Some("S16_LE")));
    let err = adapt_document(root, &wave(48000, Some("S32_LE"), 6), RuntimeBackend::Aloop).unwrap_err();
    assert_eq!(err.message, "changing capture channels is not implemented (config=2, stream=6)");
}

#[test]
fn same_portable_baseline_adapts_for_aloop_and_ioplug() {
    let aloop = adapt_document(
        tree(&portable_base_config("hw:DAC,0")),
        &wave(96000, Some("S24_3_LE"), 2),
        RuntimeBackend::Aloop,
    )
    .unwrap();
    let ioplug = adapt_document(
        tree(&portable_base_config("hw:DAC,0")),
        &wave(96000, Some("S24_3_LE"), 2),
        RuntimeBackend::Ioplug,
    )
    .unwrap();
    assert_eq!(get(&aloop, &["devices", "capture", "type"]), Some(&s("Alsa")));
    assert_eq!(get(&aloop, &["devices", "capture", "device"]), Some(&s("hw:Loopback,0,0")));
    assert!(get(&aloop, &["devices", "capture", "format"]).is_none());
    assert!(get(&aloop, &["devices", "capture", "labels"]).is_some());
    assert_eq!(get(&ioplug, &["devices", "capture", "type"]), Some(&s("Stdin")));
    assert_eq!(get(&ioplug, &["devices", "capture", "format"]), Some(&s("S24_3_LE")));
    assert_eq!(get(&ioplug, &["devices", "capture", "channels"]), Some(&num(2)));
    assert!(get(&ioplug, &["devices", "capture", "device"]).is_none());
    assert!(get(&ioplug, &["devices", "capture", "labels"]).is_some());
    assert_eq!(get(&aloop, &["filters"]), get(&ioplug, &["filters"]));
}

#[test]
fn ioplug_adaptation_strips_alsa_only_capture_fields_from_camillagui_config() {
    let yaml = "devices:\n  samplerate: 44100\n  capture:\n    type: Alsa\n    channels: 2\n    \
                device: \"hw:Loopback,0,0\"\n    format: S16_LE\n    stop_on_inactive: true\n    \
                link_mute_control: null\n    link_volume_control: null\n    labels: [L, R]\n";
    let adapted = adapt_document(tree(yaml), &wave(48000, None, 2), RuntimeBackend::Ioplug).unwrap();
    let capture = get(&adapted, &["devices", "capture"]).unwrap();
    assert_eq!(get(capture, &["type"]), Some(&s("Stdin")));
    assert_eq!(get(capture, &["format"]), Some(&s("S16_LE")));
    assert!(get(capture, &["labels"]).is_some());
    assert!(get(capture, &["device"]).is_none());
    assert!(get(capture, &["stop_on_inactive"]).is_none());
    assert!(get(capture, &["link_mute_control"]).is_none());
    assert!(get(capture, &["link_volume_control"]).is_none());
}

#[test]
fn ioplug_adaptation_requires_format_when_no_runtime_or_baseline_format_exists() {
    let err = adapt_document(tree(&portable_base_config("null")), &wave(48000, None, 2), RuntimeBackend::Ioplug)
        .unwrap_err();
    assert_eq!(err.message, "ioplug runtime capture format is missing and no fallback is configured");
}

#[test]
fn adaptation_reports_structural_errors() {
    assert_eq!(
        adapt_document(tree("- a"), &wave(48000, None, 2), RuntimeBackend::Aloop).unwrap_err().message,
        "config root must be a YAML mapping"
    );
    assert_eq!(
        adapt_document(tree("filters: {}"), &wave(48000, None, 2), RuntimeBackend::Aloop).unwrap_err().message,
        "config has no 'devices' section"
    );
    assert_eq!(
        adapt_document(tree("devices: 3"), &wave(48000, None, 2), RuntimeBackend::Aloop).unwrap_err().message,
        "devices must be a YAML mapping"
    );
    assert_eq!(
        adapt_document(tree("devices:\n  capture: 1"), &wave(48000, None, 2), RuntimeBackend::Aloop)
            .unwrap_err()
            .message,
        "devices.capture must be a YAML mapping"
    );
}

#[test]
fn relative_fir_filename_is_listed_and_replaced() {
    let yaml = "devices:\n  samplerate: 44100\nfilters:\n  gain:\n    type: Gain\n    parameters:\n      gain: 1\n  \
                fir:\n    type: Conv\n    parameters:\n      type: Wav\n      filename: coeffs/fir.wav\n  \
                values:\n    type: Conv\n    parameters:\n      type: Values\n      values: [1.0]\n";
    let root = tree(yaml);
    let files = conv_coefficient_files(&root);
    assert_eq!(files, vec![(1usize, "coeffs/fir.wav".to_string())]);
    let replaced = with_coefficient_file(root, 1, "/etc/cdsp/coeffs/fir.wav".to_string());
    assert_eq!(
        get(&replaced, &["filters", "fir", "parameters", "filename"]),
        Some(&s("/etc/cdsp/coeffs/fir.wav"))
    );
    assert_eq!(get(&replaced, &["filters", "gain", "parameters", "gain"]), Some(&num(1)));
}

#[test]
fn get_playback_device_reads_block_and_flow_yaml() {
    let block = tree("devices:\n  playback:\n    type: Alsa\n    device: \"hw:USB,0\"\n");
    assert_eq!(playback_device_of(&block).unwrap(), "hw:USB,0");
    let flow = tree("devices: {playback: {type: Alsa, device: \"hw:USB,0\"}}");
    assert_eq!(playback_device_of(&flow).unwrap(), "hw:USB,0");
    assert_eq!(
        playback_device_of(&tree("devices: {}")).unwrap_err().message,
        "config has no 'devices.playback.device' value"
    );
}

#[test]
fn get_config_path_reads_statefile_value() {
    let st = tree("config_path: \"/mnt/cdsp/configs/My DSP.yml\"\nmute: [false, false, false, false, false]\n");
    assert_eq!(config_path_of(&st).unwrap(), "/mnt/cdsp/configs/My DSP.yml");
    assert_eq!(
        config_path_of(&tree("config_path: null")).unwrap_err().message,
        "statefile has no 'config_path' value"
    );
}

#[test]
fn make_bypass_config_produces_tree_with_correct_device() {
    let b = bypass_config("hw:\"weird\" 'dev'\\x");
    assert_eq!(get(&b, &["devices", "playback", "device"]), Some(&s("hw:\"weird\" 'dev'\\x")));
    assert_eq!(get(&b, &["devices", "capture", "device"]), Some(&s("hw:Loopback,0,0")));
    assert_eq!(get(&b, &["devices", "samplerate"]), Some(&num(44100)));
    assert_eq!(get(&b, &["title"]), Some(&s("Bypass")));
    match get(&b, &["description"]) {
        Some(Yaml::Str(d)) => {
            assert!(d.starts_with("IMPORTANT: This description"));
            assert!(d.contains("selected before installation: hw:\"weird\" 'dev'\\x\n"));
        }
        _ => panic!("description missing"),
    }
    assert_eq!(playback_device_of(&b).unwrap(), "hw:\"weird\" 'dev'\\x");
}

#[test]
fn get_state_fragment_mute_block_is_validated() {
    let st = tree("config_path: /x.yml\nmute: [false, true, false, false, !flag true]\nvolume: [0.0, -3.5, 0, 0, 0]\n");
    assert_eq!(
        mute_block(&st).unwrap(),
        Yaml::Sequence(vec![
            Yaml::Bool(false),
            Yaml::Bool(true),
            Yaml::Bool(false),
            Yaml::Bool(false),
            Yaml::Bool(true),
        ])
    );
    assert_eq!(state_sequence_of(&st, "volume").unwrap().len(), 5);
}

#[test]
fn get_state_fragment_rejects_wrong_array_length_and_types() {
    let short = tree("mute: [false, false]\n");
    assert_eq!(
        mute_block(&short).unwrap_err().message,
        "statefile 'mute' must contain exactly 5 values"
    );
    let missing = tree("volume: [0, 0, 0, 0, 0]\n");
    assert_eq!(mute_block(&missing).unwrap_err().message, "statefile has no 'mute' sequence");
    let not_list = tree("mute: false\n");
    assert_eq!(mute_block(&not_list).unwrap_err().message, "statefile has no 'mute' sequence");
    let bad = tree("mute: [false, false, 1, \"x\", false]\n");
    assert_eq!(mute_block(&bad).unwrap_err().message, "statefile 'mute[3]' must be a boolean");
    assert_eq!(
        state_sequence_of(&tree("volume: [1, 2, 3, 4, 5, 6]\n"), "volume").unwrap_err().message,
        "statefile 'volume' must contain exactly 5 values"
    );
}

#[test]
fn normalize_path_resolves_dot_components_lexically() {
    assert_eq!(normalize_path("/mnt/cdsp/configs/../coeffs/./a.wav"), "/mnt/cdsp/coeffs/a.wav");
    assert_eq!(normalize_path("/a//b/"), "/a/b");
    assert_eq!(normalize_path("/../x"), "/x");
    assert_eq!(normalize_path("../x/y/.."), "x");
    assert_eq!(normalize_path("./a"), "a");
    assert_eq!(normalize_path("/"), "/");
    assert_eq!(normalize_path(""), "");
    assert_eq!(normalize_path("a/b/../../.."), "");
}

#[test]
fn normalize_path_matches_std_components_for_absolute_paths() {
    for p in ["/mnt/x/../y", "/a/./b/../../c", "/x/y/z", "/..", "/a/b/c/../../../.."] {
        let mut expect = PathBuf::new();
        for c in Path::new(p).components() {
            match c {
                Component::ParentDir => {
                    if matches!(expect.components().next_back(), Some(Component::Normal(_))) {
                        expect.pop();
                    }
                }
                Component::CurDir => {}
                c => expect.push(c),
            }
        }
        assert_eq!(normalize_path(p), expect.to_string_lossy(), "path {p}");
    }
}

#[test]
fn make_bypass_config_roundtrips_via_playback_device() {
    for device in ["hw:CARD=DAC,DEV=0", "plughw:1,0", "hw:\"q\" 'x'\\y", ""] {
        assert_eq!(playback_device_of(&bypass_config(device)).unwrap(), device);
    }
}

#[test]
fn with_path_value_changes_only_the_named_field() {
    let d = doc(MINIMAL_YAML);
    let patched = d.with_path_value("devices.capture.format", s("S16_LE")).unwrap();
    assert_eq!(patched.get("devices.capture.format"), Some(&s("S16_LE")));
    assert_eq!(patched.get("devices.samplerate"), d.get("devices.samplerate"));
    assert_eq!(patched.get("devices.capture.channels"), d.get("devices.capture.channels"));
    let added = d.with_path_value("devices.capture_samplerate", num(48000)).unwrap();
    assert_eq!(added.get("devices.capture_samplerate"), Some(&num(48000)));
    assert_eq!(added.get("devices.samplerate"), Some(&num(44100)));
}

#[test]
fn all_standard_rates_produce_correct_samplerate_in_adapted_config() {
    for rate in [44_100u32, 48_000, 88_200, 96_000, 176_400, 192_000] {
        for backend in [RuntimeBackend::Aloop, RuntimeBackend::Ioplug] {
            let adapted = adapt_document(
                tree(&portable_base_config("hw:X,0")),
                &wave(rate, Some("S32_LE"), 2),
                backend,
            )
            .unwrap();
            assert_eq!(get(&adapted, &["devices", "samplerate"]), Some(&num(u64::from(rate))));
        }
    }
    // `S24_4_LE` is CamillaDSP's ALSA-schema name; a `Stdin` capture takes
    // the generic-schema name `S24_4_RJ_LE`. Every other name passes through.
    for fmt in ["S16_LE", "S24_3_LE", "S24_4_LE", "S32_LE", "F32_LE"] {
        let ioplug = adapt_document(
            tree(&portable_base_config("hw:X,0")),
            &wave(48_000, Some(fmt), 2),
            RuntimeBackend::Ioplug,
        )
        .unwrap();
        let expected = if fmt == "S24_4_LE" { "S24_4_RJ_LE" } else { fmt };
        assert_eq!(
            get(&ioplug, &["devices", "capture", "format"]),
            Some(&s(expected)),
            "ioplug format mismatch for {fmt}"
        );
    }
}
