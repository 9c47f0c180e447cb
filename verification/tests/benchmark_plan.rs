use picoredsp::args::Backend;
use picoredsp::benchmark::collectors::{
    controller_pid_among, detect_dac_from_cards, find_alsa_card_number, is_controller_daemon,
};
use picoredsp::benchmark::report::{
    backend_name, classify_health, compare_boolean, ensure_nonempty, health_recommendation,
    latency_leader_message, validate_plan, BackendHealth, BenchmarkEnvironment, StabilityMetrics,
    BENCHMARK_PLAN_VERSION,
};
use picoredsp::camilladsp::alsa_capture::alsa_format_to_camilladsp;
use picoredsp::camilladsp::stdin_capture::{StderrTail, STDERR_TAIL_LINES};

#[test]
fn collectors_find_alsa_card_number_parses_numeric_card_index() {
    assert_eq!(find_alsa_card_number("hw:1,0", None), Some(1));
    assert_eq!(find_alsa_card_number("hw:0,0", None), Some(0));
}

#[test]
fn benchmark_find_alsa_card_number_parses_numeric_card_index() {
    assert_eq!(find_alsa_card_number("hw:1,0", None), Some(1));
    assert_eq!(find_alsa_card_number("hw:0,0", None), Some(0));
}

#[test]
fn find_alsa_card_number_looks_named_cards_up() {
    let cards = " 0 [Loopback       ]: Loopback - Loopback\n \
                 1 [DAC            ]: USB-Audio - My DAC\n";
    assert_eq!(find_alsa_card_number("hw:DAC,0", Some(cards)), Some(1));
    assert_eq!(find_alsa_card_number("hw:Loopback,0", Some(cards)), Some(0));
    assert_eq!(find_alsa_card_number("hw:Missing,0", Some(cards)), None);
    assert_eq!(find_alsa_card_number("hw:DAC,0", None), None);
}

#[test]
fn collectors_detect_dac_from_cards_skips_loopback_returns_first_other() {
    let cards = " 0 [Loopback       ]: Loopback - Loopback\n \
                 1 [DAC            ]: USB-Audio - My DAC\n";
    let dac = detect_dac_from_cards(cards, "hw:Loopback,0");
    assert!(dac.contains("USB-Audio") || dac.contains("My DAC"), "got: {dac}");
}

#[test]
fn collectors_detect_dac_from_cards_returns_unknown_when_only_loopback_present() {
    let cards = " 0 [Loopback       ]: Loopback - Loopback\n";
    let dac = detect_dac_from_cards(cards, "hw:Loopback,0");
    assert_eq!(dac, "unknown");
}

#[test]
fn benchmark_detect_dac_from_cards_skips_loopback_returns_first_other() {
    let cards = " 0 [Loopback       ]: Loopback - Loopback\n \
                 1 [DAC            ]: USB-Audio - My DAC\n";
    let dac = detect_dac_from_cards(cards, "hw:Loopback,0");
    assert!(dac.contains("USB-Audio") || dac.contains("My DAC"), "got: {dac}");
}

#[test]
fn benchmark_detect_dac_from_cards_returns_unknown_when_only_loopback_present() {
    let cards = " 0 [Loopback       ]: Loopback - Loopback\n";
    let dac = detect_dac_from_cards(cards, "hw:Loopback,0");
    assert_eq!(dac, "unknown");
}

#[test]
fn format_mapping_produces_camilladsp_alsa_config_names() {
    assert_eq!(alsa_format_to_camilladsp(2).unwrap(), Some("S16_LE"));
    assert_eq!(alsa_format_to_camilladsp(6).unwrap(), Some("S24_4_LE"));
    assert_eq!(alsa_format_to_camilladsp(10).unwrap(), Some("S32_LE"));
    assert_eq!(alsa_format_to_camilladsp(14).unwrap(), Some("F32_LE"));
    assert_eq!(alsa_format_to_camilladsp(16).unwrap(), Some("F64_LE"));
    assert_eq!(alsa_format_to_camilladsp(32).unwrap(), Some("S24_3_LE"));
    assert_eq!(alsa_format_to_camilladsp(0).unwrap(), None);
    assert_eq!(alsa_format_to_camilladsp(31).unwrap(), None);
    assert!(alsa_format_to_camilladsp(99).is_err());
    assert!(alsa_format_to_camilladsp(-1).is_err());
}

#[test]
fn unknown_format_error_names_the_value() {
    let err = alsa_format_to_camilladsp(-7).unwrap_err();
    assert_eq!(err.to_string(), "unknown ALSA sample-format enum value -7");
}

fn template_environment() -> BenchmarkEnvironment {
    BenchmarkEnvironment {
        raspberry_pi: "Raspberry Pi model".to_owned(),
        picoreplayer_version: "piCorePlayer version".to_owned(),
        camilladsp_version: "CamillaDSP version".to_owned(),
        dac: "DAC model".to_owned(),
        dsp_config: "Config path or fingerprint".to_owned(),
        track: "Reference track / source".to_owned(),
        chunksize: 1024,
        queuelimit: 4,
        sample_rates_hz: vec![44100, 48000, 96000, 192000],
    }
}

fn template_runs() -> Vec<Backend> {
    vec![Backend::Aloop, Backend::Ioplug]
}

#[test]
fn report_generated_template_is_valid_and_contains_both_backends() {
    let env = template_environment();
    let runs = template_runs();
    validate_plan(BENCHMARK_PLAN_VERSION, &env, &runs).expect("template should validate");
    assert_eq!(BENCHMARK_PLAN_VERSION, 1);
    assert_eq!(env.sample_rates_hz, vec![44100, 48000, 96000, 192000]);
    assert_eq!(runs.len(), 2);
    assert_eq!(runs[0], Backend::Aloop);
    assert_eq!(runs[1], Backend::Ioplug);
}

#[test]
fn benchmark_generated_template_is_valid_and_contains_both_backends() {
    let env = template_environment();
    let runs = template_runs();
    validate_plan(BENCHMARK_PLAN_VERSION, &env, &runs).expect("template should validate");
    assert_eq!(runs.len(), 2);
}

#[test]
fn report_validation_rejects_missing_required_sample_rate() {
    let mut env = template_environment();
    env.sample_rates_hz = vec![44100, 48000, 96000];
    let err = validate_plan(BENCHMARK_PLAN_VERSION, &env, &template_runs()).expect_err("missing rate must fail");
    assert!(err.to_string().contains("environment.sample_rates_hz must contain exactly"));
}

#[test]
fn benchmark_validation_rejects_missing_required_sample_rate() {
    let mut env = template_environment();
    env.sample_rates_hz = vec![44100, 48000, 96000];
    let err = validate_plan(BENCHMARK_PLAN_VERSION, &env, &template_runs()).expect_err("missing rate must fail");
    assert!(err.to_string().contains("environment.sample_rates_hz must contain exactly"));
}

#[test]
fn report_validation_rejects_duplicate_backend_runs() {
    let runs = vec![Backend::Aloop, Backend::Aloop];
    let err = validate_plan(BENCHMARK_PLAN_VERSION, &template_environment(), &runs).expect_err("duplicate");
    assert!(err
        .to_string()
        .contains("benchmark plan must contain exactly one aloop run and one ioplug run"));
}

#[test]
fn benchmark_validation_rejects_duplicate_backend_runs() {
    let runs = vec![Backend::Aloop, Backend::Aloop];
    let err = validate_plan(BENCHMARK_PLAN_VERSION, &template_environment(), &runs).expect_err("duplicate");
    assert!(err
        .to_string()
        .contains("benchmark plan must contain exactly one aloop run and one ioplug run"));
}

#[test]
fn report_validation_rejects_blank_environment_fields() {
    let mut env = template_environment();
    env.track = "   ".to_owned();
    let err = validate_plan(BENCHMARK_PLAN_VERSION, &env, &template_runs()).expect_err("blank");
    assert!(err.to_string().contains("environment.track must not be empty"));
}

#[test]
fn benchmark_validation_rejects_blank_environment_fields() {
    let mut env = template_environment();
    env.track = "   ".to_owned();
    let err = validate_plan(BENCHMARK_PLAN_VERSION, &env, &template_runs()).expect_err("blank");
    assert!(err.to_string().contains("environment.track must not be empty"));
}

#[test]
fn validation_checks_version_counts_and_zero_sizes() {
    let err = validate_plan(2, &template_environment(), &template_runs()).unwrap_err();
    assert_eq!(err.to_string(), "benchmark plan version must be 1, got 2");
    let mut env = template_environment();
    env.chunksize = 0;
    let err = validate_plan(1, &env, &template_runs()).unwrap_err();
    assert_eq!(err.to_string(), "environment.chunksize must be greater than zero");
    let mut env = template_environment();
    env.queuelimit = 0;
    let err = validate_plan(1, &env, &template_runs()).unwrap_err();
    assert_eq!(err.to_string(), "environment.queuelimit must be greater than zero");
    let err = validate_plan(1, &template_environment(), &vec![Backend::Ioplug]).unwrap_err();
    assert_eq!(
        err.to_string(),
        "benchmark plan must contain exactly two runs: one aloop and one ioplug"
    );
    let mut env = template_environment();
    env.sample_rates_hz = vec![192000, 96000, 48000, 44100];
    assert!(validate_plan(1, &env, &vec![Backend::Ioplug, Backend::Aloop]).is_ok());
    let mut env = template_environment();
    env.dac = String::new();
    env.track = String::new();
    let err = validate_plan(1, &env, &template_runs()).unwrap_err();
    assert_eq!(err.to_string(), "environment.dac must not be empty");
}

#[test]
fn report_helpers_name_backends_and_preferences() {
    assert_eq!(backend_name(Backend::Aloop), "aloop");
    assert_eq!(backend_name(Backend::Ioplug), "ioplug");
    assert!(ensure_nonempty("environment.dac", " x ").is_ok());
    assert_eq!(
        ensure_nonempty("environment.dac", " \t").unwrap_err().to_string(),
        "environment.dac must not be empty"
    );
    assert_eq!(compare_boolean(true, true), "tie");
    assert_eq!(compare_boolean(false, false), "tie");
    assert_eq!(compare_boolean(true, false), "aloop");
    assert_eq!(compare_boolean(false, true), "ioplug");
}

#[test]
fn stderr_tail_is_bounded_to_the_most_recent_lines() {
    let mut tail = StderrTail::new();
    assert_eq!(tail.text(), "");
    for i in 1..=200 {
        tail.push(i.to_string());
    }
    let text = tail.text();
    assert!(text.ends_with("200"));
    assert!(!text.starts_with("1\n"));
    assert_eq!(text.lines().count(), STDERR_TAIL_LINES);
    assert!(text.starts_with("161\n"));
}

#[test]
fn stderr_tail_keeps_everything_below_the_cap() {
    let mut tail = StderrTail::new();
    tail.push("first".to_owned());
    tail.push("second".to_owned());
    assert_eq!(tail.text(), "first\nsecond");
}

fn stability(x: Option<u64>, a: Option<bool>, b: Option<bool>, c: Option<bool>) -> StabilityMetrics {
    StabilityMetrics {
        xrun_count: x,
        stability_24h_passed: a,
        stability_7d_passed: b,
        recovery_after_dac_error_passed: c,
    }
}

#[test]
fn health_is_classified_from_stability_checks() {
    let t = Some(true);
    assert_eq!(classify_health(&stability(Some(0), t, t, t)), BackendHealth::ReadyForLatencyExperiments);
    assert_eq!(classify_health(&stability(Some(3), t, t, t)), BackendHealth::NeedsStabilityWork);
    assert_eq!(classify_health(&stability(None, t, Some(false), None)), BackendHealth::NeedsStabilityWork);
    assert_eq!(classify_health(&stability(None, t, t, t)), BackendHealth::Incomplete);
    assert_eq!(classify_health(&stability(Some(0), t, None, t)), BackendHealth::Incomplete);
}

#[test]
fn recommendations_name_the_backend() {
    assert_eq!(
        health_recommendation(Backend::Ioplug, BackendHealth::ReadyForLatencyExperiments),
        "ioplug is stable in the recorded checks. It is a good candidate for stepwise latency experiments: lower chunksize/queuelimit first, then re-measure ALSA period/buffer settings and DAC buffering."
    );
    assert!(health_recommendation(Backend::Ioplug, BackendHealth::NeedsStabilityWork)
        .ends_with("CamillaDSP chunksize/queuelimit, and ioplug ringbuffer depth/pipe size."));
    assert!(health_recommendation(Backend::Aloop, BackendHealth::NeedsStabilityWork)
        .ends_with("CamillaDSP chunksize/queuelimit."));
    assert!(health_recommendation(Backend::Aloop, BackendHealth::Incomplete)
        .starts_with("aloop is missing stability or XRUN data"));
    assert!(latency_leader_message(4, 2)
        .starts_with("aloop currently leads the software-visible latency comparison by 4 to 2."));
    assert!(latency_leader_message(1, 5)
        .starts_with("ioplug currently leads the software-visible latency comparison by 5 to 1."));
    assert!(latency_leader_message(3, 3).starts_with("Neither backend is a clear latency winner"));
}

#[test]
fn controller_daemon_is_recognised_by_its_cmdline() {
    assert!(is_controller_daemon(b"/usr/local/bin/picoredsp-controller\0--run\0--adapt\0/x.yml\0"));
    assert!(!is_controller_daemon(b"/usr/local/bin/picoredsp-controller\0--run-benchmark\0"));
    assert!(!is_controller_daemon(b"picoredsp-controller\0--make-benchmark-plan\0"));
    assert!(!is_controller_daemon(b"/usr/bin/camilladsp\0-p1234\0"));
    assert!(!is_controller_daemon(b""));
    assert!(!is_controller_daemon(b"\xffpicoredsp-controller\0"));
    // An argument that is not UTF-8 is not looked at.
    assert!(is_controller_daemon(b"picoredsp-controller\0--run-benchmark\xff\0"));
    // An encoded surrogate is not UTF-8 either; an accented argument is.
    assert!(is_controller_daemon(b"picoredsp-controller\0--run-benchmark\xed\xa0\x80\0"));
    assert!(!is_controller_daemon(b"picoredsp-controller\0--run-benchmark-\xc3\xa9\0"));
}

#[test]
fn controller_pid_is_the_first_daemon_other_than_ourselves() {
    let d = b"/bin/picoredsp-controller\0--run\0".to_vec();
    let entries = vec![
        ("self".to_owned(), d.clone()),
        ("12".to_owned(), b"/bin/sh\0".to_vec()),
        ("40".to_owned(), d.clone()),
        ("41".to_owned(), d.clone()),
    ];
    assert_eq!(controller_pid_among(&entries, 999), Some(40));
    assert_eq!(controller_pid_among(&entries, 40), Some(41));
    assert_eq!(controller_pid_among(&entries[..2].to_vec(), 999), None);
}
