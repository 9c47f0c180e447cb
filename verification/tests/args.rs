use picoredsp::args::{parse_args_from, parse_command_line, Args, Backend, Mode, Parsed};
use picoredsp::core_logic::logging::LogLevel;
use picoredsp::error::AppResult;

fn parse(argv: &[&str]) -> AppResult<Option<Args>> {
    parse_args_from(argv.iter().map(|arg| (*arg).to_owned()).collect())
}

fn words(argv: &[&str]) -> Vec<String> {
    argv.iter().map(|arg| (*arg).to_owned()).collect()
}

#[test]
fn parse_make_benchmark_plan_mode() {
    let args = parse(&["--make-benchmark-plan", "--output", "plan.yml"])
        .expect("parse ok")
        .expect("args");
    assert_eq!(args.mode, Mode::MakeBenchmarkPlan);
    assert_eq!(args.output, Some("plan.yml".to_string()));
}

#[test]
fn parse_validate_benchmark_plan_mode() {
    let args = parse(&["--validate-benchmark-plan", "plan.yml"])
        .expect("parse ok")
        .expect("args");
    assert_eq!(args.mode, Mode::ValidateBenchmarkPlan);
    assert_eq!(args.benchmark_path, Some("plan.yml".to_string()));
}

#[test]
fn parse_make_benchmark_report_mode() {
    let args = parse(&["--make-benchmark-report", "plan.yml", "--output", "report.md"])
        .expect("parse ok")
        .expect("args");
    assert_eq!(args.mode, Mode::MakeBenchmarkReport);
    assert_eq!(args.benchmark_path, Some("plan.yml".to_string()));
    assert_eq!(args.output, Some("report.md".to_string()));
}

#[test]
fn reject_output_with_validate_benchmark_plan() {
    let err = parse(&["--validate-benchmark-plan", "plan.yml", "--output", "ignored.yml"])
        .expect_err("output must be rejected");
    assert!(
        err.to_string().contains(
            "--output is only valid with --make-bypass, --make-statefile, --make-benchmark-plan, --make-benchmark-report or --run-benchmark"
        ),
        "unexpected error: {}",
        err.to_string()
    );
}

#[test]
fn parse_run_benchmark_mode() {
    let args = parse(&["--run-benchmark"]).expect("parse ok").expect("args");
    assert_eq!(args.mode, Mode::RunBenchmark);
    assert_eq!(args.output, None);
}

#[test]
fn parse_run_benchmark_mode_with_output() {
    let args = parse(&["--run-benchmark", "--output", "plan.yml"])
        .expect("parse ok")
        .expect("args");
    assert_eq!(args.mode, Mode::RunBenchmark);
    assert_eq!(args.output, Some("plan.yml".to_string()));
}

#[test]
fn parse_run_benchmark_mode_with_host_port_device() {
    let args = parse(&[
        "--run-benchmark",
        "--host",
        "192.168.1.1",
        "--port",
        "5678",
        "--device",
        "hw:Loopback,0",
    ])
    .expect("parse ok")
    .expect("args");
    assert_eq!(args.mode, Mode::RunBenchmark);
    assert_eq!(args.host, "192.168.1.1");
    assert_eq!(args.port, 5678);
    assert_eq!(args.device, "hw:Loopback,0");
}

#[test]
fn run_benchmark_rejects_conflicting_mode_flag() {
    let err = parse(&["--run-benchmark", "--probe"]).expect_err("conflicting modes must fail");
    assert!(
        err.to_string().contains("conflicting mode flags"),
        "unexpected error: {}",
        err.to_string()
    );
}

#[test]
fn conflicting_mode_message_names_both_flags() {
    let err = parse(&["--run-benchmark", "--probe"]).unwrap_err();
    assert_eq!(err.to_string(), "conflicting mode flags: --run-benchmark and --probe");
}

#[test]
fn run_mode_requires_adapt() {
    let err = parse(&[]).unwrap_err();
    assert_eq!(err.to_string(), "this mode requires --adapt PATH");
}

#[test]
fn run_mode_defaults_and_short_options() {
    let args = parse(&["-a", "/etc/active.yml", "-r", "+44100", "-f", "S16_LE", "-c", "2", "-l", "DEBUG"])
        .unwrap()
        .unwrap();
    assert_eq!(args.mode, Mode::Run);
    assert_eq!(args.adapt, Some("/etc/active.yml".to_string()));
    assert_eq!(args.initial_rate, Some(44100));
    assert_eq!(args.initial_format, Some("S16_LE".to_string()));
    assert_eq!(args.initial_channels, Some(2));
    assert_eq!(args.log_level, LogLevel::Debug);
    assert_eq!(args.host, "127.0.0.1");
    assert_eq!(args.port, 1234);
    assert_eq!(args.device, "hw:Loopback,0");
    assert_eq!(args.backend, Backend::Aloop);
}

#[test]
fn help_and_version_stop_parsing() {
    assert!(matches!(parse_command_line(&words(&["--help", "--port", "0"])), Ok(Parsed::Help)));
    assert!(matches!(parse_command_line(&words(&["-V"])), Ok(Parsed::Version)));
    assert!(parse(&["-h"]).unwrap().is_none());
    let err = parse(&["--port", "0", "--help"]).unwrap_err();
    assert_eq!(err.to_string(), "--port must be an integer from 1 to 65535");
}

#[test]
fn option_errors_are_reported() {
    assert_eq!(parse(&["--port", "70000"]).unwrap_err().to_string(), "--port must be an integer from 1 to 65535");
    assert_eq!(parse(&["--rate", "0"]).unwrap_err().to_string(), "--rate must be a positive integer");
    assert_eq!(parse(&["--channels", "x"]).unwrap_err().to_string(), "--channels must be a positive integer");
    assert_eq!(parse(&["--log-level", "TRACE"]).unwrap_err().to_string(), "invalid log level: TRACE");
    assert_eq!(
        parse(&["--backend", "pipe"]).unwrap_err().to_string(),
        "--backend must be 'aloop' or 'ioplug', got 'pipe'"
    );
    assert_eq!(parse(&["-p"]).unwrap_err().to_string(), "--port requires a value");
    assert_eq!(parse(&["--get-config-path"]).unwrap_err().to_string(), "--get-config-path requires a value");
    assert_eq!(parse(&["--bogus"]).unwrap_err().to_string(), "unknown argument: --bogus");
}

#[test]
fn mode_specific_option_checks() {
    assert_eq!(
        parse(&["--make-bypass"]).unwrap_err().to_string(),
        "--make-bypass requires --playback-device DEVICE"
    );
    assert_eq!(
        parse(&["--make-statefile", "--output", "s.yml"]).unwrap_err().to_string(),
        "--make-statefile requires --config-path PATH"
    );
    assert_eq!(
        parse(&["--get-config-path", "state.yml", "--rate", "48000"]).unwrap_err().to_string(),
        "--rate is not valid with --get-config-path"
    );
    let args = parse(&["--make-statefile", "--config-path", "/c.yml", "--output", "s.yml", "--existing-state", "old.yml"])
        .unwrap()
        .unwrap();
    assert_eq!(args.mode, Mode::MakeStatefile);
    assert_eq!(args.statefile_config_path, Some("/c.yml".to_string()));
    assert_eq!(args.existing_state, Some("old.yml".to_string()));
}

#[test]
fn ioplug_backend_options_are_read() {
    let args = parse(&[
        "--adapt", "a.yml", "--backend", "ioplug", "--socket-path", "/run/p/control.sock",
        "--camilladsp", "/usr/bin/camilladsp", "--cdsp-statefile", "/var/s.yml",
    ])
    .unwrap()
    .unwrap();
    assert_eq!(args.backend, Backend::Ioplug);
    assert_eq!(args.socket_path, Some("/run/p/control.sock".to_string()));
    assert_eq!(args.camilladsp_binary, Some("/usr/bin/camilladsp".to_string()));
    assert_eq!(args.cdsp_statefile, Some("/var/s.yml".to_string()));
    assert_eq!(Mode::WsCheck.name(), "--ws-check");
}
