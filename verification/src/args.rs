//! Command-line arguments of the controller: the option grammar, the mode
//! flags and the checks that reject option combinations a mode does not use.
use crate::core_logic::logging::{level_named, LogLevel};
use crate::error::{app_error, app_error_str, AppError, AppResult};
use crate::text::{chars_of, concat2, concat3, opt_view, parse_unsigned, parse_unsigned_chars, str_eq};
use vstd::prelude::*;

verus! {

/// Stream-detection and PCM-transport backend.
#[derive(Clone, Copy, Debug, Eq, PartialEq, Structural)]
pub enum Backend {
    /// snd-aloop loopback device (stable, default).
    Aloop,
    /// ALSA ioplug direct-connect (experimental).
    Ioplug,
}

/// Operating mode selected by the user.
#[derive(Clone, Copy, Debug, Eq, PartialEq, Structural)]
pub enum Mode {
    /// Normal ALSA-loopback control loop.
    Run,
    /// Read snd-aloop HCTL controls once and exit (install-time probe).
    Probe,
    /// Connect to CamillaDSP, query GetVersion, close, exit.
    WsCheck,
    /// Adapt YAML and call ValidateConfig over WebSocket, exit.
    WsValidate,
    /// Adapt YAML once, write result to stdout, exit.
    AdaptCheck,
    /// Read `devices.playback.device` from a CamillaDSP YAML config and print it.
    GetPlaybackDevice,
    /// Read `config_path` from a CamillaDSP statefile and print it.
    GetConfigPath,
    /// Read validated `mute`/`volume` blocks from a CamillaDSP statefile and print them.
    GetStateFragment,
    /// Write a piCoreDSP bypass CamillaDSP config with the given playback device.
    MakeBypass,
    /// Query `GetConfigFilePath` over WebSocket and print the result.
    WsGetConfigPath,
    /// Write a CamillaDSP statefile (first install or reinstall preserving mute/volume).
    MakeStatefile,
    /// Write a benchmark plan template for A/B backend measurements.
    MakeBenchmarkPlan,
    /// Validate a benchmark plan before collecting measurements.
    ValidateBenchmarkPlan,
    /// Render a benchmark report from a benchmark plan.
    MakeBenchmarkReport,
    /// Automatically collect metrics for both backends and write a populated benchmark plan.
    RunBenchmark,
}

/// The flag that selects a mode, as messages name it.
pub open spec fn mode_name(m: Mode) -> Seq<char> {
    match m {
        Mode::Run => "--run (default)"@,
        Mode::Probe => "--probe"@,
        Mode::WsCheck => "--ws-check"@,
        Mode::WsValidate => "--ws-validate"@,
        Mode::AdaptCheck => "--adapt-check"@,
        Mode::GetPlaybackDevice => "--get-playback-device"@,
        Mode::GetConfigPath => "--get-config-path"@,
        Mode::GetStateFragment => "--get-state-fragment"@,
        Mode::MakeBypass => "--make-bypass"@,
        Mode::WsGetConfigPath => "--ws-get-config-path"@,
        Mode::MakeStatefile => "--make-statefile"@,
        Mode::MakeBenchmarkPlan => "--make-benchmark-plan"@,
        Mode::ValidateBenchmarkPlan => "--validate-benchmark-plan"@,
        Mode::MakeBenchmarkReport => "--make-benchmark-report"@,
        Mode::RunBenchmark => "--run-benchmark"@,
    }
}

impl Mode {
    /// The flag that selects this mode.
    pub fn name(self) -> (s: &'static str)
        ensures
            s@ == mode_name(self),
    {
        match self {
            Mode::Run => "--run (default)",
            Mode::Probe => "--probe",
            Mode::WsCheck => "--ws-check",
            Mode::WsValidate => "--ws-validate",
            Mode::AdaptCheck => "--adapt-check",
            Mode::GetPlaybackDevice => "--get-playback-device",
            Mode::GetConfigPath => "--get-config-path",
            Mode::GetStateFragment => "--get-state-fragment",
            Mode::MakeBypass => "--make-bypass",
            Mode::WsGetConfigPath => "--ws-get-config-path",
            Mode::MakeStatefile => "--make-statefile",
            Mode::MakeBenchmarkPlan => "--make-benchmark-plan",
            Mode::ValidateBenchmarkPlan => "--validate-benchmark-plan",
            Mode::MakeBenchmarkReport => "--make-benchmark-report",
            Mode::RunBenchmark => "--run-benchmark",
        }
    }
}

/// Parsed command-line arguments. Paths are kept as the strings given.
#[derive(Debug)]
pub struct Args {
    pub host: String,
    pub port: u16,
    pub device: String,
    pub adapt: Option<String>,
    pub initial_rate: Option<u32>,
    pub initial_format: Option<String>,
    pub initial_channels: Option<u32>,
    pub log_level: LogLevel,
    pub mode: Mode,
    /// Stream-detection / PCM-transport backend.
    pub backend: Backend,
    /// AF_UNIX socket path for the ioplug IPC channel.
    pub socket_path: Option<String>,
    /// Path to the `camilladsp` binary (required with `--backend ioplug`).
    pub camilladsp_binary: Option<String>,
    /// CamillaDSP YAML config/statefile path for the `--get-*` modes.
    pub config_path: Option<String>,
    /// Playback device string supplied to `--make-bypass`.
    pub playback_device: Option<String>,
    /// Output file path for writer/report modes.
    pub output: Option<String>,
    /// Config path value written into the statefile by `--make-statefile`.
    pub statefile_config_path: Option<String>,
    /// Existing statefile to read mute/volume from (`--existing-state`).
    pub existing_state: Option<String>,
    /// Benchmark plan path for the benchmark plan modes.
    pub benchmark_path: Option<String>,
    /// CamillaDSP statefile forwarded as `--statefile` when spawning CamillaDSP.
    pub cdsp_statefile: Option<String>,
}

/// The mathematical value of [`Args`].
pub struct ArgsView {
    pub host: Seq<char>,
    pub port: u16,
    pub device: Seq<char>,
    pub adapt: Option<Seq<char>>,
    pub initial_rate: Option<u32>,
    pub initial_format: Option<Seq<char>>,
    pub initial_channels: Option<u32>,
    pub log_level: LogLevel,
    pub mode: Mode,
    pub backend: Backend,
    pub socket_path: Option<Seq<char>>,
    pub camilladsp_binary: Option<Seq<char>>,
    pub config_path: Option<Seq<char>>,
    pub playback_device: Option<Seq<char>>,
    pub output: Option<Seq<char>>,
    pub statefile_config_path: Option<Seq<char>>,
    pub existing_state: Option<Seq<char>>,
    pub benchmark_path: Option<Seq<char>>,
    pub cdsp_statefile: Option<Seq<char>>,
}

impl View for Args {
    type V = ArgsView;

    open spec fn view(&self) -> ArgsView {
        ArgsView {
            host: self.host@,
            port: self.port,
            device: self.device@,
            adapt: opt_view(self.adapt),
            initial_rate: self.initial_rate,
            initial_format: opt_view(self.initial_format),
            initial_channels: self.initial_channels,
            log_level: self.log_level,
            mode: self.mode,
            backend: self.backend,
            socket_path: opt_view(self.socket_path),
            camilladsp_binary: opt_view(self.camilladsp_binary),
            config_path: opt_view(self.config_path),
            playback_device: opt_view(self.playback_device),
            output: opt_view(self.output),
            statefile_config_path: opt_view(self.statefile_config_path),
            existing_state: opt_view(self.existing_state),
            benchmark_path: opt_view(self.benchmark_path),
            cdsp_statefile: opt_view(self.cdsp_statefile),
        }
    }
}

/// The arguments before any option is read.
pub open spec fn default_args() -> ArgsView {
    ArgsView {
        host: "127.0.0.1"@,
        port: 1234,
        device: "hw:Loopback,0"@,
        adapt: None,
        initial_rate: None,
        initial_format: None,
        initial_channels: None,
        log_level: LogLevel::Info,
        mode: Mode::Run,
        backend: Backend::Aloop,
        socket_path: None,
        camilladsp_binary: None,
        config_path: None,
        playback_device: None,
        output: None,
        statefile_config_path: None,
        existing_state: None,
        benchmark_path: None,
        cdsp_statefile: None,
    }
}

impl Default for Args {
    fn default() -> (a: Self)
        ensures
            a@ == default_args(),
    {
        Args {
            host: "127.0.0.1".to_string(),
            port: 1234,
            device: "hw:Loopback,0".to_string(),
            adapt: None,
            initial_rate: None,
            initial_format: None,
            initial_channels: None,
            log_level: LogLevel::Info,
            mode: Mode::Run,
            backend: Backend::Aloop,
            socket_path: None,
            camilladsp_binary: None,
            config_path: None,
            playback_device: None,
            output: None,
            statefile_config_path: None,
            existing_state: None,
            benchmark_path: None,
            cdsp_statefile: None,
        }
    }
}

/// An option that takes a value.
#[derive(Clone, Copy, Debug, Eq, PartialEq, Structural)]
pub enum ValueOption {
    ConfigPath,
    ExistingState,
    PlaybackDevice,
    Output,
    Host,
    Port,
    Device,
    Adapt,
    Rate,
    Format,
    Channels,
    LogLevel,
    Backend,
    SocketPath,
    Camilladsp,
    CdspStatefile,
}

/// The long name of a value option, as messages name it.
pub open spec fn option_name(o: ValueOption) -> Seq<char> {
    match o {
        ValueOption::ConfigPath => "--config-path"@,
        ValueOption::ExistingState => "--existing-state"@,
        ValueOption::PlaybackDevice => "--playback-device"@,
        ValueOption::Output => "--output"@,
        ValueOption::Host => "--host"@,
        ValueOption::Port => "--port"@,
        ValueOption::Device => "--device"@,
        ValueOption::Adapt => "--adapt"@,
        ValueOption::Rate => "--rate"@,
        ValueOption::Format => "--format"@,
        ValueOption::Channels => "--channels"@,
        ValueOption::LogLevel => "--log-level"@,
        ValueOption::Backend => "--backend"@,
        ValueOption::SocketPath => "--socket-path"@,
        ValueOption::Camilladsp => "--camilladsp"@,
        ValueOption::CdspStatefile => "--cdsp-statefile"@,
    }
}

/// What one command-line word is.
pub enum Word {
    Help,
    Version,
    ModeFlag(Mode),
    Value(ValueOption),
    Unknown,
}

/// The meaning of the command-line word `w`.
pub open spec fn word_of(w: Seq<char>) -> Word {
    if w == "-h"@ || w == "--help"@ {
        Word::Help
    } else if w == "-V"@ || w == "--version"@ {
        Word::Version
    } else if w == "--probe"@ {
        Word::ModeFlag(Mode::Probe)
    } else if w == "--ws-check"@ {
        Word::ModeFlag(Mode::WsCheck)
    } else if w == "--ws-validate"@ {
        Word::ModeFlag(Mode::WsValidate)
    } else if w == "--adapt-check"@ {
        Word::ModeFlag(Mode::AdaptCheck)
    } else if w == "--get-playback-device"@ {
        Word::ModeFlag(Mode::GetPlaybackDevice)
    } else if w == "--get-config-path"@ {
        Word::ModeFlag(Mode::GetConfigPath)
    } else if w == "--get-state-fragment"@ {
        Word::ModeFlag(Mode::GetStateFragment)
    } else if w == "--make-bypass"@ {
        Word::ModeFlag(Mode::MakeBypass)
    } else if w == "--ws-get-config-path"@ {
        Word::ModeFlag(Mode::WsGetConfigPath)
    } else if w == "--make-statefile"@ {
        Word::ModeFlag(Mode::MakeStatefile)
    } else if w == "--make-benchmark-plan"@ {
        Word::ModeFlag(Mode::MakeBenchmarkPlan)
    } else if w == "--validate-benchmark-plan"@ {
        Word::ModeFlag(Mode::ValidateBenchmarkPlan)
    } else if w == "--make-benchmark-report"@ {
        Word::ModeFlag(Mode::MakeBenchmarkReport)
    } else if w == "--run-benchmark"@ {
        Word::ModeFlag(Mode::RunBenchmark)
    } else if w == "--config-path"@ {
        Word::Value(ValueOption::ConfigPath)
    } else if w == "--existing-state"@ {
        Word::Value(ValueOption::ExistingState)
    } else if w == "--playback-device"@ {
        Word::Value(ValueOption::PlaybackDevice)
    } else if w == "--output"@ {
        Word::Value(ValueOption::Output)
    } else if w == "--host"@ {
        Word::Value(ValueOption::Host)
    } else if w == "-p"@ || w == "--port"@ {
        Word::Value(ValueOption::Port)
    } else if w == "-d"@ || w == "--device"@ {
        Word::Value(ValueOption::Device)
    } else if w == "-a"@ || w == "--adapt"@ {
        Word::Value(ValueOption::Adapt)
    } else if w == "-r"@ || w == "--rate"@ {
        Word::Value(ValueOption::Rate)
    } else if w == "-f"@ || w == "--format"@ {
        Word::Value(ValueOption::Format)
    } else if w == "-c"@ || w == "--channels"@ {
        Word::Value(ValueOption::Channels)
    } else if w == "-l"@ || w == "--log-level"@ {
        Word::Value(ValueOption::LogLevel)
    } else if w == "--backend"@ {
        Word::Value(ValueOption::Backend)
    } else if w == "--socket-path"@ {
        Word::Value(ValueOption::SocketPath)
    } else if w == "--camilladsp"@ {
        Word::Value(ValueOption::Camilladsp)
    } else if w == "--cdsp-statefile"@ {
        Word::Value(ValueOption::CdspStatefile)
    } else {
        Word::Unknown
    }
}

/// The modes whose flag is followed by a path.
pub open spec fn mode_takes_value(m: Mode) -> bool {
    m is GetPlaybackDevice || m is GetConfigPath || m is GetStateFragment
        || m is ValidateBenchmarkPlan || m is MakeBenchmarkReport
}

/// The arguments after the mode flag of `m`, with its path `v` where it takes one.
pub open spec fn with_mode(a: ArgsView, m: Mode, v: Seq<char>) -> ArgsView {
    if m is GetPlaybackDevice || m is GetConfigPath || m is GetStateFragment {
        ArgsView { mode: m, config_path: Some(v), ..a }
    } else if m is ValidateBenchmarkPlan || m is MakeBenchmarkReport {
        ArgsView { mode: m, benchmark_path: Some(v), ..a }
    } else {
        ArgsView { mode: m, ..a }
    }
}

/// A positive number read the way `str::parse` reads it, no larger than `max`.
pub open spec fn positive(v: Seq<char>, max: nat) -> Option<nat> {
    match parse_unsigned(v, max) {
        Some(n) => if n == 0 {
            None
        } else {
            Some(n)
        },
        None => None,
    }
}

/// The arguments after the value option `o` with value `v`, or the error it gives.
pub open spec fn with_value(a: ArgsView, o: ValueOption, v: Seq<char>) -> Result<ArgsView, Seq<char>> {
    match o {
        ValueOption::ConfigPath => Ok(ArgsView { statefile_config_path: Some(v), ..a }),
        ValueOption::ExistingState => Ok(ArgsView { existing_state: Some(v), ..a }),
        ValueOption::PlaybackDevice => Ok(ArgsView { playback_device: Some(v), ..a }),
        ValueOption::Output => Ok(ArgsView { output: Some(v), ..a }),
        ValueOption::Host => Ok(ArgsView { host: v, ..a }),
        ValueOption::Port => match positive(v, 65535) {
            Some(n) => Ok(ArgsView { port: n as u16, ..a }),
            None => Err("--port must be an integer from 1 to 65535"@),
        },
        ValueOption::Device => Ok(ArgsView { device: v, ..a }),
        ValueOption::Adapt => Ok(ArgsView { adapt: Some(v), ..a }),
        ValueOption::Rate => match positive(v, u32::MAX as nat) {
            Some(n) => Ok(ArgsView { initial_rate: Some(n as u32), ..a }),
            None => Err("--rate must be a positive integer"@),
        },
        ValueOption::Format => Ok(ArgsView { initial_format: Some(v), ..a }),
        ValueOption::Channels => match positive(v, u32::MAX as nat) {
            Some(n) => Ok(ArgsView { initial_channels: Some(n as u32), ..a }),
            None => Err("--channels must be a positive integer"@),
        },
        ValueOption::LogLevel => match level_named(v) {
            Some(l) => Ok(ArgsView { log_level: l, ..a }),
            None => Err("invalid log level: "@ + v),
        },
        ValueOption::Backend => if v == "aloop"@ {
            Ok(ArgsView { backend: Backend::Aloop, ..a })
        } else if v == "ioplug"@ {
            Ok(ArgsView { backend: Backend::Ioplug, ..a })
        } else {
            Err("--backend must be 'aloop' or 'ioplug', got '"@ + v + "'"@)
        },
        ValueOption::SocketPath => Ok(ArgsView { socket_path: Some(v), ..a }),
        ValueOption::Camilladsp => Ok(ArgsView { camilladsp_binary: Some(v), ..a }),
        ValueOption::CdspStatefile => Ok(ArgsView { cdsp_statefile: Some(v), ..a }),
    }
}

/// What parsing a command line comes to.
pub enum Parsed {
    /// `-h`/`--help`: show the usage text.
    Help,
    /// `-V`/`--version`: show the version.
    Version,
    /// Run with these arguments.
    Run(Args),
}

/// The mathematical value of a parse.
pub enum ParsedView {
    Help,
    Version,
    Run(ArgsView),
}

/// The view of a parse result.
pub open spec fn parsed_view(r: AppResult<Parsed>) -> Result<ParsedView, Seq<char>> {
    match r {
        Ok(Parsed::Help) => Ok(ParsedView::Help),
        Ok(Parsed::Version) => Ok(ParsedView::Version),
        Ok(Parsed::Run(a)) => Ok(ParsedView::Run(a@)),
        Err(e) => Err(e.message@),
    }
}

/// Reading `argv` from position `i` on, with the arguments so far `a`.
/// Each option that takes a value consumes the next word, whatever it is.
pub open spec fn scan(argv: Seq<Seq<char>>, i: int, a: ArgsView) -> Result<ParsedView, Seq<char>>
    decreases argv.len() - i,
{
    if i < 0 || i >= argv.len() {
        match final_check(a) {
            Ok(()) => Ok(ParsedView::Run(a)),
            Err(m) => Err(m),
        }
    } else {
        let w = argv[i];
        match word_of(w) {
            Word::Help => Ok(ParsedView::Help),
            Word::Version => Ok(ParsedView::Version),
            Word::Unknown => Err("unknown argument: "@ + w),
            Word::ModeFlag(m) => if a.mode != Mode::Run {
                Err("conflicting mode flags: "@ + mode_name(a.mode) + " and "@ + w)
            } else if !mode_takes_value(m) {
                scan(argv, i + 1, with_mode(a, m, Seq::empty()))
            } else if i + 1 >= argv.len() {
                Err(w + " requires a value"@)
            } else {
                scan(argv, i + 2, with_mode(a, m, argv[i + 1]))
            },
            Word::Value(o) => if i + 1 >= argv.len() {
                Err(option_name(o) + " requires a value"@)
            } else {
                match with_value(a, o, argv[i + 1]) {
                    Ok(a2) => scan(argv, i + 2, a2),
                    Err(m) => Err(m),
                }
            },
        }
    }
}

/// The modes that adapt a config and so need `--adapt`.
pub open spec fn needs_adapt(m: Mode) -> bool {
    m is Run || m is WsValidate || m is AdaptCheck
}

/// The modes that write an output file.
pub open spec fn writes_output(m: Mode) -> bool {
    m is MakeBypass || m is MakeStatefile || m is MakeBenchmarkPlan || m is MakeBenchmarkReport
        || m is RunBenchmark
}

/// The benchmark plan modes.
pub open spec fn is_benchmark_mode(m: Mode) -> bool {
    m is MakeBenchmarkPlan || m is ValidateBenchmarkPlan || m is MakeBenchmarkReport || m is RunBenchmark
}

/// The modes that read a config or statefile.
pub open spec fn is_reader_mode(m: Mode) -> bool {
    m is GetPlaybackDevice || m is GetConfigPath || m is GetStateFragment
}

/// The first of the option/mode checks that `a` fails, in the order they
/// are made, or `Ok` when all pass.
pub open spec fn final_check(a: ArgsView) -> Result<(), Seq<char>> {
    let m = a.mode;
    if needs_adapt(m) && a.adapt is None {
        Err("this mode requires --adapt PATH"@)
    } else if m is MakeBypass && a.playback_device is None {
        Err("--make-bypass requires --playback-device DEVICE"@)
    } else if a.playback_device is Some && !(m is MakeBypass) {
        Err("--playback-device is only valid with --make-bypass"@)
    } else if a.output is Some && !writes_output(m) {
        Err(
            "--output is only valid with --make-bypass, --make-statefile, --make-benchmark-plan, --make-benchmark-report or --run-benchmark"@,
        )
    } else if m is MakeStatefile && a.statefile_config_path is None {
        Err("--make-statefile requires --config-path PATH"@)
    } else if m is MakeStatefile && a.output is None {
        Err("--make-statefile requires --output FILE"@)
    } else if a.statefile_config_path is Some && !(m is MakeStatefile) {
        Err("--config-path is only valid with --make-statefile"@)
    } else if a.existing_state is Some && !(m is MakeStatefile) {
        Err("--existing-state is only valid with --make-statefile"@)
    } else if a.benchmark_path is Some && !(m is ValidateBenchmarkPlan || m is MakeBenchmarkReport) {
        Err("--benchmark-path is only valid with --validate-benchmark-plan or --make-benchmark-report"@)
    } else if m is MakeStatefile && a.adapt is Some {
        Err("--adapt is not valid with --make-statefile"@)
    } else if m is MakeStatefile && a.initial_rate is Some {
        Err("--rate is not valid with --make-statefile"@)
    } else if m is MakeStatefile && a.initial_format is Some {
        Err("--format is not valid with --make-statefile"@)
    } else if m is MakeStatefile && a.initial_channels is Some {
        Err("--channels is not valid with --make-statefile"@)
    } else if is_benchmark_mode(m) || is_reader_mode(m) {
        let rest = " is not valid with "@ + mode_name(m);
        if a.adapt is Some {
            Err("--adapt"@ + rest)
        } else if a.initial_rate is Some {
            Err("--rate"@ + rest)
        } else if a.initial_format is Some {
            Err("--format"@ + rest)
        } else if a.initial_channels is Some {
            Err("--channels"@ + rest)
        } else if is_benchmark_mode(m) && a.playback_device is Some {
            Err("--playback-device"@ + rest)
        } else if is_benchmark_mode(m) && a.statefile_config_path is Some {
            Err("--config-path"@ + rest)
        } else if is_benchmark_mode(m) && a.existing_state is Some {
            Err("--existing-state"@ + rest)
        } else {
            Ok(())
        }
    } else {
        Ok(())
    }
}

/// The views of a list of words.
pub open spec fn words(argv: Seq<String>) -> Seq<Seq<char>> {
    argv.map_values(|s: String| s@)
}

/// What the command-line word `w` is.
pub fn word_of_str(w: &str) -> (r: Word)
    ensures
        r == word_of(w@),
{
    if str_eq(w, "-h") || str_eq(w, "--help") {
        Word::Help
    } else if str_eq(w, "-V") || str_eq(w, "--version") {
        Word::Version
    } else if str_eq(w, "--probe") {
        Word::ModeFlag(Mode::Probe)
    } else if str_eq(w, "--ws-check") {
        Word::ModeFlag(Mode::WsCheck)
    } else if str_eq(w, "--ws-validate") {
        Word::ModeFlag(Mode::WsValidate)
    } else if str_eq(w, "--adapt-check") {
        Word::ModeFlag(Mode::AdaptCheck)
    } else if str_eq(w, "--get-playback-device") {
        Word::ModeFlag(Mode::GetPlaybackDevice)
    } else if str_eq(w, "--get-config-path") {
        Word::ModeFlag(Mode::GetConfigPath)
    } else if str_eq(w, "--get-state-fragment") {
        Word::ModeFlag(Mode::GetStateFragment)
    } else if str_eq(w, "--make-bypass") {
        Word::ModeFlag(Mode::MakeBypass)
    } else if str_eq(w, "--ws-get-config-path") {
        Word::ModeFlag(Mode::WsGetConfigPath)
    } else if str_eq(w, "--make-statefile") {
        Word::ModeFlag(Mode::MakeStatefile)
    } else if str_eq(w, "--make-benchmark-plan") {
        Word::ModeFlag(Mode::MakeBenchmarkPlan)
    } else if str_eq(w, "--validate-benchmark-plan") {
        Word::ModeFlag(Mode::ValidateBenchmarkPlan)
    } else if str_eq(w, "--make-benchmark-report") {
        Word::ModeFlag(Mode::MakeBenchmarkReport)
    } else if str_eq(w, "--run-benchmark") {
        Word::ModeFlag(Mode::RunBenchmark)
    } else if str_eq(w, "--config-path") {
        Word::Value(ValueOption::ConfigPath)
    } else if str_eq(w, "--existing-state") {
        Word::Value(ValueOption::ExistingState)
    } else if str_eq(w, "--playback-device") {
        Word::Value(ValueOption::PlaybackDevice)
    } else if str_eq(w, "--output") {
        Word::Value(ValueOption::Output)
    } else if str_eq(w, "--host") {
        Word::Value(ValueOption::Host)
    } else if str_eq(w, "-p") || str_eq(w, "--port") {
        Word::Value(ValueOption::Port)
    } else if str_eq(w, "-d") || str_eq(w, "--device") {
        Word::Value(ValueOption::Device)
    } else if str_eq(w, "-a") || str_eq(w, "--adapt") {
        Word::Value(ValueOption::Adapt)
    } else if str_eq(w, "-r") || str_eq(w, "--rate") {
        Word::Value(ValueOption::Rate)
    } else if str_eq(w, "-f") || str_eq(w, "--format") {
        Word::Value(ValueOption::Format)
    } else if str_eq(w, "-c") || str_eq(w, "--channels") {
        Word::Value(ValueOption::Channels)
    } else if str_eq(w, "-l") || str_eq(w, "--log-level") {
        Word::Value(ValueOption::LogLevel)
    } else if str_eq(w, "--backend") {
        Word::Value(ValueOption::Backend)
    } else if str_eq(w, "--socket-path") {
        Word::Value(ValueOption::SocketPath)
    } else if str_eq(w, "--camilladsp") {
        Word::Value(ValueOption::Camilladsp)
    } else if str_eq(w, "--cdsp-statefile") {
        Word::Value(ValueOption::CdspStatefile)
    } else {
        Word::Unknown
    }
}

impl ValueOption {
    /// The long name of this option.
    pub fn name(self) -> (s: &'static str)
        ensures
            s@ == option_name(self),
    {
        match self {
            ValueOption::ConfigPath => "--config-path",
            ValueOption::ExistingState => "--existing-state",
            ValueOption::PlaybackDevice => "--playback-device",
            ValueOption::Output => "--output",
            ValueOption::Host => "--host",
            ValueOption::Port => "--port",
            ValueOption::Device => "--device",
            ValueOption::Adapt => "--adapt",
            ValueOption::Rate => "--rate",
            ValueOption::Format => "--format",
            ValueOption::Channels => "--channels",
            ValueOption::LogLevel => "--log-level",
            ValueOption::Backend => "--backend",
            ValueOption::SocketPath => "--socket-path",
            ValueOption::Camilladsp => "--camilladsp",
            ValueOption::CdspStatefile => "--cdsp-statefile",
        }
    }
}

/// A positive number no larger than `max`, read the way `str::parse` reads it.
fn positive_number(v: &str, max: u64) -> (r: Option<u64>)
    requires
        max >= 9,
    ensures
        match r {
            Some(n) => positive(v@, max as nat) == Some(n as nat),
            None => positive(v@, max as nat) is None,
        },
{
    let chars = chars_of(v);
    match parse_unsigned_chars(chars.as_slice(), max) {
        Some(n) => if n == 0 {
            None
        } else {
            Some(n)
        },
        None => None,
    }
}

/// Apply the value option `o` with value `v` to `args`.
fn apply_value(args: &mut Args, o: ValueOption, v: String) -> (r: Result<(), AppError>)
    ensures
        match with_value(old(args)@, o, v@) {
            Ok(a2) => r is Ok && final(args)@ == a2,
            Err(m) => r matches Err(e) && e.message@ == m,
        },
{
    match o {
        ValueOption::ConfigPath => args.statefile_config_path = Some(v),
        ValueOption::ExistingState => args.existing_state = Some(v),
        ValueOption::PlaybackDevice => args.playback_device = Some(v),
        ValueOption::Output => args.output = Some(v),
        ValueOption::Host => args.host = v,
        ValueOption::Port => match positive_number(v.as_str(), 65535) {
            Some(n) => args.port = n as u16,
            None => {
                return Err(app_error_str("--port must be an integer from 1 to 65535"));
            },
        },
        ValueOption::Device => args.device = v,
        ValueOption::Adapt => args.adapt = Some(v),
        ValueOption::Rate => match positive_number(v.as_str(), 0xffff_ffff) {
            Some(n) => args.initial_rate = Some(n as u32),
            None => {
                return Err(app_error_str("--rate must be a positive integer"));
            },
        },
        ValueOption::Format => args.initial_format = Some(v),
        ValueOption::Channels => match positive_number(v.as_str(), 0xffff_ffff) {
            Some(n) => args.initial_channels = Some(n as u32),
            None => {
                return Err(app_error_str("--channels must be a positive integer"));
            },
        },
        ValueOption::LogLevel => {
            args.log_level = LogLevel::parse(v.as_str())?;
        },
        ValueOption::Backend => {
            if str_eq(v.as_str(), "aloop") {
                args.backend = Backend::Aloop;
            } else if str_eq(v.as_str(), "ioplug") {
                args.backend = Backend::Ioplug;
            } else {
                return Err(
                    app_error(concat3("--backend must be 'aloop' or 'ioplug', got '", v.as_str(), "'")),
                );
            }
        },
        ValueOption::SocketPath => args.socket_path = Some(v),
        ValueOption::Camilladsp => args.camilladsp_binary = Some(v),
        ValueOption::CdspStatefile => args.cdsp_statefile = Some(v),
    }
    Ok(())
}

/// Check the option combination of `args` against its mode.
pub fn check_args(args: &Args) -> (r: Result<(), AppError>)
    ensures
        match final_check(args@) {
            Ok(()) => r is Ok,
            Err(m) => r matches Err(e) && e.message@ == m,
        },
{
    let m = args.mode;
    let needs_adapt = m == Mode::Run || m == Mode::WsValidate || m == Mode::AdaptCheck;
    let writes_output = m == Mode::MakeBypass || m == Mode::MakeStatefile || m == Mode::MakeBenchmarkPlan
        || m == Mode::MakeBenchmarkReport || m == Mode::RunBenchmark;
    let benchmark = m == Mode::MakeBenchmarkPlan || m == Mode::ValidateBenchmarkPlan
        || m == Mode::MakeBenchmarkReport || m == Mode::RunBenchmark;
    let reader = m == Mode::GetPlaybackDevice || m == Mode::GetConfigPath || m == Mode::GetStateFragment;
    let statefile = m == Mode::MakeStatefile;
    if needs_adapt && args.adapt.is_none() {
        return Err(app_error_str("this mode requires --adapt PATH"));
    }
    if m == Mode::MakeBypass && args.playback_device.is_none() {
        return Err(app_error_str("--make-bypass requires --playback-device DEVICE"));
    }
    if args.playback_device.is_some() && m != Mode::MakeBypass {
        return Err(app_error_str("--playback-device is only valid with --make-bypass"));
    }
    if args.output.is_some() && !writes_output {
        return Err(
            app_error_str(
                "--output is only valid with --make-bypass, --make-statefile, --make-benchmark-plan, --make-benchmark-report or --run-benchmark",
            ),
        );
    }
    if statefile {
        if args.statefile_config_path.is_none() {
            return Err(app_error_str("--make-statefile requires --config-path PATH"));
        }
        if args.output.is_none() {
            return Err(app_error_str("--make-statefile requires --output FILE"));
        }
    }
    if args.statefile_config_path.is_some() && !statefile {
        return Err(app_error_str("--config-path is only valid with --make-statefile"));
    }
    if args.existing_state.is_some() && !statefile {
        return Err(app_error_str("--existing-state is only valid with --make-statefile"));
    }
    if args.benchmark_path.is_some() && !(m == Mode::ValidateBenchmarkPlan || m
        == Mode::MakeBenchmarkReport) {
        return Err(
            app_error_str(
                "--benchmark-path is only valid with --validate-benchmark-plan or --make-benchmark-report",
            ),
        );
    }
    if statefile {
        if args.adapt.is_some() {
            return Err(app_error_str("--adapt is not valid with --make-statefile"));
        }
        if args.initial_rate.is_some() {
            return Err(app_error_str("--rate is not valid with --make-statefile"));
        }
        if args.initial_format.is_some() {
            return Err(app_error_str("--format is not valid with --make-statefile"));
        }
        if args.initial_channels.is_some() {
            return Err(app_error_str("--channels is not valid with --make-statefile"));
        }
    }
    if benchmark || reader {
        let rest = concat2(" is not valid with ", m.name());
        if args.adapt.is_some() {
            return Err(app_error(concat2("--adapt", rest.as_str())));
        }
        if args.initial_rate.is_some() {
            return Err(app_error(concat2("--rate", rest.as_str())));
        }
        if args.initial_format.is_some() {
            return Err(app_error(concat2("--format", rest.as_str())));
        }
        if args.initial_channels.is_some() {
            return Err(app_error(concat2("--channels", rest.as_str())));
        }
        if benchmark && args.playback_device.is_some() {
            return Err(app_error(concat2("--playback-device", rest.as_str())));
        }
        if benchmark && args.statefile_config_path.is_some() {
            return Err(app_error(concat2("--config-path", rest.as_str())));
        }
        if benchmark && args.existing_state.is_some() {
            return Err(app_error(concat2("--existing-state", rest.as_str())));
        }
    }
    Ok(())
}

/// Parse a command line (without the program name): `-h`/`--help` and
/// `-V`/`--version` end the parse where they stand; any other word is a
/// mode flag or an option, and an option that takes a value consumes the
/// next word. The arguments read are then checked against their mode.
pub fn parse_command_line(argv: &Vec<String>) -> (r: AppResult<Parsed>)
    ensures
        parsed_view(r) == scan(words(argv@), 0, default_args()),
{
    let ghost ws = words(argv@);
    let mut args = Args::default();
    let mut i: usize = 0;
    while i < argv.len()
        invariant
            i <= argv.len(),
            ws == words(argv@),
            ws.len() == argv@.len(),
            scan(ws, 0, default_args()) == scan(ws, i as int, args@),
        decreases argv.len() - i,
    {
        let w = argv[i].as_str();
        assert(ws[i as int] == w@);
        match word_of_str(w) {
            Word::Help => {
                return Ok(Parsed::Help);
            },
            Word::Version => {
                return Ok(Parsed::Version);
            },
            Word::Unknown => {
                return Err(app_error(concat2("unknown argument: ", w)));
            },
            Word::ModeFlag(m) => {
                if args.mode != Mode::Run {
                    let text = concat3("conflicting mode flags: ", args.mode.name(), " and ");
                    return Err(app_error(concat2(text.as_str(), w)));
                }
                if m == Mode::GetPlaybackDevice || m == Mode::GetConfigPath || m == Mode::GetStateFragment
                    || m == Mode::ValidateBenchmarkPlan || m == Mode::MakeBenchmarkReport {
                    if i + 1 >= argv.len() {
                        return Err(app_error(concat2(w, " requires a value")));
                    }
                    let v = argv[i + 1].clone();
                    assert(ws[i + 1] == v@);
                    if m == Mode::GetPlaybackDevice || m == Mode::GetConfigPath || m
                        == Mode::GetStateFragment {
                        args.config_path = Some(v);
                    } else {
                        args.benchmark_path = Some(v);
                    }
                    args.mode = m;
                    i = i + 2;
                } else {
                    args.mode = m;
                    i = i + 1;
                }
            },
            Word::Value(o) => {
                if i + 1 >= argv.len() {
                    return Err(app_error(concat2(o.name(), " requires a value")));
                }
                let v = argv[i + 1].clone();
                assert(ws[i + 1] == v@);
                apply_value(&mut args, o, v)?;
                i = i + 2;
            },
        }
    }
    check_args(&args)?;
    Ok(Parsed::Run(args))
}

/// Parse a command line, giving `None` where `--help` or `--version` ends it.
pub fn parse_args_from(argv: Vec<String>) -> (r: AppResult<Option<Args>>)
    ensures
        match scan(words(argv@), 0, default_args()) {
            Ok(ParsedView::Run(a)) => r matches Ok(Some(x)) && x@ == a,
            Ok(_) => r matches Ok(None),
            Err(m) => r matches Err(e) && e.message@ == m,
        },
{
    match parse_command_line(&argv)? {
        Parsed::Run(a) => Ok(Some(a)),
        _ => Ok(None),
    }
}

} // verus!
