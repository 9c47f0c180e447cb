//! Benchmark plans: the measurement environment, the runner's settings,
//! and the checks a plan must pass before a report is rendered from it.
use crate::args::Backend;
use crate::error::{app_error, app_error_str, AppError, AppResult};
use crate::text::{chars_of, concat2, concat3, dec_string, push_decimal, trim, trim_chars};
use vstd::prelude::*;

verus! {

/// The plan format version this controller reads and writes.
pub const BENCHMARK_PLAN_VERSION: u32 = 1;

/// Where and with what a benchmark was measured.
#[derive(Clone, Debug)]
pub struct BenchmarkEnvironment {
    pub raspberry_pi: String,
    pub picoreplayer_version: String,
    pub camilladsp_version: String,
    pub dac: String,
    pub dsp_config: String,
    pub track: String,
    pub chunksize: u32,
    pub queuelimit: u32,
    pub sample_rates_hz: Vec<u32>,
}

/// Settings of the automatic benchmark runner.
#[derive(Clone, Debug)]
pub struct BenchmarkRunnerConfig {
    /// CamillaDSP WebSocket host.
    pub host: String,
    /// CamillaDSP WebSocket port.
    pub port: u16,
    /// ALSA control device of the aloop backend (e.g. `hw:Loopback,0`).
    pub aloop_device: String,
}

/// The name a report gives a backend.
pub open spec fn backend_label(b: Backend) -> Seq<char> {
    match b {
        Backend::Aloop => "aloop"@,
        Backend::Ioplug => "ioplug"@,
    }
}

/// The name a report gives a backend.
pub fn backend_name(backend: Backend) -> (s: &'static str)
    ensures
        s@ == backend_label(backend),
{
    match backend {
        Backend::Aloop => "aloop",
        Backend::Ioplug => "ioplug",
    }
}

/// Which backend a pass/fail metric prefers: the one that passed where the
/// other did not, else a tie.
pub open spec fn boolean_preference(aloop: bool, ioplug: bool) -> Seq<char> {
    if aloop == ioplug {
        "tie"@
    } else if aloop {
        "aloop"@
    } else {
        "ioplug"@
    }
}

/// Which backend a pass/fail metric prefers.
pub fn compare_boolean(aloop: bool, ioplug: bool) -> (s: &'static str)
    ensures
        s@ == boolean_preference(aloop, ioplug),
{
    match (aloop, ioplug) {
        (true, true) | (false, false) => "tie",
        (true, false) => "aloop",
        (false, true) => "ioplug",
    }
}

/// The check that a required plan field holds text.
pub open spec fn nonempty_check(field: Seq<char>, value: Seq<char>) -> Result<(), Seq<char>> {
    if trim(value).len() == 0 {
        Err(field + " must not be empty"@)
    } else {
        Ok(())
    }
}

/// Fail when a required plan field is blank.
pub fn ensure_nonempty(field: &str, value: &str) -> (r: AppResult<()>)
    ensures
        match nonempty_check(field@, value@) {
            Ok(()) => r is Ok,
            Err(m) => r matches Err(e) && e.message@ == m,
        },
{
    let t = trim_chars(chars_of(value).as_slice());
    if t.len() == 0 {
        return Err(app_error(concat2(field, " must not be empty")));
    }
    Ok(())
}

/// The view of the environment's text fields with their plan names.
pub open spec fn environment_fields(e: BenchmarkEnvironment) -> Seq<(Seq<char>, Seq<char>)> {
    seq![
        ("environment.raspberry_pi"@, e.raspberry_pi@),
        ("environment.picoreplayer_version"@, e.picoreplayer_version@),
        ("environment.camilladsp_version"@, e.camilladsp_version@),
        ("environment.dac"@, e.dac@),
        ("environment.dsp_config"@, e.dsp_config@),
        ("environment.track"@, e.track@),
    ]
}

/// The first blank field among `fs`, as an error.
pub open spec fn first_blank(fs: Seq<(Seq<char>, Seq<char>)>) -> Result<(), Seq<char>>
    decreases fs.len(),
{
    if fs.len() == 0 {
        Ok(())
    } else {
        match nonempty_check(fs[0].0, fs[0].1) {
            Err(m) => Err(m),
            Ok(()) => first_blank(fs.drop_first()),
        }
    }
}

/// The sample rates every plan must cover.
pub open spec fn required_rates() -> Set<u32> {
    set![44100u32, 48000u32, 96000u32, 192000u32]
}

/// The first check a plan fails, in the order they are made: version,
/// required environment text, chunk size, queue limit, the set of sample
/// rates, the number of runs, and the set of run backends.
pub open spec fn plan_check(version: u32, e: BenchmarkEnvironment, backends: Seq<Backend>) -> Result<(), Seq<char>> {
    if version != BENCHMARK_PLAN_VERSION {
        Err(
            "benchmark plan version must be "@ + dec_string(BENCHMARK_PLAN_VERSION as nat) + ", got "@
                + dec_string(version as nat),
        )
    } else {
        match first_blank(environment_fields(e)) {
            Err(m) => Err(m),
            Ok(()) => if e.chunksize == 0 {
                Err("environment.chunksize must be greater than zero"@)
            } else if e.queuelimit == 0 {
                Err("environment.queuelimit must be greater than zero"@)
            } else if e.sample_rates_hz@.to_set() != required_rates() {
                Err("environment.sample_rates_hz must contain exactly [44100, 48000, 96000, 192000]"@)
            } else if backends.len() != 2 {
                Err("benchmark plan must contain exactly two runs: one aloop and one ioplug"@)
            } else if backends.to_set() != set![Backend::Aloop, Backend::Ioplug] {
                Err("benchmark plan must contain exactly one aloop run and one ioplug run"@)
            } else {
                Ok(())
            },
        }
    }
}

fn contains_rate(v: &Vec<u32>, x: u32) -> (b: bool)
    ensures
        b == v@.contains(x),
{
    let mut i: usize = 0;
    while i < v.len()
        invariant
            i <= v.len(),
            forall|k: int| 0 <= k < i ==> v@[k] != x,
        decreases v.len() - i,
    {
        if v[i] == x {
            assert(v@[i as int] == x);
            return true;
        }
        i = i + 1;
    }
    false
}

fn all_required(v: &Vec<u32>) -> (b: bool)
    ensures
        b == (forall|k: int| 0 <= k < v.len() ==> required_rates().contains(#[trigger] v@[k])),
{
    let mut i: usize = 0;
    while i < v.len()
        invariant
            i <= v.len(),
            forall|k: int| 0 <= k < i ==> required_rates().contains(#[trigger] v@[k]),
        decreases v.len() - i,
    {
        let x = v[i];
        if !(x == 44100 || x == 48000 || x == 96000 || x == 192000) {
            return false;
        }
        i = i + 1;
    }
    true
}

fn rates_match(v: &Vec<u32>) -> (b: bool)
    ensures
        b == (v@.to_set() == required_rates()),
{
    let a = contains_rate(v, 44100);
    let b = contains_rate(v, 48000);
    let c = contains_rate(v, 96000);
    let d = contains_rate(v, 192000);
    let only = all_required(v);
    proof {
        if a && b && c && d && only {
            assert forall|x: u32| v@.to_set().contains(x) <==> required_rates().contains(x) by {
                if v@.contains(x) {
                    let k = choose|k: int| 0 <= k < v.len() && v@[k] == x;
                    assert(required_rates().contains(v@[k]));
                }
            }
            assert(v@.to_set() =~= required_rates());
        } else if !(a && b && c && d) {
            if !a {
                assert(!v@.to_set().contains(44100u32));
                assert(required_rates().contains(44100u32));
            } else if !b {
                assert(!v@.to_set().contains(48000u32));
                assert(required_rates().contains(48000u32));
            } else if !c {
                assert(!v@.to_set().contains(96000u32));
                assert(required_rates().contains(96000u32));
            } else {
                assert(!v@.to_set().contains(192000u32));
                assert(required_rates().contains(192000u32));
            }
        } else {
            let k = choose|k: int| 0 <= k < v.len() && !required_rates().contains(v@[k]);
            assert(v@.to_set().contains(v@[k]));
        }
    }
    a && b && c && d && only
}

fn backends_match(v: &Vec<Backend>) -> (b: bool)
    requires
        v.len() == 2,
    ensures
        b == (v@.to_set() == set![Backend::Aloop, Backend::Ioplug]),
{
    let r = v[0] != v[1];
    proof {
        let want = set![Backend::Aloop, Backend::Ioplug];
        if r {
            assert forall|x: Backend| v@.to_set().contains(x) <==> want.contains(x) by {
                if want.contains(x) {
                    if x == v@[0] {
                        assert(v@.contains(v@[0]));
                    } else {
                        assert(x == v@[1]);
                        assert(v@.contains(v@[1]));
                    }
                }
                if v@.contains(x) {
                    let k = choose|k: int| 0 <= k < v.len() && v@[k] == x;
                }
            }
            assert(v@.to_set() =~= want);
        } else {
            let other = if v@[0] == Backend::Aloop {
                Backend::Ioplug
            } else {
                Backend::Aloop
            };
            assert(want.contains(other));
            if v@.contains(other) {
                let k = choose|k: int| 0 <= k < v.len() && v@[k] == other;
            }
            assert(!v@.to_set().contains(other));
        }
    }
    r
}

/// Check a benchmark plan before a report is rendered from it: its version,
/// the environment, and the backends of its runs.
pub fn validate_plan(version: u32, environment: &BenchmarkEnvironment, run_backends: &Vec<Backend>) -> (r: AppResult<()>)
    ensures
        match plan_check(version, *environment, run_backends@) {
            Ok(()) => r is Ok,
            Err(m) => r matches Err(e) && e.message@ == m,
        },
{
    if version != BENCHMARK_PLAN_VERSION {
        let mut s = "benchmark plan version must be ".to_string();
        push_decimal(&mut s, BENCHMARK_PLAN_VERSION as u64);
        s.append(", got ");
        push_decimal(&mut s, version as u64);
        return Err(app_error(s));
    }
    let e = environment;
    let ghost fs = environment_fields(*e);
    proof {
        reveal_with_fuel(first_blank, 7);
        assert(fs.drop_first().drop_first().drop_first().drop_first().drop_first().drop_first().len() == 0);
    }
    ensure_nonempty("environment.raspberry_pi", e.raspberry_pi.as_str())?;
    ensure_nonempty("environment.picoreplayer_version", e.picoreplayer_version.as_str())?;
    ensure_nonempty("environment.camilladsp_version", e.camilladsp_version.as_str())?;
    ensure_nonempty("environment.dac", e.dac.as_str())?;
    ensure_nonempty("environment.dsp_config", e.dsp_config.as_str())?;
    ensure_nonempty("environment.track", e.track.as_str())?;
    if e.chunksize == 0 {
        return Err(app_error_str("environment.chunksize must be greater than zero"));
    }
    if e.queuelimit == 0 {
        return Err(app_error_str("environment.queuelimit must be greater than zero"));
    }
    if !rates_match(&e.sample_rates_hz) {
        return Err(app_error_str("environment.sample_rates_hz must contain exactly [44100, 48000, 96000, 192000]"));
    }
    if run_backends.len() != 2 {
        return Err(app_error_str("benchmark plan must contain exactly two runs: one aloop and one ioplug"));
    }
    if !backends_match(run_backends) {
        return Err(app_error_str("benchmark plan must contain exactly one aloop run and one ioplug run"));
    }
    Ok(())
}

/// What a run's recorded stability checks say about its backend.
#[derive(Clone, Copy, Debug, Eq, PartialEq, Structural)]
pub enum BackendHealth {
    ReadyForLatencyExperiments,
    NeedsStabilityWork,
    Incomplete,
}

/// The stability checks of a benchmark run: its XRUN count and the three
/// pass/fail checks, each absent until recorded.
#[derive(Clone, Copy, Debug)]
pub struct StabilityMetrics {
    pub xrun_count: Option<u64>,
    pub stability_24h_passed: Option<bool>,
    pub stability_7d_passed: Option<bool>,
    pub recovery_after_dac_error_passed: Option<bool>,
}

/// A run needs stability work when it had XRUNs or failed a check; it is
/// ready for latency experiments when all checks are recorded and passed;
/// otherwise its data is incomplete.
pub open spec fn health_of(m: StabilityMetrics) -> BackendHealth {
    if (m.xrun_count matches Some(x) && x > 0) || m.stability_24h_passed == Some(false)
        || m.stability_7d_passed == Some(false) || m.recovery_after_dac_error_passed == Some(false) {
        BackendHealth::NeedsStabilityWork
    } else if m.xrun_count is Some && m.stability_24h_passed == Some(true) && m.stability_7d_passed == Some(
        true,
    ) && m.recovery_after_dac_error_passed == Some(true) {
        BackendHealth::ReadyForLatencyExperiments
    } else {
        BackendHealth::Incomplete
    }
}

fn is_flag(v: Option<bool>, want: bool) -> (b: bool)
    ensures
        b == (v == Some(want)),
{
    match v {
        Some(x) => x == want,
        None => false,
    }
}

/// Classify a run by its stability checks.
pub fn classify_health(m: &StabilityMetrics) -> (h: BackendHealth)
    ensures
        h == health_of(*m),
{
    let xruns = match m.xrun_count {
        Some(x) => x > 0,
        None => false,
    };
    if xruns || is_flag(m.stability_24h_passed, false) || is_flag(m.stability_7d_passed, false)
        || is_flag(m.recovery_after_dac_error_passed, false) {
        BackendHealth::NeedsStabilityWork
    } else if m.xrun_count.is_some() && is_flag(m.stability_24h_passed, true) && is_flag(
        m.stability_7d_passed,
        true,
    ) && is_flag(m.recovery_after_dac_error_passed, true) {
        BackendHealth::ReadyForLatencyExperiments
    } else {
        BackendHealth::Incomplete
    }
}

/// The tuning advice a report gives for a backend in a given health.
pub open spec fn health_advice(b: Backend, h: BackendHealth) -> Seq<char> {
    match h {
        BackendHealth::NeedsStabilityWork => {
            let head = backend_label(b)
                + " shows XRUNs or failed stability/recovery checks; prioritize correctness before reducing latency. Increase ALSA period/buffer sizes, CamillaDSP chunksize/queuelimit"@;
            if b == Backend::Ioplug {
                head + ", and ioplug ringbuffer depth/pipe size"@ + "."@
            } else {
                head + "."@
            }
        },
        BackendHealth::ReadyForLatencyExperiments => backend_label(b)
            + " is stable in the recorded checks. It is a good candidate for stepwise latency experiments: lower chunksize/queuelimit first, then re-measure ALSA period/buffer settings and DAC buffering."@,
        BackendHealth::Incomplete => backend_label(b)
            + " is missing stability or XRUN data; collect 24h, 7d, recovery-after-DAC-error, and XRUN measurements before tuning for minimum latency."@,
    }
}

/// The tuning advice a report gives for a backend in a given health.
pub fn health_recommendation(backend: Backend, health: BackendHealth) -> (s: String)
    ensures
        s@ == health_advice(backend, health),
{
    let name = backend_name(backend);
    match health {
        BackendHealth::NeedsStabilityWork => {
            let mut m = concat2(
                name,
                " shows XRUNs or failed stability/recovery checks; prioritize correctness before reducing latency. Increase ALSA period/buffer sizes, CamillaDSP chunksize/queuelimit",
            );
            if backend == Backend::Ioplug {
                m.append(", and ioplug ringbuffer depth/pipe size");
            }
            m.append(".");
            m
        },
        BackendHealth::ReadyForLatencyExperiments => concat2(
            name,
            " is stable in the recorded checks. It is a good candidate for stepwise latency experiments: lower chunksize/queuelimit first, then re-measure ALSA period/buffer settings and DAC buffering.",
        ),
        BackendHealth::Incomplete => concat2(
            name,
            " is missing stability or XRUN data; collect 24h, 7d, recovery-after-DAC-error, and XRUN measurements before tuning for minimum latency.",
        ),
    }
}

/// The report's verdict on which backend leads the latency comparison,
/// from the number of latency metrics each one won.
pub open spec fn latency_verdict(aloop_wins: nat, ioplug_wins: nat) -> Seq<char> {
    if aloop_wins > ioplug_wins {
        "aloop currently leads the software-visible latency comparison by "@ + dec_string(aloop_wins) + " to "@
            + dec_string(ioplug_wins) + ". Keep it as the reference point while tuning ioplug."@
    } else if aloop_wins < ioplug_wins {
        "ioplug currently leads the software-visible latency comparison by "@ + dec_string(ioplug_wins) + " to "@
            + dec_string(aloop_wins)
            + ". Focus Phase 16 tuning on the best stable ioplug chunksize/queuelimit and backend-specific ringbuffer settings."@
    } else {
        "Neither backend is a clear latency winner from the recorded software-visible metrics yet; keep measuring start, stop, transport, and rate-transition timings for both."@
    }
}

/// The report's verdict on which backend leads the latency comparison.
pub fn latency_leader_message(aloop_wins: u64, ioplug_wins: u64) -> (s: String)
    ensures
        s@ == latency_verdict(aloop_wins as nat, ioplug_wins as nat),
{
    if aloop_wins > ioplug_wins {
        let mut m = "aloop currently leads the software-visible latency comparison by ".to_string();
        push_decimal(&mut m, aloop_wins);
        m.append(" to ");
        push_decimal(&mut m, ioplug_wins);
        m.append(". Keep it as the reference point while tuning ioplug.");
        m
    } else if aloop_wins < ioplug_wins {
        let mut m = "ioplug currently leads the software-visible latency comparison by ".to_string();
        push_decimal(&mut m, ioplug_wins);
        m.append(" to ");
        push_decimal(&mut m, aloop_wins);
        m.append(
            ". Focus Phase 16 tuning on the best stable ioplug chunksize/queuelimit and backend-specific ringbuffer settings.",
        );
        m
    } else {
        "Neither backend is a clear latency winner from the recorded software-visible metrics yet; keep measuring start, stop, transport, and rate-transition timings for both.".to_string()
    }
}

} // verus!
