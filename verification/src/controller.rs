//! The ioplug controller loop: for each stream, wait out any retry backoff,
//! wait for the plugin's START, adapt and write the runtime config, spawn
//! CamillaDSP, check that it came up, hand the plugin its pipe, watch the
//! stream until it ends, and keep the retry state across streams.
//!
//! The loop's decisions are a state machine, [`IoplugLoop`]: each call of
//! [`IoplugLoop::step`] takes the outcome of the last action and names the
//! next one. Performing the actions (sockets, files, processes) is left to
//! the caller.
use crate::backend::{EventView, StreamEvent};
use crate::core_logic::config::{WaveFormat, WaveView};
use crate::core_logic::recovery::{
    fresh_retry, ConfigFingerprint, FingerprintView, RejectionReason, RetryState, RetryView,
};
use crate::error::{AppError, AppResult};
use crate::text::{copy_string, dec_string, opt_view, u64_to_string};
use std::path::Path;
use vstd::prelude::*;

verus! {

/// File name of the transient per-stream runtime YAML of the ioplug backend.
pub const IOPLUG_RUNTIME_CONFIG_NAME: &'static str = "camilladsp_runtime.yml";

/// The parent of a path as `Path::parent` gives it.
pub uninterp spec fn path_parent(p: Seq<char>) -> Option<Seq<char>>;

/// A path joined with a further component as `Path::join` gives it.
pub uninterp spec fn path_join(base: Seq<char>, name: Seq<char>) -> Seq<char>;

/// `Path::new(p).parent()`, as a string. The result is named
/// [`path_parent`]; of a path given as a `&str` the parent is valid UTF-8,
/// so the conversion loses nothing.
#[verifier::external_body]
fn std_path_parent(p: &str) -> (r: Option<String>)
    ensures
        opt_view(r) == path_parent(p@),
{
    Path::new(p).parent().map(|q| q.to_string_lossy().into_owned())
}

/// `Path::new(base).join(name)`, as a string. The result is named [`path_join`].
#[verifier::external_body]
fn std_path_join(base: &str, name: &str) -> (r: String)
    ensures
        r@ == path_join(base@, name@),
{
    Path::new(base).join(name).to_string_lossy().into_owned()
}

/// The directory a runtime file goes to, given the parent of the socket
/// path: that parent, or the current directory where there is none or it
/// is empty.
pub open spec fn runtime_dir(parent: Option<Seq<char>>) -> Seq<char> {
    match parent {
        Some(p) => if p.len() == 0 {
            "."@
        } else {
            p
        },
        None => "."@,
    }
}

/// The directory a runtime file goes to, given the parent of the socket path.
pub fn runtime_dir_of(parent: Option<String>) -> (d: String)
    ensures
        d@ == runtime_dir(opt_view(parent)),
{
    match parent {
        Some(p) => if p.as_str().unicode_len() == 0 {
            ".".to_string()
        } else {
            p
        },
        None => ".".to_string(),
    }
}

/// Where the ioplug backend writes its runtime config: next to the control
/// socket, or in the current directory for a bare socket name.
pub fn ioplug_runtime_config_path(socket_path: &str) -> (r: String)
    ensures
        r@ == path_join(runtime_dir(path_parent(socket_path@)), IOPLUG_RUNTIME_CONFIG_NAME@),
{
    let dir = runtime_dir_of(std_path_parent(socket_path));
    std_path_join(dir.as_str(), IOPLUG_RUNTIME_CONFIG_NAME)
}

/// The command-line arguments every CamillaDSP the ioplug loop spawns gets
/// after its config path: the WebSocket port and address, a rotated log
/// file, and the statefile where one is configured.
pub open spec fn cdsp_args(port: u16, host: Seq<char>, statefile: Option<Seq<char>>) -> Seq<Seq<char>> {
    seq![
        "--port"@,
        dec_string(port as nat),
        "--address"@,
        host,
        "--logfile"@,
        "/tmp/camilladsp.log"@,
        "--log_rotate_size"@,
        "262144"@,
        "--log_keep_nbr"@,
        "1"@,
    ] + match statefile {
        Some(sf) => seq!["--statefile"@, sf],
        None => seq![],
    }
}

/// The extra CamillaDSP arguments of the ioplug loop.
pub fn cdsp_extra_args(port: u16, host: &str, statefile: Option<&str>) -> (r: Vec<String>)
    ensures
        r@.map_values(|a: String| a@) == cdsp_args(
            port,
            host@,
            match statefile {
                Some(s) => Some(s@),
                None => None,
            },
        ),
{
    let mut v: Vec<String> = Vec::new();
    v.push("--port".to_string());
    v.push(u64_to_string(port as u64));
    v.push("--address".to_string());
    v.push(host.to_string());
    v.push("--logfile".to_string());
    v.push("/tmp/camilladsp.log".to_string());
    v.push("--log_rotate_size".to_string());
    v.push("262144".to_string());
    v.push("--log_keep_nbr".to_string());
    v.push("1".to_string());
    match statefile {
        Some(sf) => {
            v.push("--statefile".to_string());
            v.push(sf.to_string());
        },
        None => {},
    }
    proof {
        assert(v@.map_values(|a: String| a@) =~= cdsp_args(
            port,
            host@,
            match statefile {
                Some(s) => Some(s@),
                None => None,
            },
        ));
    }
    v
}

/// The error the controller reports to the plugin when it cannot serve a START.
#[derive(Clone, Copy, Debug, Eq, PartialEq, Structural)]
pub enum PluginError {
    /// The config could not be adapted or written.
    Config,
    /// CamillaDSP could not be started, or the controller is backing off.
    Internal,
}

/// Where the ioplug loop stands.
#[derive(Clone, Copy, Debug, Eq, PartialEq, Structural)]
pub enum IoplugPhase {
    /// Backing off: sample the config fingerprint.
    Backoff,
    /// Backing off: poll the plugin socket briefly.
    BackoffPoll,
    /// Waiting for a plugin's START.
    AwaitStart,
    /// Waiting for a START while latched: sample the config fingerprint.
    AwaitFingerprint,
    /// Adapting the config for the stream.
    Adapting,
    /// Writing the runtime config.
    Writing,
    /// Spawning CamillaDSP.
    Spawning,
    /// Checking that CamillaDSP survived its start.
    Checking,
    /// Sending READY and the pipe to the plugin.
    Readying,
    /// Streaming: check that CamillaDSP still runs.
    Live,
    /// Streaming: poll the plugin for STOP.
    LivePoll,
    /// Finishing a stream or a rejection; back to the top after it.
    Settling,
    /// The loop ended with an error.
    Failed,
}

/// The outcome of the last action.
pub enum IoplugEvent {
    /// A fresh sample of the config fingerprint.
    Fingerprint(ConfigFingerprint),
    /// The result of polling the plugin socket.
    Polled(AppResult<Option<StreamEvent>>),
    /// The adapted runtime config, or why adapting failed.
    Adapted(AppResult<String>),
    /// Whether the runtime config was written.
    Written(bool),
    /// Whether CamillaDSP was spawned.
    Spawned(bool),
    /// Whether CamillaDSP survived its start.
    StartupChecked(bool),
    /// Whether READY and the pipe reached the plugin.
    ReadySent(bool),
    /// Whether CamillaDSP still runs.
    Liveness(bool),
    /// An action without a result was performed.
    Done,
}

/// The view of a poll result.
pub open spec fn polled_view(r: AppResult<Option<StreamEvent>>) -> Result<Option<EventView>, Seq<char>> {
    match r {
        Ok(Some(e)) => Ok(Some(e@)),
        Ok(None) => Ok(None),
        Err(e) => Err(e.message@),
    }
}

/// The mathematical value of an [`IoplugEvent`].
pub enum IoplugEventView {
    Fingerprint(FingerprintView),
    Polled(Result<Option<EventView>, Seq<char>>),
    Adapted(Result<Seq<char>, Seq<char>>),
    Written(bool),
    Spawned(bool),
    StartupChecked(bool),
    ReadySent(bool),
    Liveness(bool),
    Done,
}

impl View for IoplugEvent {
    type V = IoplugEventView;

    open spec fn view(&self) -> IoplugEventView {
        match self {
            IoplugEvent::Fingerprint(f) => IoplugEventView::Fingerprint(f@),
            IoplugEvent::Polled(r) => IoplugEventView::Polled(polled_view(*r)),
            IoplugEvent::Adapted(r) => IoplugEventView::Adapted(
                match r {
                    Ok(y) => Ok(y@),
                    Err(e) => Err(e.message@),
                },
            ),
            IoplugEvent::Written(b) => IoplugEventView::Written(*b),
            IoplugEvent::Spawned(b) => IoplugEventView::Spawned(*b),
            IoplugEvent::StartupChecked(b) => IoplugEventView::StartupChecked(*b),
            IoplugEvent::ReadySent(b) => IoplugEventView::ReadySent(*b),
            IoplugEvent::Liveness(b) => IoplugEventView::Liveness(*b),
            IoplugEvent::Done => IoplugEventView::Done,
        }
    }
}

/// What the caller is to do next.
pub enum IoplugAction {
    /// Sample the fingerprint of the baseline config; answer `Fingerprint`.
    SampleFingerprint,
    /// Poll the plugin socket for up to this many milliseconds; answer `Polled`.
    Poll(u32),
    /// Send this error to the waiting plugin; answer `Done`.
    Reject(PluginError),
    /// Adapt the baseline config for this stream format; answer `Adapted`.
    Adapt(WaveFormat),
    /// Write this YAML to the runtime config path; answer `Written`.
    WriteRuntime(String),
    /// Prime the CamillaDSP statefile where one is configured, then spawn
    /// CamillaDSP on the runtime config; answer `Spawned`.
    Spawn,
    /// Check that CamillaDSP is still up shortly after its start; answer `StartupChecked`.
    CheckStartup,
    /// Send READY with the pipe write end to the plugin and, on success, drop
    /// the controller's own write end; answer `ReadySent`.
    SendReady,
    /// Check whether CamillaDSP still runs; answer `Liveness`.
    CheckLiveness,
    /// Stop CamillaDSP, then send the error to the plugin if there is one; answer `Done`.
    StopStream(Option<PluginError>),
    /// End the loop with this error.
    Fail(AppError),
}

/// The mathematical value of an [`IoplugAction`].
pub enum IoplugActionView {
    SampleFingerprint,
    Poll(u32),
    Reject(PluginError),
    Adapt(WaveView),
    WriteRuntime(Seq<char>),
    Spawn,
    CheckStartup,
    SendReady,
    CheckLiveness,
    StopStream(Option<PluginError>),
    Fail(Seq<char>),
}

impl View for IoplugAction {
    type V = IoplugActionView;

    open spec fn view(&self) -> IoplugActionView {
        match self {
            IoplugAction::SampleFingerprint => IoplugActionView::SampleFingerprint,
            IoplugAction::Poll(ms) => IoplugActionView::Poll(*ms),
            IoplugAction::Reject(e) => IoplugActionView::Reject(*e),
            IoplugAction::Adapt(w) => IoplugActionView::Adapt(w@),
            IoplugAction::WriteRuntime(y) => IoplugActionView::WriteRuntime(y@),
            IoplugAction::Spawn => IoplugActionView::Spawn,
            IoplugAction::CheckStartup => IoplugActionView::CheckStartup,
            IoplugAction::SendReady => IoplugActionView::SendReady,
            IoplugAction::CheckLiveness => IoplugActionView::CheckLiveness,
            IoplugAction::StopStream(e) => IoplugActionView::StopStream(*e),
            IoplugAction::Fail(e) => IoplugActionView::Fail(e.message@),
        }
    }
}

/// The abstract state of an [`IoplugLoop`].
pub struct IoplugView {
    pub retry: RetryView,
    pub fingerprint: FingerprintView,
    pub phase: IoplugPhase,
}

/// The stream format a START announces.
pub open spec fn start_wave(rate: u32, format: Seq<char>, channels: u32) -> WaveView {
    WaveView { sample_rate: Some(rate), sample_format: Some(format), channels: Some(channels) }
}

/// The retry state after a permanent error.
pub open spec fn latched(r: RetryView) -> RetryView {
    RetryView { latched: true, reason: Some(RejectionReason::Internal), ..r }
}

/// The retry state after one more failed attempt.
pub open spec fn attempted(r: RetryView) -> RetryView {
    RetryView {
        consecutive: r.consecutive + 1,
        scheduled: true,
        latched: r.latched,
        reason: Some(RejectionReason::Internal),
    }
}

/// Back at the top of the loop with retry state `r` and fingerprint `fp`:
/// a latched state backs off; a state without a backoff window waits for a
/// START at once; otherwise the clock decides which of the two.
pub open spec fn at_top(r: RetryView, fp: FingerprintView, n: IoplugView, a: IoplugActionView) -> bool {
    let backoff = n == (IoplugView { retry: r, fingerprint: fp, phase: IoplugPhase::Backoff })
        && a == IoplugActionView::SampleFingerprint;
    let waiting = n == (IoplugView { retry: r, fingerprint: fp, phase: IoplugPhase::AwaitStart })
        && a == IoplugActionView::Poll(200);
    if r.latched {
        backoff
    } else if !r.scheduled {
        waiting
    } else {
        backoff || waiting
    }
}

/// `o` in phase `p` with retry state `r`.
pub open spec fn moved(o: IoplugView, r: RetryView, p: IoplugPhase) -> IoplugView {
    IoplugView { retry: r, phase: p, ..o }
}

/// Whether the loop in phase `p` can take the event `e`.
pub open spec fn accepts(p: IoplugPhase, e: IoplugEventView) -> bool {
    match p {
        IoplugPhase::Backoff | IoplugPhase::AwaitFingerprint => e is Fingerprint,
        IoplugPhase::BackoffPoll | IoplugPhase::AwaitStart | IoplugPhase::LivePoll => e is Polled,
        IoplugPhase::Adapting => e is Adapted,
        IoplugPhase::Writing => e is Written,
        IoplugPhase::Spawning => e is Spawned,
        IoplugPhase::Checking => e is StartupChecked,
        IoplugPhase::Readying => e is ReadySent,
        IoplugPhase::Live => e is Liveness,
        IoplugPhase::Settling => e is Done,
        IoplugPhase::Failed => false,
    }
}

/// One step of the ioplug loop from `o`, on the outcome `e`, to `n`, naming
/// the next action `a`.
pub open spec fn ioplug_next(o: IoplugView, e: IoplugEventView, n: IoplugView, a: IoplugActionView) -> bool {
    match e {
        IoplugEventView::Fingerprint(fp) => if o.phase is Backoff {
            if fp != o.fingerprint {
                at_top(fresh_retry(), fp, n, a)
            } else {
                n == moved(o, o.retry, IoplugPhase::BackoffPoll) && a == IoplugActionView::Poll(100)
            }
        } else {
            a == IoplugActionView::Poll(200) && if fp != o.fingerprint {
                n == (IoplugView { retry: fresh_retry(), fingerprint: fp, phase: IoplugPhase::AwaitStart })
            } else {
                n == moved(o, o.retry, IoplugPhase::AwaitStart)
            }
        },
        IoplugEventView::Polled(r) => if o.phase is BackoffPoll {
            if r matches Ok(Some(EventView::Started(_))) {
                n == moved(o, o.retry, IoplugPhase::Settling) && a == IoplugActionView::Reject(
                    PluginError::Internal,
                )
            } else {
                at_top(o.retry, o.fingerprint, n, a)
            }
        } else if o.phase is AwaitStart {
            match r {
                Err(m) => n == moved(o, o.retry, IoplugPhase::Failed) && a == IoplugActionView::Fail(m),
                Ok(Some(EventView::Started(p))) => n == moved(o, o.retry, IoplugPhase::Adapting) && a
                    == IoplugActionView::Adapt(start_wave(p.rate, p.format, p.channels)),
                Ok(_) => if o.retry.latched {
                    n == moved(o, o.retry, IoplugPhase::AwaitFingerprint) && a
                        == IoplugActionView::SampleFingerprint
                } else {
                    n == o && a == IoplugActionView::Poll(200)
                },
            }
        } else {
            match r {
                Err(m) => n == moved(o, o.retry, IoplugPhase::Failed) && a == IoplugActionView::Fail(m),
                Ok(Some(EventView::Stopped)) => n == moved(o, fresh_retry(), IoplugPhase::Settling) && a
                    == IoplugActionView::StopStream(None),
                Ok(_) => n == moved(o, o.retry, IoplugPhase::Live) && a == IoplugActionView::CheckLiveness,
            }
        },
        IoplugEventView::Adapted(r) => match r {
            Ok(y) => n == moved(o, o.retry, IoplugPhase::Writing) && a == IoplugActionView::WriteRuntime(y),
            Err(_) => n == moved(o, latched(o.retry), IoplugPhase::Settling) && a == IoplugActionView::Reject(
                PluginError::Config,
            ),
        },
        IoplugEventView::Written(ok) => if ok {
            n == moved(o, o.retry, IoplugPhase::Spawning) && a == IoplugActionView::Spawn
        } else {
            n == moved(o, latched(o.retry), IoplugPhase::Settling) && a == IoplugActionView::Reject(
                PluginError::Config,
            )
        },
        IoplugEventView::Spawned(ok) => if ok {
            n == moved(o, o.retry, IoplugPhase::Checking) && a == IoplugActionView::CheckStartup
        } else {
            n == moved(o, attempted(o.retry), IoplugPhase::Settling) && a == IoplugActionView::Reject(
                PluginError::Internal,
            )
        },
        IoplugEventView::StartupChecked(ok) => if ok {
            n == moved(o, o.retry, IoplugPhase::Readying) && a == IoplugActionView::SendReady
        } else {
            n == moved(o, attempted(o.retry), IoplugPhase::Settling) && a == IoplugActionView::StopStream(
                Some(PluginError::Internal),
            )
        },
        IoplugEventView::ReadySent(ok) => if ok {
            n == moved(o, o.retry, IoplugPhase::Live) && a == IoplugActionView::CheckLiveness
        } else {
            n == moved(o, attempted(o.retry), IoplugPhase::Settling) && a == IoplugActionView::StopStream(None)
        },
        IoplugEventView::Liveness(ok) => if ok {
            n == moved(o, o.retry, IoplugPhase::LivePoll) && a == IoplugActionView::Poll(200)
        } else {
            n == moved(o, attempted(o.retry), IoplugPhase::Settling) && a == IoplugActionView::StopStream(None)
        },
        IoplugEventView::Done => at_top(o.retry, o.fingerprint, n, a),
    }
}

/// The loop's invariant: the retry latch is only ever set while the loop
/// backs off, finishes a rejected or ended stream, or has stopped.
pub open spec fn ioplug_inv(v: IoplugView) -> bool {
    v.retry.latched ==> (v.phase is Backoff || v.phase is BackoffPoll || v.phase is Settling
        || v.phase is Failed)
}

/// Every step of the ioplug loop keeps [`ioplug_inv`].
pub proof fn law_ioplug_step_keeps_invariant(o: IoplugView, e: IoplugEventView, n: IoplugView, a: IoplugActionView)
    requires
        ioplug_inv(o),
        accepts(o.phase, e),
        ioplug_next(o, e, n, a),
    ensures
        ioplug_inv(n),
{
}

/// While the retry latch is set, no step of the loop goes on to adapt a
/// config, write it, or spawn CamillaDSP: a plugin that connects is turned
/// away until the config file changes.
pub proof fn law_latch_blocks_streams(o: IoplugView, e: IoplugEventView, n: IoplugView, a: IoplugActionView)
    requires
        ioplug_inv(o),
        o.retry.latched,
        accepts(o.phase, e),
        ioplug_next(o, e, n, a),
    ensures
        !(a is Adapt),
        !(a is WriteRuntime),
        !(a is Spawn),
        !(a is SendReady),
        n.retry.latched ==> n.phase is Backoff || n.phase is BackoffPoll || n.phase is Settling,
{
}

/// A stream that ends with the plugin's STOP leaves a fresh retry state.
pub proof fn law_clean_stop_resets_retry(o: IoplugView, n: IoplugView, a: IoplugActionView)
    requires
        o.phase is LivePoll,
        ioplug_next(o, IoplugEventView::Polled(Ok(Some(EventView::Stopped))), n, a),
    ensures
        n.retry == fresh_retry(),
        a == IoplugActionView::StopStream(None),
{
}

/// While streaming, the liveness check decides: a CamillaDSP that is no
/// longer running stops the stream (the plugin gets no error) and counts one
/// more failed attempt, so the next start backs off; the loop never polls on
/// as if streaming. A running CamillaDSP keeps the stream going: the loop
/// polls the plugin next and the retry state is untouched.
pub proof fn law_liveness_decides_the_stream(o: IoplugView, alive: bool, n: IoplugView, a: IoplugActionView)
    requires
        o.phase is Live,
        ioplug_next(o, IoplugEventView::Liveness(alive), n, a),
    ensures
        !alive ==> {
            &&& a == IoplugActionView::StopStream(None)
            &&& n.phase is Settling
            &&& n.retry.consecutive == o.retry.consecutive + 1
            &&& n.retry.scheduled
        },
        alive ==> a is Poll && n.phase is LivePoll && n.retry == o.retry,
        n.fingerprint == o.fingerprint,
{
}

/// Each stage of serving a START either succeeds and goes on to the next
/// stage, or fails and ends the attempt: a config that cannot be adapted or
/// written turns the plugin away with a config error and latches until the
/// config file changes; CamillaDSP failing to spawn turns it away with an
/// internal error, and failing its startup check stops the stream with an
/// internal error to the plugin, both counting one more failed attempt; a
/// READY that cannot be delivered stops the stream and counts one too.
pub proof fn law_start_stages(o: IoplugView, e: IoplugEventView, n: IoplugView, a: IoplugActionView)
    requires
        accepts(o.phase, e),
        ioplug_next(o, e, n, a),
        o.phase is Adapting || o.phase is Writing || o.phase is Spawning || o.phase is Checking
            || o.phase is Readying,
    ensures
        n.fingerprint == o.fingerprint,
        e matches IoplugEventView::Adapted(Ok(y)) ==> n.phase is Writing && a == IoplugActionView::WriteRuntime(y)
            && n.retry == o.retry,
        e matches IoplugEventView::Adapted(Err(_)) ==> n.phase is Settling && a == IoplugActionView::Reject(
            PluginError::Config,
        ) && n.retry.latched && n.retry.consecutive == o.retry.consecutive,
        e == IoplugEventView::Written(true) ==> n.phase is Spawning && a == IoplugActionView::Spawn && n.retry
            == o.retry,
        e == IoplugEventView::Written(false) ==> n.phase is Settling && a == IoplugActionView::Reject(
            PluginError::Config,
        ) && n.retry.latched && n.retry.consecutive == o.retry.consecutive,
        e == IoplugEventView::Spawned(true) ==> n.phase is Checking && a == IoplugActionView::CheckStartup
            && n.retry == o.retry,
        e == IoplugEventView::Spawned(false) ==> n.phase is Settling && a == IoplugActionView::Reject(
            PluginError::Internal,
        ) && n.retry.consecutive == o.retry.consecutive + 1,
        e == IoplugEventView::StartupChecked(true) ==> n.phase is Readying && a == IoplugActionView::SendReady
            && n.retry == o.retry,
        e == IoplugEventView::StartupChecked(false) ==> n.phase is Settling && a == IoplugActionView::StopStream(
            Some(PluginError::Internal),
        ) && n.retry.consecutive == o.retry.consecutive + 1,
        e == IoplugEventView::ReadySent(true) ==> n.phase is Live && a == IoplugActionView::CheckLiveness
            && n.retry == o.retry,
        e == IoplugEventView::ReadySent(false) ==> n.phase is Settling && a == IoplugActionView::StopStream(None)
            && n.retry.consecutive == o.retry.consecutive + 1,
{
}

/// The plugin that sent START still waits for its answer: the config is
/// being adapted or written, or CamillaDSP spawned or checked.
pub open spec fn awaiting_answer(p: IoplugPhase) -> bool {
    p is Adapting || p is Writing || p is Spawning || p is Checking
}

/// The phases a plugin's START leads to once it was answered, before the
/// loop polls again.
pub open spec fn answered(p: IoplugPhase) -> bool {
    p is Settling || p is Readying || p is Live || p is Backoff
}

/// An action that answers the plugin: an error, a stop with an error, or
/// READY with the pipe.
pub open spec fn answers(a: IoplugActionView) -> bool {
    a is Reject || a matches IoplugActionView::StopStream(Some(_)) || a is SendReady
}

/// The number of answering actions in `acts`.
pub open spec fn answer_count(acts: Seq<IoplugActionView>) -> nat
    decreases acts.len(),
{
    if acts.len() == 0 {
        0
    } else {
        answer_count(acts.drop_last()) + if answers(acts.last()) {
            1nat
        } else {
            0nat
        }
    }
}

/// `vs`, `es` and `acts` are a run of the loop: each step goes from `vs[i]`
/// on the outcome `es[i]` to `vs[i + 1]` and names the action `acts[i]`.
pub open spec fn is_run(vs: Seq<IoplugView>, es: Seq<IoplugEventView>, acts: Seq<IoplugActionView>) -> bool {
    &&& vs.len() == es.len() + 1
    &&& acts.len() == es.len()
    &&& forall|i: int|
        0 <= i < es.len() ==> accepts(vs[i].phase, #[trigger] es[i]) && ioplug_next(vs[i], es[i], vs[i + 1], acts[i])
}

proof fn lemma_answer_step(o: IoplugView, e: IoplugEventView, n: IoplugView, a: IoplugActionView)
    requires
        accepts(o.phase, e),
        ioplug_next(o, e, n, a),
        awaiting_answer(o.phase) || answered(o.phase),
    ensures
        awaiting_answer(o.phase) ==> (awaiting_answer(n.phase) && !answers(a) && !(a is Poll)) || (answered(n.phase)
            && answers(a)),
        answered(o.phase) ==> !answers(a) && (a is Poll ==> !awaiting_answer(n.phase)) && (!(a is Poll) ==> answered(
            n.phase,
        )),
{
}

proof fn lemma_answer_prefix(vs: Seq<IoplugView>, es: Seq<IoplugEventView>, acts: Seq<IoplugActionView>, k: int)
    requires
        is_run(vs, es, acts),
        acts.len() >= 1,
        acts[0] is Adapt,
        forall|i: int| 0 <= i < acts.len() - 1 ==> !(#[trigger] acts[i] is Poll),
        1 <= k <= acts.len(),
    ensures
        k < acts.len() || !(acts[k - 1] is Poll) ==> (awaiting_answer(vs[k].phase) && answer_count(acts.take(k))
            == 0) || (answered(vs[k].phase) && answer_count(acts.take(k)) == 1),
        acts[k - 1] is Poll ==> !awaiting_answer(vs[k].phase) && answer_count(acts.take(k)) == 1,
    decreases k,
{
    assert(acts.take(k).drop_last() =~= acts.take(k - 1));
    assert(acts.take(k).last() == acts[k - 1]);
    assert(accepts(vs[k - 1].phase, es[k - 1]) && ioplug_next(vs[k - 1], es[k - 1], vs[k], acts[k - 1]));
    if k == 1 {
        assert(acts.take(0) =~= Seq::<IoplugActionView>::empty());
        assert(answer_count(acts.take(0)) == 0);
        assert(!answers(acts[0]));
        assert(answer_count(acts.take(1)) == 0);
        assert(awaiting_answer(vs[1].phase));
    } else {
        assert(k - 2 < acts.len() - 1);
        assert(!(acts[k - 2] is Poll));
        lemma_answer_prefix(vs, es, acts, k - 1);
        lemma_answer_step(vs[k - 1], es[k - 1], vs[k], acts[k - 1]);
    }
}

/// A plugin's START is answered exactly once before the loop polls again:
/// in a run that begins with the step that took the START (its action is to
/// adapt the config) and ends at the first poll after it, exactly one action
/// answers the plugin — an error (the config could not be adapted or
/// written, or CamillaDSP could not be spawned or did not survive its
/// start) or READY with the pipe.
pub proof fn law_start_answered_once_before_next_poll(
    vs: Seq<IoplugView>,
    es: Seq<IoplugEventView>,
    acts: Seq<IoplugActionView>,
)
    requires
        is_run(vs, es, acts),
        acts.len() >= 1,
        acts[0] is Adapt,
        acts.last() is Poll,
        forall|i: int| 0 <= i < acts.len() - 1 ==> !(#[trigger] acts[i] is Poll),
    ensures
        answer_count(acts) == 1,
{
    lemma_answer_prefix(vs, es, acts, acts.len() as int);
    assert(acts.take(acts.len() as int) =~= acts);
}

/// The decisions of the ioplug controller loop.
pub struct IoplugLoop {
    retry: RetryState,
    last_fingerprint: ConfigFingerprint,
    phase: IoplugPhase,
}

impl View for IoplugLoop {
    type V = IoplugView;

    closed spec fn view(&self) -> IoplugView {
        IoplugView { retry: self.retry@, fingerprint: self.last_fingerprint@, phase: self.phase }
    }
}

impl IoplugLoop {
    /// A loop with a fresh retry state and the baseline config's current
    /// fingerprint; the first action is waiting for a START.
    pub fn new(fingerprint: ConfigFingerprint) -> (r: (Self, IoplugAction))
        ensures
            r.0@ == (IoplugView { retry: fresh_retry(), fingerprint: fingerprint@, phase: IoplugPhase::AwaitStart }),
            ioplug_inv(r.0@),
            r.1@ == IoplugActionView::Poll(200),
    {
        (IoplugLoop { retry: RetryState::new(), last_fingerprint: fingerprint, phase: IoplugPhase::AwaitStart }, IoplugAction::Poll(200))
    }

    /// Where the loop stands.
    pub fn phase(&self) -> (p: IoplugPhase)
        ensures
            p == self@.phase,
    {
        self.phase
    }

    /// The number of failed attempts since the last reset.
    pub fn attempts(&self) -> (n: u32)
        ensures
            n as nat == self@.retry.consecutive,
    {
        self.retry.attempts()
    }

    /// Go back to the top of the loop: back off while the retry state says
    /// so, else wait for a START.
    fn to_top(&mut self) -> (a: IoplugAction)
        ensures
            at_top(old(self)@.retry, old(self)@.fingerprint, final(self)@, a@),
    {
        if self.retry.should_attempt() {
            self.phase = IoplugPhase::AwaitStart;
            IoplugAction::Poll(200)
        } else {
            self.phase = IoplugPhase::Backoff;
            IoplugAction::SampleFingerprint
        }
    }

    /// Take the outcome of the last action and name the next one.
    pub fn step(&mut self, event: IoplugEvent) -> (a: IoplugAction)
        requires
            old(self)@.retry.consecutive < u32::MAX,
            accepts(old(self)@.phase, event@),
        ensures
            ioplug_next(old(self)@, event@, final(self)@, a@),
    {
        match event {
            IoplugEvent::Fingerprint(fp) => {
                let changed = !fp.same_as(&self.last_fingerprint);
                if self.phase == IoplugPhase::Backoff {
                    if changed {
                        self.last_fingerprint = fp;
                        self.retry.reset();
                        self.to_top()
                    } else {
                        self.phase = IoplugPhase::BackoffPoll;
                        IoplugAction::Poll(100)
                    }
                } else {
                    if changed {
                        self.last_fingerprint = fp;
                        self.retry.reset();
                    }
                    self.phase = IoplugPhase::AwaitStart;
                    IoplugAction::Poll(200)
                }
            },
            IoplugEvent::Polled(r) => {
                if self.phase == IoplugPhase::BackoffPoll {
                    match r {
                        Ok(Some(StreamEvent::Started(_))) => {
                            self.phase = IoplugPhase::Settling;
                            IoplugAction::Reject(PluginError::Internal)
                        },
                        _ => self.to_top(),
                    }
                } else if self.phase == IoplugPhase::AwaitStart {
                    match r {
                        Err(e) => {
                            self.phase = IoplugPhase::Failed;
                            IoplugAction::Fail(e)
                        },
                        Ok(Some(StreamEvent::Started(p))) => {
                            self.phase = IoplugPhase::Adapting;
                            IoplugAction::Adapt(
                                WaveFormat {
                                    sample_rate: Some(p.rate),
                                    sample_format: Some(p.format),
                                    channels: Some(p.channels),
                                },
                            )
                        },
                        Ok(_) => {
                            if self.retry.is_latched() {
                                self.phase = IoplugPhase::AwaitFingerprint;
                                IoplugAction::SampleFingerprint
                            } else {
                                IoplugAction::Poll(200)
                            }
                        },
                    }
                } else {
                    match r {
                        Err(e) => {
                            self.phase = IoplugPhase::Failed;
                            IoplugAction::Fail(e)
                        },
                        Ok(Some(StreamEvent::Stopped)) => {
                            self.retry.reset();
                            self.phase = IoplugPhase::Settling;
                            IoplugAction::StopStream(None)
                        },
                        Ok(_) => {
                            self.phase = IoplugPhase::Live;
                            IoplugAction::CheckLiveness
                        },
                    }
                }
            },
            IoplugEvent::Adapted(r) => match r {
                Ok(yaml) => {
                    self.phase = IoplugPhase::Writing;
                    IoplugAction::WriteRuntime(yaml)
                },
                Err(_) => {
                    self.retry.latch();
                    self.phase = IoplugPhase::Settling;
                    IoplugAction::Reject(PluginError::Config)
                },
            },
            IoplugEvent::Written(ok) => {
                if ok {
                    self.phase = IoplugPhase::Spawning;
                    IoplugAction::Spawn
                } else {
                    self.retry.latch();
                    self.phase = IoplugPhase::Settling;
                    IoplugAction::Reject(PluginError::Config)
                }
            },
            IoplugEvent::Spawned(ok) => {
                if ok {
                    self.phase = IoplugPhase::Checking;
                    IoplugAction::CheckStartup
                } else {
                    self.retry.record_attempt();
                    self.phase = IoplugPhase::Settling;
                    IoplugAction::Reject(PluginError::Internal)
                }
            },
            IoplugEvent::StartupChecked(ok) => {
                if ok {
                    self.phase = IoplugPhase::Readying;
                    IoplugAction::SendReady
                } else {
                    self.retry.record_attempt();
                    self.phase = IoplugPhase::Settling;
                    IoplugAction::StopStream(Some(PluginError::Internal))
                }
            },
            IoplugEvent::ReadySent(ok) => {
                if ok {
                    self.phase = IoplugPhase::Live;
                    IoplugAction::CheckLiveness
                } else {
                    self.retry.record_attempt();
                    self.phase = IoplugPhase::Settling;
                    IoplugAction::StopStream(None)
                }
            },
            IoplugEvent::Liveness(ok) => {
                if ok {
                    self.phase = IoplugPhase::LivePoll;
                    IoplugAction::Poll(200)
                } else {
                    self.retry.record_attempt();
                    self.phase = IoplugPhase::Settling;
                    IoplugAction::StopStream(None)
                }
            },
            IoplugEvent::Done => self.to_top(),
        }
    }
}

} // verus!
