//! The aloop controller state machine: it ties the stream backend and the
//! CamillaDSP client together and decides when to stop, (re)start or leave
//! CamillaDSP alone.
use crate::backend::{ControllerBackend, EventView, StreamEvent};
use crate::camilladsp::websocket::{
    parse_processing_state, parse_stop_reason, processing_state_of, reply_value_view,
    stop_reason_of, CamillaClient, CommandReason, ProcessingState, ReasonView, StateView,
    StopReason, WsError, WsErrorView, ws_error_text,
};
use crate::core_logic::config::{
    wave_with_fallback, DeviceSnapshot, SnapshotView, WaveFormat, WaveView,
};
use crate::core_logic::logging::LogLevel;
use crate::core_logic::recovery::{
    fresh_retry, ConfigFingerprint, FingerprintView, RejectionReason, RetryState, RetryView,
};
use crate::core_logic::time::{elapsed_at_least_secs, instant_now};
use crate::error::{app_error, app_error_str, AppError, AppResult};
use crate::json::Json;
use crate::text::concat2;
use std::time::Instant;
use vstd::prelude::*;

verus! {

/// Matches the Python controller's 200 ms event-queue poll interval.
pub const CONTROL_LOOP_MS: u32 = 200;

/// Maximum time (seconds) the controller waits for CamillaDSP to consume a
/// pending `SetConfig` before giving up and entering normal backoff/retry.
pub const PENDING_DEADLINE_SECS: u64 = 10;

/// Maximum time (seconds) CamillaDSP may remain in `Starting` before the
/// controller forces a restart.
pub const STARTING_DEADLINE_SECS: u64 = 30;

/// After an idle `Stop`, wait at least this many seconds before re-sending it.
pub const IDLE_STOP_RETRY_SECS: u64 = 2;

/// What the controller needs from its surroundings besides the stream
/// backend and the CamillaDSP client: the active config file and a log sink.
pub trait ConfigSource {
    /// Sample the fingerprint of the config file at `path` (may be a symlink).
    fn sample_fingerprint(&self, path: &str) -> ConfigFingerprint;

    /// Re-read the config file at `path` and adapt it for `wave`, returning
    /// the YAML to send with `SetConfig`.
    fn adapt_config(&self, path: &str, wave: &WaveFormat) -> AppResult<String>;

    /// Emit one log line.
    fn log(&self, level: LogLevel, message: &str);
}

/// A command the controller sent to CamillaDSP.
pub enum CmdView {
    Stop,
    /// The config text, adapted for the stream format given with it.
    SetConfig(Seq<char>, WaveView),
    GetState,
    GetStopReason,
}

/// One command and the reply it got.
pub struct Exchange {
    pub cmd: CmdView,
    pub reply: Result<Option<Json>, WsErrorView>,
}

/// One reading of the active config: the path read, the stream format it
/// was adapted for, and the adapted text or the error message.
pub struct AdaptRecord {
    pub path: Seq<char>,
    pub wave: WaveView,
    pub result: Result<Seq<char>, Seq<char>>,
}

/// The view of the outcome of adapting the config: the text or the message.
pub open spec fn adapt_result_view(r: AppResult<String>) -> Result<Seq<char>, Seq<char>> {
    match r {
        Ok(t) => Ok(t@),
        Err(e) => Err(e.message@),
    }
}

/// The view of a fresh read of the stream state: the snapshot or the
/// error message.
pub open spec fn read_view(r: AppResult<DeviceSnapshot>) -> Result<SnapshotView, Seq<char>> {
    match r {
        Ok(s) => Ok(s@),
        Err(e) => Err(e.message@),
    }
}

/// One poll of the stream backend: the event it reported (or the error
/// message) and the stream state it observed with it.
pub struct PollRecord {
    pub event: Result<Option<EventView>, Seq<char>>,
    pub current: SnapshotView,
}

/// The view of a poll's outcome.
pub open spec fn poll_view(r: AppResult<Option<StreamEvent>>) -> Result<Option<EventView>, Seq<char>> {
    match r {
        Ok(Some(e)) => Ok(Some(e@)),
        Ok(None) => Ok(None),
        Err(e) => Err(e.message@),
    }
}

/// One answer of the clock to a timing question of the controller.
pub enum ClockCheck {
    /// Whether the retry backoff window has run out.
    BackoffElapsed(bool),
    /// Whether [`IDLE_STOP_RETRY_SECS`] have passed since the last idle `Stop`.
    IdleStopElapsed(bool),
    /// Whether [`STARTING_DEADLINE_SECS`] have passed since the pending start.
    StartingDeadline(bool),
    /// Whether [`PENDING_DEADLINE_SECS`] have passed since the pending start.
    PendingDeadline(bool),
}

/// The abstract state of a [`Controller`]: its retry state, whether a start
/// is pending, whether an idle stop has been sent, the stream format it
/// adapts for, the fallback format, the fingerprint of the config file, the
/// path of the config file, and, in order, every exchange with CamillaDSP,
/// every reading of the config file, every fingerprint sampled (with the
/// path it was taken of), every fresh read of the stream state, every poll
/// of the stream backend and every answer of the clock so far.
pub struct CtlView {
    pub retry: RetryView,
    pub pending: bool,
    pub idle_stop: bool,
    pub wave: WaveView,
    pub fallback: WaveView,
    pub fingerprint: FingerprintView,
    pub path: Seq<char>,
    pub sent: Seq<Exchange>,
    pub adapted: Seq<AdaptRecord>,
    pub sampled: Seq<(Seq<char>, FingerprintView)>,
    pub reads: Seq<Result<SnapshotView, Seq<char>>>,
    pub polls: Seq<PollRecord>,
    pub clock: Seq<ClockCheck>,
}

/// `n` continues `o`.
pub open spec fn extends(o: Seq<Exchange>, n: Seq<Exchange>) -> bool {
    o.len() <= n.len() && n.take(o.len() as int) == o
}

/// `n` continues `o` without any `SetConfig`.
pub open spec fn no_start_between(o: Seq<Exchange>, n: Seq<Exchange>) -> bool {
    extends(o, n) && forall|i: int| o.len() <= i < n.len() ==> !(n[i].cmd is SetConfig)
}

/// `n` continues `o` with `Stop` commands only.
pub open spec fn only_stops_between(o: Seq<Exchange>, n: Seq<Exchange>) -> bool {
    extends(o, n) && forall|i: int| o.len() <= i < n.len() ==> n[i].cmd is Stop
}

/// `n` is `o` with one more exchange.
pub open spec fn one_more(o: Seq<Exchange>, n: Seq<Exchange>) -> bool {
    n.len() == o.len() + 1 && n.drop_last() == o
}

proof fn lemma_push_facts(o: Seq<Exchange>, x: Exchange)
    ensures
        one_more(o, o.push(x)),
        extends(o, o.push(x)),
        o.push(x).last() == x,
{
    assert(o.push(x).drop_last() =~= o);
    assert(o.push(x).take(o.len() as int) =~= o);
}

proof fn lemma_extends_refl(o: Seq<Exchange>)
    ensures
        extends(o, o),
        no_start_between(o, o),
        only_stops_between(o, o),
{
    assert(o.take(o.len() as int) =~= o);
}

proof fn lemma_extends_trans(a: Seq<Exchange>, b: Seq<Exchange>, c: Seq<Exchange>)
    requires
        extends(a, b),
        extends(b, c),
    ensures
        extends(a, c),
{
    assert(c.take(a.len() as int) =~= c.take(b.len() as int).take(a.len() as int));
}

/// The state of `o` with its exchanges replaced by `sent`.
pub open spec fn with_sent(o: CtlView, sent: Seq<Exchange>) -> CtlView {
    CtlView { sent, ..o }
}

/// The retry state after one more recorded attempt.
pub open spec fn attempted(r: RetryView) -> RetryView {
    RetryView {
        consecutive: r.consecutive + 1,
        scheduled: true,
        latched: r.latched,
        reason: Some(RejectionReason::Internal),
    }
}

/// The retry state after a permanent error.
pub open spec fn latched(r: RetryView) -> RetryView {
    RetryView { latched: true, reason: Some(RejectionReason::Internal), ..r }
}

/// How the controller reacts to the reply to its `SetConfig`: success leaves
/// a pending start; a validation, invalid-value or unknown command error
/// latches until the config changes; a rate limit just waits for the backoff;
/// anything else is an error of the call.
pub open spec fn set_config_reaction(o: CtlView, n: CtlView, reply: Result<Option<Json>, WsErrorView>, ok: bool) -> bool {
    match reply {
        Ok(_) => ok && n.pending && n.retry == attempted(o.retry),
        Err(WsErrorView::Command(CommandReason::RateLimit, _)) => ok && n.pending == o.pending
            && n.retry == attempted(o.retry),
        Err(WsErrorView::Command(CommandReason::Shutdown, _)) => !ok && n.pending == o.pending
            && n.retry == attempted(o.retry),
        Err(WsErrorView::Command(_, _)) => ok && n.pending == o.pending && n.retry == latched(
            attempted(o.retry),
        ),
        Err(_) => !ok && n.pending == o.pending && n.retry == attempted(o.retry),
    }
}

/// The clock of `n` after a start attempt from `o`: with a backoff window
/// scheduled the clock was asked once whether it has run out, else not at all.
pub open spec fn backoff_checked(o: CtlView, n: CtlView) -> bool {
    if o.retry.scheduled {
        n.clock == o.clock.push(n.clock.last()) && n.clock.last() is BackoffElapsed
    } else {
        n.clock == o.clock
    }
}

/// A start attempt from `o` is due: no backoff window is scheduled, or the
/// clock answered (in `n`) that it has run out.
pub open spec fn backoff_due(o: CtlView, n: CtlView) -> bool {
    !o.retry.scheduled || n.clock.last() == ClockCheck::BackoffElapsed(true)
}

/// One start attempt from state `o` to state `n`.
///
/// With the latch set nothing happens. Otherwise the backoff window is
/// checked ([`backoff_checked`]); while it is open nothing else happens. A
/// due attempt reads the config file at the controller's path and adapts it
/// for the controller's stream format, recording the outcome: where that
/// fails, the controller latches and sends nothing; where it succeeds,
/// exactly one `SetConfig` with the adapted text is sent and
/// [`set_config_reaction`] describes the outcome.
pub open spec fn start_step(o: CtlView, n: CtlView, ok: bool) -> bool {
    &&& n.fallback == o.fallback
    &&& n.wave == o.wave
    &&& n.idle_stop == o.idle_stop
    &&& n.path == o.path
    &&& n.fingerprint == o.fingerprint
    &&& n.sampled == o.sampled
    &&& n.reads == o.reads
    &&& n.polls == o.polls
    &&& if o.retry.latched {
        n == o && ok
    } else {
        &&& backoff_checked(o, n)
        &&& if !backoff_due(o, n) {
            ok && n == (CtlView { clock: n.clock, ..o })
        } else {
            &&& n.adapted == o.adapted.push(n.adapted.last())
            &&& n.adapted.last().path == o.path
            &&& n.adapted.last().wave == o.wave
            &&& match n.adapted.last().result {
                Err(_) => ok && n == (CtlView {
                    retry: latched(o.retry),
                    clock: n.clock,
                    adapted: n.adapted,
                    ..o
                }),
                Ok(t) => {
                    &&& one_more(o.sent, n.sent)
                    &&& n.sent.last().cmd == CmdView::SetConfig(t, o.wave)
                    &&& set_config_reaction(o, n, n.sent.last().reply, ok)
                },
            }
        }
    }
}

/// The reply to a `GetStopReason` reports a capture format change.
pub open spec fn reports_format_change(e: Exchange) -> bool {
    &&& e.cmd is GetStopReason
    &&& e.reply matches Ok(v) && stop_reason_of(v) matches Ok(ReasonView::CaptureFormatChange(_))
}

/// No exchange in `n` after `o` reports a capture format change.
pub open spec fn no_format_change_between(o: Seq<Exchange>, n: Seq<Exchange>) -> bool {
    forall|i: int| o.len() <= i < n.len() ==> !reports_format_change(n[i])
}

/// `n` is `m` followed by a `Stop`: a failed stop ends the step with an
/// error, a successful one is followed by one start attempt.
pub open spec fn stop_then_start(m: CtlView, n: CtlView, ok: bool) -> bool {
    &&& m.sent.len() < n.sent.len()
    &&& extends(m.sent, n.sent)
    &&& n.sent[m.sent.len() as int].cmd is Stop
    &&& ({
        let mid = with_sent(m, m.sent.push(n.sent[m.sent.len() as int]));
        if n.sent[m.sent.len() as int].reply is Ok {
            start_step(mid, n, ok)
        } else {
            n == mid && !ok
        }
    })
}

/// One enforcement of the idle invariant from `o` to `n`. With the idle
/// guard armed the clock is asked whether [`IDLE_STOP_RETRY_SECS`] have
/// passed since the last idle `Stop`; where they have not, nothing else
/// happens. Otherwise exactly one `Stop` is sent, and a successful one arms
/// the idle guard and drops any pending start.
pub open spec fn idle_stop_step(o: CtlView, n: CtlView, ok: bool) -> bool {
    &&& if o.idle_stop {
        n.clock == o.clock.push(n.clock.last()) && n.clock.last() is IdleStopElapsed
    } else {
        n.clock == o.clock
    }
    &&& if o.idle_stop && n.clock.last() == ClockCheck::IdleStopElapsed(false) {
        n == (CtlView { clock: n.clock, ..o }) && ok
    } else {
        &&& one_more(o.sent, n.sent)
        &&& n.sent.last().cmd is Stop
        &&& if n.sent.last().reply is Ok {
            ok && n == (CtlView { idle_stop: true, pending: false, sent: n.sent, clock: n.clock, ..o })
        } else {
            !ok && n == (CtlView { sent: n.sent, clock: n.clock, ..o })
        }
    }
}

/// `o` with a fresh retry state and the stream format `w`.
pub open spec fn restarted_with(o: CtlView, w: WaveView) -> CtlView {
    CtlView { wave: w, retry: fresh_retry(), ..o }
}

/// The format to restart with after a capture format change: the fresh
/// stream format with the fallback filled in, with the reported rate where
/// the stream gives none; `None` where the rate is still unknown.
pub open spec fn format_change_target(w: WaveView, fallback: WaveView, rate: u32) -> Option<WaveView> {
    let eff = wave_with_fallback(w, fallback);
    let known = match eff.sample_rate {
        Some(x) => x,
        None => 0,
    };
    let eff2 = if known == 0 && rate > 0 {
        WaveView { sample_rate: Some(rate), ..eff }
    } else {
        eff
    };
    if eff2.sample_rate matches Some(x) && x > 0 {
        Some(eff2)
    } else {
        None
    }
}

/// What a capture format change leads to, given the fresh snapshot `s`: an
/// inactive source only clears the retry and pending state; an active one
/// restarts with [`format_change_target`], or is left alone when the rate is
/// unknown.
pub open spec fn format_change_outcome(o: CtlView, n: CtlView, s: SnapshotView, rate: u32, ok: bool) -> bool {
    if !s.active {
        ok && n == (CtlView { retry: fresh_retry(), pending: false, ..o })
    } else {
        match format_change_target(s.wave, o.fallback, rate) {
            None => n == o && ok,
            Some(w) => stop_then_start(restarted_with(o, w), n, ok),
        }
    }
}

/// A capture format change to `rate` handled from `o` to `n`: the stream
/// state is read afresh and recorded; a failed read is an error and changes
/// nothing else; otherwise [`format_change_outcome`] of the snapshot read.
pub open spec fn format_change_step(o: CtlView, n: CtlView, rate: u32, ok: bool) -> bool {
    let o2 = CtlView { reads: n.reads, ..o };
    &&& n.reads == o.reads.push(n.reads.last())
    &&& match n.reads.last() {
        Err(_) => n == o2 && !ok,
        Ok(s) => format_change_outcome(o2, n, s, rate, ok),
    }
}

/// How the controller reacts to the reason CamillaDSP gives for having
/// stopped, from `o` to `n`. `Done` and unknown reasons change nothing. A
/// capture format change re-reads the stream (a failed read is an error)
/// and goes by [`format_change_outcome`]. Every other reason makes one start
/// attempt when the source is active and changes nothing otherwise.
pub open spec fn stop_reason_step(o: CtlView, n: CtlView, reason: ReasonView, active: bool, ok: bool) -> bool {
    &&& extends(o.sent, n.sent)
    &&& n.fallback == o.fallback
    &&& n.idle_stop == o.idle_stop
    &&& match reason {
        ReasonView::Done => n == o && ok,
        ReasonView::Unknown(_) => n == o && ok,
        ReasonView::CaptureFormatChange(rate) => format_change_step(o, n, rate, ok),
        _ => if active {
            start_step(o, n, ok)
        } else {
            n == o && ok
        },
    }
}

/// Handling an inactive CamillaDSP from `o` to `n`: one `GetStopReason` is
/// sent. A failed or malformed reply is an error. While a start is pending
/// and no stop reason is given, the clock is asked whether the pending
/// deadline has passed: before it, the controller keeps waiting and nothing
/// else happens; after it, and in every other case, the pending start is
/// dropped and [`stop_reason_step`] follows.
pub open spec fn inactive_step(o: CtlView, n: CtlView, active: bool, ok: bool) -> bool {
    &&& o.sent.len() < n.sent.len()
    &&& extends(o.sent, n.sent)
    &&& n.sent[o.sent.len() as int].cmd is GetStopReason
    &&& ({
        let e = n.sent[o.sent.len() as int];
        let after = with_sent(o, o.sent.push(e));
        match e.reply {
            Err(_) => n == after && !ok,
            Ok(v) => match stop_reason_of(v) {
                Err(_) => n == after && !ok,
                Ok(reason) => if o.pending && reason is NoReason {
                    ||| (ok && n == (CtlView {
                        clock: o.clock.push(ClockCheck::PendingDeadline(false)),
                        ..after
                    }))
                    ||| stop_reason_step(
                        CtlView {
                            pending: false,
                            clock: o.clock.push(ClockCheck::PendingDeadline(true)),
                            ..after
                        },
                        n,
                        reason,
                        active,
                        ok,
                    )
                } else {
                    stop_reason_step(CtlView { pending: false, ..after }, n, reason, active, ok)
                },
            },
        }
    })
}

/// One check of a CamillaDSP in `Starting`, from `o` to `n`: the pending
/// timer is armed and the clock is asked whether [`STARTING_DEADLINE_SECS`]
/// have passed since it was. Before that nothing else happens; after it, the
/// pending start is dropped and the controller stops and restarts CamillaDSP.
pub open spec fn starting_step(o: CtlView, n: CtlView, ok: bool) -> bool {
    ||| (ok && n == (CtlView { pending: true, clock: o.clock.push(ClockCheck::StartingDeadline(false)), ..o }))
    ||| stop_then_start(
        CtlView { pending: false, clock: o.clock.push(ClockCheck::StartingDeadline(true)), ..o },
        n,
        ok,
    )
}

/// The retry state after a confirmed run: fresh if a start was pending or
/// attempts were counted, else unchanged.
pub open spec fn confirmed_retry(o: CtlView) -> RetryView {
    if o.pending || o.retry.consecutive > 0 {
        fresh_retry()
    } else {
        o.retry
    }
}

/// Handling the processing state `state` with the source `active` or not,
/// from `o` to `n`.
pub open spec fn processing_step(o: CtlView, n: CtlView, state: StateView, active: bool, ok: bool) -> bool {
    match state {
        StateView::Running | StateView::Paused | StateView::Stalled => if active {
            ok && n == (CtlView { pending: false, retry: confirmed_retry(o), ..o })
        } else {
            idle_stop_step(o, n, ok)
        },
        StateView::Starting => if active {
            starting_step(o, n, ok)
        } else {
            idle_stop_step(o, n, ok)
        },
        StateView::Inactive => inactive_step(CtlView { idle_stop: false, ..o }, n, active, ok),
        StateView::Unknown(_) => n == o && ok,
    }
}

/// The reaction to the stream event `ev`, reported with the stream state
/// `cur`, from `o` to `n`: a start stops CamillaDSP and starts it for the
/// new stream; a stop stops it and arms the idle guard; a format change
/// stops it and starts it again for the new format.
pub open spec fn stream_event_step(o: CtlView, n: CtlView, ev: EventView, cur: SnapshotView, ok: bool) -> bool {
    match ev {
        EventView::Started(_) => stop_then_start(
            CtlView {
                retry: fresh_retry(),
                pending: false,
                idle_stop: false,
                wave: wave_with_fallback(cur.wave, o.fallback),
                ..o
            },
            n,
            ok,
        ),
        EventView::Stopped => {
            &&& one_more(o.sent, n.sent)
            &&& n.sent.last().cmd is Stop
            &&& if n.sent.last().reply is Ok {
                ok && n == (CtlView {
                    idle_stop: true,
                    retry: fresh_retry(),
                    pending: false,
                    sent: n.sent,
                    ..o
                })
            } else {
                !ok && n == with_sent(o, n.sent)
            }
        },
        EventView::Changed(_) => {
            &&& o.sent.len() < n.sent.len()
            &&& extends(o.sent, n.sent)
            &&& n.sent[o.sent.len() as int].cmd is Stop
            &&& ({
                let stop = n.sent[o.sent.len() as int];
                let after = with_sent(o, o.sent.push(stop));
                if stop.reply is Ok {
                    start_step(
                        CtlView {
                            wave: wave_with_fallback(cur.wave, o.fallback),
                            retry: fresh_retry(),
                            pending: false,
                            ..after
                        },
                        n,
                        ok,
                    )
                } else {
                    n == after && !ok
                }
            })
        },
    }
}

/// The config file's fingerprint sampled at the controller's path and taken
/// in, from `o` to `n`: the sample is recorded; a sample equal to the
/// remembered fingerprint changes nothing else, a different one is
/// remembered and the retry state starts afresh.
pub open spec fn fingerprint_step(o: CtlView, n: CtlView) -> bool {
    let f = n.sampled.last().1;
    &&& n.sampled == o.sampled.push((o.path, f))
    &&& if f == o.fingerprint {
        n == (CtlView { sampled: n.sampled, ..o })
    } else {
        n == (CtlView { retry: fresh_retry(), fingerprint: f, sampled: n.sampled, ..o })
    }
}

/// The `GetState` query and the reaction to its answer, from `b` to `n`,
/// with the source `active` or not: one `GetState` is sent; a failed or
/// malformed reply is an error; otherwise [`processing_step`] follows.
pub open spec fn state_query_step(b: CtlView, n: CtlView, active: bool, ok: bool) -> bool {
    &&& b.sent.len() < n.sent.len()
    &&& n.sent[b.sent.len() as int].cmd is GetState
    &&& ({
        let e = n.sent[b.sent.len() as int];
        let c = with_sent(b, b.sent.push(e));
        match e.reply {
            Err(_) => n == c && !ok,
            Ok(v) => match processing_state_of(v) {
                Err(_) => n == c && !ok,
                Ok(st) => processing_step(c, n, st, active, ok),
            },
        }
    })
}

/// One loop iteration from `o` to `n`, explained by the state `a` after the
/// fingerprint check and the state `b` after the reaction to the stream
/// event. The poll of the stream backend is recorded (its event or error,
/// and the stream state observed with it): a failed poll ends the iteration
/// with its error; a failed reaction to the polled event ends it too;
/// otherwise CamillaDSP's state is queried and acted upon with that stream
/// state.
pub open spec fn loop_explained(o: CtlView, n: CtlView, ok: bool, a: CtlView, b: CtlView) -> bool {
    let p = n.polls.last();
    let a2 = CtlView { polls: o.polls.push(p), ..a };
    &&& fingerprint_step(o, a)
    &&& n.polls == o.polls.push(p)
    &&& match p.event {
        Err(_) => n == a2 && !ok,
        Ok(ev) => {
            ||| ev matches Some(e) && stream_event_step(a2, n, e, p.current, false) && !ok
            ||| {
                &&& (ev is None && b == a2) || (ev matches Some(e) && stream_event_step(a2, b, e, p.current, true))
                &&& state_query_step(b, n, p.current.active, ok)
            }
        },
    }
}

/// One iteration of the control loop from `o` to `n`, with the poll it made
/// recorded in `n`.
pub open spec fn loop_step(o: CtlView, n: CtlView, ok: bool) -> bool {
    exists|a: CtlView, b: CtlView| #[trigger] loop_explained(o, n, ok, a, b)
}

proof fn lemma_one_more_extends(o: Seq<Exchange>, n: Seq<Exchange>)
    requires
        one_more(o, n),
    ensures
        extends(o, n),
{
    assert(n.take(o.len() as int) =~= n.drop_last());
}

proof fn lemma_processing_extends(o: CtlView, n: CtlView, state: StateView, active: bool, ok: bool)
    requires
        processing_step(o, n, state, active, ok),
    ensures
        extends(o.sent, n.sent),
        n.fallback == o.fallback,
{
    lemma_extends_refl(o.sent);
    if n.sent != o.sent && one_more(o.sent, n.sent) {
        lemma_one_more_extends(o.sent, n.sent);
    }
}

proof fn lemma_push_no_start(o: Seq<Exchange>, x: Exchange)
    requires
        !(x.cmd is SetConfig),
    ensures
        no_start_between(o, o.push(x)),
{
    lemma_push_facts(o, x);
}

proof fn lemma_stop_reason_quiet(o: CtlView, n: CtlView, reason: ReasonView, active: bool, ok: bool)
    requires
        stop_reason_step(o, n, reason, active, ok),
        !(reason is CaptureFormatChange),
        !active || o.retry.latched,
    ensures
        n == o,
{
}

/// Every step of the controller on a processing state keeps the fallback
/// format and only appends to the exchanges with CamillaDSP.
pub proof fn law_processing_keeps_history(o: CtlView, n: CtlView, state: StateView, active: bool, ok: bool)
    requires
        processing_step(o, n, state, active, ok),
    ensures
        extends(o.sent, n.sent),
        n.fallback == o.fallback,
{
    lemma_processing_extends(o, n, state, active, ok);
}

/// While the source is inactive, handling any CamillaDSP processing state
/// sends no `SetConfig`, unless CamillaDSP reported a capture format change
/// in between (a fresh read of the source then decides).
pub proof fn law_inactive_source_is_not_started(o: CtlView, n: CtlView, state: StateView, ok: bool)
    requires
        processing_step(o, n, state, false, ok),
        no_format_change_between(o.sent, n.sent),
    ensures
        no_start_between(o.sent, n.sent),
{
    lemma_quiet_step(o, n, state, false, ok);
}

/// While the error latch is set, handling any CamillaDSP processing state
/// sends no `SetConfig`, unless CamillaDSP reported a capture format change
/// in between.
pub proof fn law_latch_blocks_starts(o: CtlView, n: CtlView, state: StateView, active: bool, ok: bool)
    requires
        processing_step(o, n, state, active, ok),
        o.retry.latched,
        no_format_change_between(o.sent, n.sent),
    ensures
        no_start_between(o.sent, n.sent),
{
    lemma_quiet_step(o, n, state, active, ok);
}

proof fn lemma_quiet_step(o: CtlView, n: CtlView, state: StateView, active: bool, ok: bool)
    requires
        processing_step(o, n, state, active, ok),
        !active || o.retry.latched,
        no_format_change_between(o.sent, n.sent),
    ensures
        no_start_between(o.sent, n.sent),
{
    lemma_extends_refl(o.sent);
    match state {
        StateView::Inactive => {
            let o1 = CtlView { idle_stop: false, ..o };
            let e = n.sent[o.sent.len() as int];
            let after = with_sent(o1, o1.sent.push(e));
            lemma_push_no_start(o.sent, e);
            if e.reply is Ok && stop_reason_of(e.reply->Ok_0) is Ok {
                let reason = stop_reason_of(e.reply->Ok_0)->Ok_0;
                assert(!reports_format_change(n.sent[o.sent.len() as int]));
                if o.pending && reason is NoReason {
                    let waiting = CtlView { clock: o.clock.push(ClockCheck::PendingDeadline(false)), ..after };
                    if n != waiting {
                        lemma_stop_reason_quiet(
                            CtlView { pending: false, clock: o.clock.push(ClockCheck::PendingDeadline(true)), ..after },
                            n,
                            reason,
                            active,
                            ok,
                        );
                    }
                } else {
                    lemma_stop_reason_quiet(CtlView { pending: false, ..after }, n, reason, active, ok);
                }
            }
        },
        StateView::Starting => {
            if active && n.sent != o.sent {
                let stop = n.sent[o.sent.len() as int];
                lemma_push_no_start(o.sent, stop);
            } else if n.sent != o.sent {
                lemma_push_no_start(o.sent, n.sent.last());
                assert(n.sent =~= o.sent.push(n.sent.last()));
            }
        },
        StateView::Unknown(_) => {},
        _ => {
            if !active && n.sent != o.sent {
                lemma_push_no_start(o.sent, n.sent.last());
                assert(n.sent =~= o.sent.push(n.sent.last()));
            }
        },
    }
}

/// While the retry backoff window is open (the clock answered that it has
/// not run out), a start attempt sends nothing and reads no config.
pub proof fn law_backoff_window_sends_nothing(o: CtlView, n: CtlView, ok: bool)
    requires
        start_step(o, n, ok),
        !o.retry.latched,
        o.retry.scheduled,
        n.clock.last() == ClockCheck::BackoffElapsed(false),
    ensures
        n.sent == o.sent,
        n.adapted == o.adapted,
        n.retry == o.retry,
        ok,
{
}

/// A due start attempt reads the config file afresh, at the controller's
/// path and for its stream format, and sends exactly the text it read:
/// where the read succeeded, the one command sent is `SetConfig` with that
/// text; where it failed, nothing is sent and the controller latches.
pub proof fn law_due_start_sends_the_adapted_config(o: CtlView, n: CtlView, ok: bool)
    requires
        start_step(o, n, ok),
        !o.retry.latched,
        backoff_due(o, n),
    ensures
        n.adapted.len() == o.adapted.len() + 1,
        n.adapted.last().path == o.path,
        n.adapted.last().wave == o.wave,
        n.adapted.last().result matches Ok(t) ==> n.sent.len() == o.sent.len() + 1 && n.sent.drop_last() == o.sent
            && n.sent.last().cmd == CmdView::SetConfig(t, o.wave),
        n.adapted.last().result is Err ==> n.sent == o.sent && n.retry.latched,
{
}

/// With the idle guard armed, no further idle `Stop` is sent until the
/// clock has answered that [`IDLE_STOP_RETRY_SECS`] have passed.
pub proof fn law_idle_stop_spacing(o: CtlView, n: CtlView, ok: bool)
    requires
        idle_stop_step(o, n, ok),
        o.idle_stop,
        n.clock.last() == ClockCheck::IdleStopElapsed(false),
    ensures
        n.sent == o.sent,
        n.idle_stop,
{
}

/// When CamillaDSP stopped for any reason but a finished capture, a capture
/// format change or an unrecognised one, and the source still plays, the
/// controller makes one start attempt. Where that attempt is due (no latch,
/// and no backoff window or one the clock says has run out) it reads the
/// config at the controller's path for its stream format, and sends exactly
/// one `SetConfig` with the text read, or, where reading failed, latches and
/// sends nothing.
pub proof fn law_stopped_with_active_source_restarts(o: CtlView, n: CtlView, reason: ReasonView, ok: bool)
    requires
        stop_reason_step(o, n, reason, true, ok),
        reason is NoReason || reason is CaptureError || reason is PlaybackError || reason is UnknownError
            || reason is PlaybackFormatChange,
        !o.retry.latched,
        !o.retry.scheduled || n.clock.last() == ClockCheck::BackoffElapsed(true),
    ensures
        n.adapted == o.adapted.push(n.adapted.last()),
        n.adapted.last().path == o.path,
        n.adapted.last().wave == o.wave,
        n.adapted.last().result matches Ok(t) ==> n.sent == o.sent.push(n.sent.last()) && n.sent.last().cmd
            == CmdView::SetConfig(t, o.wave),
        n.adapted.last().result is Err ==> n.sent == o.sent && n.retry.latched,
{
    assert(start_step(o, n, ok));
    if n.adapted.last().result is Ok {
        assert(n.sent =~= o.sent.push(n.sent.last()));
    }
}

/// A stop reason leads to no command and no change while the source is
/// inactive, and a finished capture or an unrecognised reason never does.
pub proof fn law_quiet_stop_reasons(o: CtlView, n: CtlView, reason: ReasonView, active: bool, ok: bool)
    requires
        stop_reason_step(o, n, reason, active, ok),
        !(reason is CaptureFormatChange),
        !active || reason is Done || reason is Unknown,
    ensures
        n == o,
        ok,
{
}

/// Once CamillaDSP is seen inactive, the idle guard is down.
pub proof fn law_inactive_clears_idle_guard(o: CtlView, n: CtlView, active: bool, ok: bool)
    requires
        processing_step(o, n, StateView::Inactive, active, ok),
    ensures
        !n.idle_stop,
{
    let o1 = CtlView { idle_stop: false, ..o };
    let e = n.sent[o.sent.len() as int];
    let after = with_sent(o1, o1.sent.push(e));
    if e.reply is Ok && stop_reason_of(e.reply->Ok_0) is Ok {
        let reason = stop_reason_of(e.reply->Ok_0)->Ok_0;
        if o.pending && reason is NoReason {
            let waiting = CtlView { clock: o.clock.push(ClockCheck::PendingDeadline(false)), ..after };
            if n != waiting {
                let o2 = CtlView { pending: false, clock: o.clock.push(ClockCheck::PendingDeadline(true)), ..after };
                assert(stop_reason_step(o2, n, reason, active, ok));
            }
        } else {
            let o2 = CtlView { pending: false, ..after };
            assert(stop_reason_step(o2, n, reason, active, ok));
        }
    }
}

/// Ties together the ALSA listener and the CamillaDSP WebSocket client,
/// implementing the control loop.
///
/// Generic over the stream backend, the CamillaDSP client and the config
/// source so that each can be replaced by a mock.
pub struct Controller<B: ControllerBackend, C: CamillaClient, S: ConfigSource> {
    client: C,
    stream_backend: B,
    source: S,
    adapt_path: String,
    fallback_wave: WaveFormat,
    /// The effective wave format used for the last (or pending) adaptation.
    current_wave: WaveFormat,
    /// Backoff/latch state for restart attempts.
    retry: RetryState,
    /// When the last accepted-but-unconfirmed `SetConfig` was sent.
    pending_since: Option<Instant>,
    /// When the last idle `Stop` was sent.
    idle_stop_since: Option<Instant>,
    /// Fingerprint of the active config at the last check.
    config_fp: ConfigFingerprint,
    log_level: LogLevel,
    sent: Ghost<Seq<Exchange>>,
    /// Every reading of the config file, in order.
    adapted: Ghost<Seq<AdaptRecord>>,
    /// Every fingerprint sampled, with its path, in order.
    sampled: Ghost<Seq<(Seq<char>, FingerprintView)>>,
    /// Every fresh read of the stream state, in order.
    reads: Ghost<Seq<Result<SnapshotView, Seq<char>>>>,
    /// Every poll of the stream backend, in order.
    polls: Ghost<Seq<PollRecord>>,
    /// Every answer of the clock, in order.
    clock: Ghost<Seq<ClockCheck>>,
}

impl<B: ControllerBackend, C: CamillaClient, S: ConfigSource> View for Controller<B, C, S> {
    type V = CtlView;

    closed spec fn view(&self) -> CtlView {
        CtlView {
            retry: self.retry@,
            pending: self.pending_since is Some,
            idle_stop: self.idle_stop_since is Some,
            wave: self.current_wave@,
            fallback: self.fallback_wave@,
            fingerprint: self.config_fp@,
            path: self.adapt_path@,
            sent: self.sent@,
            adapted: self.adapted@,
            sampled: self.sampled@,
            reads: self.reads@,
            polls: self.polls@,
            clock: self.clock@,
        }
    }
}

/// The message of a transport error raised because CamillaDSP is shutting down.
pub open spec fn shutdown_message(m: Seq<char>) -> Seq<char> {
    ws_error_text(WsErrorView::Transport("CamillaDSP is shutting down: "@ + m))
}

impl<B: ControllerBackend, C: CamillaClient, S: ConfigSource> Controller<B, C, S> {
    /// Construct a controller with explicit backend/client wiring.
    pub fn new(
        client: C,
        stream_backend: B,
        source: S,
        adapt_path: String,
        fallback_wave: WaveFormat,
        current_wave: WaveFormat,
        log_level: LogLevel,
    ) -> (c: Self)
        ensures
            c@.retry == fresh_retry(),
            !c@.pending,
            !c@.idle_stop,
            c@.wave == current_wave@,
            c@.fallback == fallback_wave@,
            c@.sent == Seq::<Exchange>::empty(),
            c@.path == adapt_path@,
            c@.adapted == Seq::<AdaptRecord>::empty(),
            c@.sampled == seq![(adapt_path@, c@.fingerprint)],
            c@.reads == Seq::<Result<SnapshotView, Seq<char>>>::empty(),
            c@.polls == Seq::<PollRecord>::empty(),
            c@.clock == Seq::<ClockCheck>::empty(),
            c.client_spec() == client,
            c.backend_spec() == stream_backend,
    {
        let config_fp = source.sample_fingerprint(adapt_path.as_str());
        let ghost first = (adapt_path@, config_fp@);
        Self {
            client,
            stream_backend,
            source,
            adapt_path,
            fallback_wave,
            current_wave,
            retry: RetryState::new(),
            pending_since: None,
            idle_stop_since: None,
            config_fp,
            log_level,
            sent: Ghost(Seq::empty()),
            adapted: Ghost(Seq::empty()),
            sampled: Ghost(Seq::empty().push(first)),
            reads: Ghost(Seq::empty()),
            polls: Ghost(Seq::empty()),
            clock: Ghost(Seq::empty()),
        }
    }

    /// The number of start attempts since the last reset.
    pub fn retry_attempts(&self) -> (n: u32)
        ensures
            n as nat == self@.retry.consecutive,
    {
        self.retry.attempts()
    }

    /// Whether an idle `Stop` was sent and the idle guard is armed.
    pub fn idle_stop_armed(&self) -> (b: bool)
        ensures
            b == self@.idle_stop,
    {
        self.idle_stop_since.is_some()
    }

    /// Whether a `SetConfig` was accepted and awaits confirmation.
    pub fn start_pending(&self) -> (b: bool)
        ensures
            b == self@.pending,
    {
        self.pending_since.is_some()
    }

    /// The CamillaDSP client.
    pub fn client(&self) -> (c: &C)
        ensures
            *c == self.client_spec(),
    {
        &self.client
    }

    /// The stream backend.
    pub fn stream_backend(&self) -> (b: &B)
        ensures
            *b == self.backend_spec(),
    {
        &self.stream_backend
    }

    /// The CamillaDSP client the controller drives.
    pub closed spec fn client_spec(&self) -> C {
        self.client
    }

    /// The stream backend the controller polls.
    pub closed spec fn backend_spec(&self) -> B {
        self.stream_backend
    }

    fn note(&self, level: LogLevel, message: &str) {
        if level.enabled(self.log_level) {
            self.source.log(level, message);
        }
    }

    // ── Exchanges with CamillaDSP ───────────────────────────────────────

    fn query_stop(&mut self) -> (r: Result<Option<Json>, WsError>)
        ensures
            final(self)@ == with_sent(
                old(self)@,
                old(self)@.sent.push(Exchange { cmd: CmdView::Stop, reply: reply_value_view(r) }),
            ),
    {
        let r = self.client.query("Stop", None);
        proof { lemma_push_facts(self.sent@, Exchange { cmd: CmdView::Stop, reply: reply_value_view(r) }); }
        self.sent = Ghost(self.sent@.push(Exchange { cmd: CmdView::Stop, reply: reply_value_view(r) }));
        r
    }

    fn query_state(&mut self) -> (r: Result<Option<Json>, WsError>)
        ensures
            final(self)@ == with_sent(
                old(self)@,
                old(self)@.sent.push(Exchange { cmd: CmdView::GetState, reply: reply_value_view(r) }),
            ),
    {
        let r = self.client.query("GetState", None);
        self.sent = Ghost(
            self.sent@.push(Exchange { cmd: CmdView::GetState, reply: reply_value_view(r) }),
        );
        r
    }

    fn query_stop_reason(&mut self) -> (r: Result<Option<Json>, WsError>)
        ensures
            final(self)@ == with_sent(
                old(self)@,
                old(self)@.sent.push(Exchange { cmd: CmdView::GetStopReason, reply: reply_value_view(r) }),
            ),
    {
        let r = self.client.query("GetStopReason", None);
        self.sent = Ghost(
            self.sent@.push(Exchange { cmd: CmdView::GetStopReason, reply: reply_value_view(r) }),
        );
        r
    }

    fn query_set_config(&mut self, config: String, wave: &WaveFormat) -> (r: Result<Option<Json>, WsError>)
        ensures
            final(self)@ == with_sent(
                old(self)@,
                old(self)@.sent.push(
                    Exchange { cmd: CmdView::SetConfig(config@, wave@), reply: reply_value_view(r) },
                ),
            ),
    {
        let ghost text = config@;
        let r = self.client.query("SetConfig", Some(Json::Str(config)));
        self.sent = Ghost(
            self.sent@.push(Exchange { cmd: CmdView::SetConfig(text, wave@), reply: reply_value_view(r) }),
        );
        r
    }

    // ── Internal helpers ────────────────────────────────────────────────

    fn stop_cdsp(&mut self) -> (r: AppResult<()>)
        ensures
            one_more(old(self)@.sent, final(self)@.sent),
            final(self)@.sent.last().cmd is Stop,
            final(self)@ == with_sent(old(self)@, final(self)@.sent),
            r is Ok <==> final(self)@.sent.last().reply is Ok,
    {
        self.note(LogLevel::Info, "Stopping CamillaDSP");
        proof { lemma_push_facts(self@.sent, Exchange { cmd: CmdView::Stop, reply: Ok(None) }); }
        let ghost before = self@.sent;
        let q = self.query_stop();
        proof { lemma_push_facts(before, self@.sent.last()); assert(self@.sent =~= before.push(self@.sent.last())); }
        match q {
            Ok(_) => Ok(()),
            Err(e) => Err(app_error(e.to_string())),
        }
    }

    /// Enforce the idle invariant: the source is inactive but CamillaDSP is
    /// still running. Sends a `Stop` at once on the first call in an idle
    /// period, then at most once every [`IDLE_STOP_RETRY_SECS`] seconds.
    fn enforce_idle_invariant(&mut self) -> (r: AppResult<()>)
        ensures
            idle_stop_step(old(self)@, final(self)@, r is Ok),
    {
        let should_stop = match &self.idle_stop_since {
            None => true,
            Some(since) => {
                let passed = elapsed_at_least_secs(since, IDLE_STOP_RETRY_SECS);
                self.clock = Ghost(self.clock@.push(ClockCheck::IdleStopElapsed(passed)));
                passed
            },
        };
        let ghost before = self@.sent;
        proof { lemma_extends_refl(before); }
        if should_stop {
            self.note(
                LogLevel::Info,
                "Source inactive but CamillaDSP is running — enforcing idle invariant (Stop)",
            );
            self.stop_cdsp()?;
            proof {
                assert(self@.sent =~= before.push(self@.sent.last()));
                lemma_push_facts(before, self@.sent.last());
            }
            self.idle_stop_since = Some(instant_now());
            self.pending_since = None;
        }
        Ok(())
    }

    /// Re-read the active config file, adapt it to `wave`, and send it to
    /// CamillaDSP via `SetConfig`. If the retry backoff is active, the call
    /// is a no-op.
    fn start_cdsp_with_wave(&mut self, wave: &WaveFormat) -> (r: AppResult<()>)
        requires
            old(self)@.retry.consecutive < u32::MAX,
            wave@ == old(self)@.wave,
        ensures
            start_step(old(self)@, final(self)@, r is Ok),
            r matches Err(e) ==> final(self)@.sent.len() == old(self)@.sent.len() + 1 && match final(self)@.sent.last().reply {
                Err(WsErrorView::Command(CommandReason::Shutdown, m)) => e.message@ == shutdown_message(m),
                Err(other) => e.message@ == ws_error_text(other),
                Ok(_) => false,
            },
    {
        let due = self.retry.should_attempt();
        proof {
            if !self@.retry.latched && self@.retry.scheduled {
                self.clock@ = self.clock@.push(ClockCheck::BackoffElapsed(due));
            }
        }
        if !due {
            self.note(LogLevel::Debug, "Retry backoff active, skipping start attempt");
            return Ok(());
        }
        let adapted = self.source.adapt_config(self.adapt_path.as_str(), wave);
        let ghost record = AdaptRecord {
            path: self.adapt_path@,
            wave: wave@,
            result: adapt_result_view(adapted),
        };
        self.adapted = Ghost(self.adapted@.push(record));
        let config = match adapted {
            Ok(c) => c,
            Err(err) => {
                let msg = concat2(
                    "Config adaptation failed, latching until file changes: ",
                    err.message.as_str(),
                );
                self.note(LogLevel::Warning, msg.as_str());
                self.retry.latch();
                return Ok(());
            },
        };
        self.retry.record_attempt();
        self.note(LogLevel::Info, "Starting CamillaDSP with current config");
        let ghost before = self@.sent;
        let q = self.query_set_config(config, wave);
        proof {
            lemma_push_facts(before, self@.sent.last());
            assert(self@.sent =~= before.push(self@.sent.last()));
        }
        match q {
            Ok(_) => {
                self.pending_since = Some(instant_now());
                Ok(())
            },
            Err(WsError::Command(CommandReason::ConfigValidation, msg)) => {
                let m = concat2("Config validation error (latching until file changes): ", msg.as_str());
                self.note(LogLevel::Error, m.as_str());
                self.retry.latch();
                Ok(())
            },
            Err(WsError::Command(CommandReason::RateLimit, msg)) => {
                let m = concat2("CamillaDSP rate limit exceeded: ", msg.as_str());
                self.note(LogLevel::Warning, m.as_str());
                Ok(())
            },
            Err(WsError::Command(CommandReason::Shutdown, msg)) => {
                let e = WsError::Transport(concat2("CamillaDSP is shutting down: ", msg.as_str()));
                Err(app_error(e.to_string()))
            },
            Err(WsError::Command(CommandReason::InvalidValue, msg)) => {
                let m = concat2("SetConfig InvalidValue error (latching until file changes): ", msg.as_str());
                self.note(LogLevel::Error, m.as_str());
                self.retry.latch();
                Ok(())
            },
            Err(WsError::Command(CommandReason::Other, msg)) => {
                let m = concat2(
                    "SetConfig unknown command error (latching until file changes): ",
                    msg.as_str(),
                );
                self.note(LogLevel::Error, m.as_str());
                self.retry.latch();
                Ok(())
            },
            Err(err) => Err(app_error(err.to_string())),
        }
    }

    fn start_cdsp(&mut self) -> (r: AppResult<()>)
        requires
            old(self)@.retry.consecutive < u32::MAX,
        ensures
            start_step(old(self)@, final(self)@, r is Ok),
    {
        let wave = self.current_wave.duplicate();
        self.start_cdsp_with_wave(&wave)
    }

    /// A stream started: adopt its format, clear retry/pending/idle state,
    /// stop CamillaDSP and start it with the current config.
    pub fn handle_started(&mut self, snapshot: &DeviceSnapshot) -> (r: AppResult<()>)
        ensures
            stop_then_start(
                CtlView {
                    retry: fresh_retry(),
                    pending: false,
                    idle_stop: false,
                    wave: wave_with_fallback(snapshot@.wave, old(self)@.fallback),
                    ..old(self)@
                },
                final(self)@,
                r is Ok,
            ),
    {
        let ghost o = self@;
        self.current_wave = snapshot.wave.with_fallback(&self.fallback_wave);
        let text = concat2("Device started with wave format ", self.current_wave.display().as_str());
        self.note(LogLevel::Info, text.as_str());
        self.retry.reset();
        self.pending_since = None;
        self.idle_stop_since = None;
        let stopped = self.stop_cdsp();
        let ghost stop = self@.sent.last();
        proof {
            assert(self@.sent =~= o.sent.push(stop));
            lemma_push_facts(o.sent, stop);
            assert(self@.sent[o.sent.len() as int] == stop);
        }
        if stopped.is_err() {
            return stopped;
        }
        let ghost mid = self@;
        let r = self.start_cdsp();
        proof {
            self.lemma_start_extends(mid);
            lemma_extends_trans(o.sent, mid.sent, self@.sent);
            assert(self@.sent[o.sent.len() as int] == self@.sent.take(mid.sent.len() as int)[o.sent.len() as int]);
        }
        r
    }

    /// React to the reason CamillaDSP gives for having stopped.
    pub fn handle_stop_reason(&mut self, reason: StopReason, snapshot: &DeviceSnapshot) -> (r: AppResult<()>)
        requires
            old(self)@.retry.consecutive < u32::MAX,
        ensures
            stop_reason_step(old(self)@, final(self)@, reason@, snapshot@.active, r is Ok),
    {
        let ghost start = self@;
        match reason {
            StopReason::CaptureFormatChange(reported_rate) => {
                self.note(LogLevel::Info, "CamillaDSP stopped because capture format changed");
                proof { lemma_extends_refl(start.sent); }
                let fresh = self.stream_backend.read_snapshot();
                proof {
                    self.reads@ = self.reads@.push(read_view(fresh));
                }
                let ghost start2 = self@;
                let current = match fresh {
                    Ok(c) => c,
                    Err(e) => {
                        return Err(e);
                    },
                };
                let ghost snap = current@;
                if !current.active {
                    self.note(
                        LogLevel::Info,
                        "Capture format changed, but source is no longer active; waiting for playback",
                    );
                    self.retry.reset();
                    self.pending_since = None;
                    proof {
                        assert(format_change_outcome(start2, self@, snap, reported_rate, true));
                        assert(self@.sent == start.sent);
                    }
                    return Ok(());
                }
                let mut effective = current.wave.with_fallback(&self.fallback_wave);
                let known = match effective.sample_rate {
                    Some(r) => r,
                    None => 0,
                };
                if known == 0 && reported_rate > 0 {
                    effective.sample_rate = Some(reported_rate);
                }
                let known2 = match effective.sample_rate {
                    Some(r) => r,
                    None => 0,
                };
                if known2 > 0 {
                    assert(format_change_target(snap.wave, start2.fallback, reported_rate) == Some(effective@));
                    self.current_wave = effective;
                    self.retry.reset();
                    let ghost m = self@;
                    assert(m == restarted_with(start2, m.wave));
                    let stopped = self.stop_cdsp();
                    let ghost stop = self@.sent.last();
                    proof {
                        assert(self@.sent =~= m.sent.push(stop));
                        lemma_push_facts(m.sent, stop);
                        assert(self@.sent[m.sent.len() as int] == stop);
                    }
                    if stopped.is_err() {
                        proof {
                            assert(format_change_outcome(start2, self@, snap, reported_rate, false));
                            lemma_extends_trans(start.sent, m.sent, self@.sent);
                        }
                        return stopped;
                    }
                    let ghost mid = self@;
                    let r = self.start_cdsp();
                    proof {
                        self.lemma_start_extends(mid);
                        lemma_extends_trans(m.sent, mid.sent, self@.sent);
                        assert(self@.sent[m.sent.len() as int] == self@.sent.take(mid.sent.len() as int)[m.sent.len() as int]);
                        assert(stop_then_start(m, self@, r is Ok));
                        assert(format_change_outcome(start2, self@, snap, reported_rate, r is Ok));
                        lemma_extends_trans(start.sent, m.sent, self@.sent);
                    }
                    r
                } else {
                    self.note(LogLevel::Warning, "Sample rate changed but the new value is unknown");
                    proof {
                        assert(format_change_target(snap.wave, start2.fallback, reported_rate) is None);
                        assert(format_change_outcome(start2, self@, snap, reported_rate, true));
                    }
                    Ok(())
                }
            },
            StopReason::Done => {
                self.note(LogLevel::Debug, "Capture is done, no action");
                assert(self@.sent.take(start.sent.len() as int) =~= start.sent);
                Ok(())
            },
            StopReason::NoReason => {
                self.note(LogLevel::Debug, "Initial/inactive state");
                if snapshot.active {
                    let r = self.start_cdsp();
                    proof { self.lemma_start_extends(start); }
                    r
                } else {
                    assert(self@.sent.take(start.sent.len() as int) =~= start.sent);
                    Ok(())
                }
            },
            StopReason::CaptureError(message) => {
                if snapshot.active {
                    let m = concat2("Stopped due to capture error, scheduling retry: ", message.as_str());
                    self.note(LogLevel::Warning, m.as_str());
                    let r = self.start_cdsp();
                    proof { self.lemma_start_extends(start); }
                    r
                } else {
                    self.note(LogLevel::Info, "Source is not active, not restarting after error");
                    assert(self@.sent.take(start.sent.len() as int) =~= start.sent);
                    Ok(())
                }
            },
            StopReason::PlaybackError(message) => {
                if snapshot.active {
                    let m = concat2("Stopped due to playback error, scheduling retry: ", message.as_str());
                    self.note(LogLevel::Warning, m.as_str());
                    let r = self.start_cdsp();
                    proof { self.lemma_start_extends(start); }
                    r
                } else {
                    self.note(LogLevel::Info, "Source is not active, not restarting after error");
                    assert(self@.sent.take(start.sent.len() as int) =~= start.sent);
                    Ok(())
                }
            },
            StopReason::UnknownError(message) => {
                if snapshot.active {
                    let m = concat2("Stopped with unknown error, scheduling retry: ", message.as_str());
                    self.note(LogLevel::Warning, m.as_str());
                    let r = self.start_cdsp();
                    proof { self.lemma_start_extends(start); }
                    r
                } else {
                    let m = concat2("Stopped with unknown error (source inactive): ", message.as_str());
                    self.note(LogLevel::Warning, m.as_str());
                    assert(self@.sent.take(start.sent.len() as int) =~= start.sent);
                    Ok(())
                }
            },
            StopReason::PlaybackFormatChange(_rate) => {
                if snapshot.active {
                    self.note(LogLevel::Info, "Playback format changed, scheduling restart");
                    let r = self.start_cdsp();
                    proof { self.lemma_start_extends(start); }
                    r
                } else {
                    self.note(LogLevel::Info, "Playback format changed, source inactive");
                    assert(self@.sent.take(start.sent.len() as int) =~= start.sent);
                    Ok(())
                }
            },
            StopReason::Unknown(_value) => {
                self.note(LogLevel::Warning, "Unknown CamillaDSP stop reason");
                assert(self@.sent.take(start.sent.len() as int) =~= start.sent);
                Ok(())
            },
        }
    }

    /// One check of a CamillaDSP in `Starting`: arm the pending timer, and
    /// force a restart once CamillaDSP has been starting for longer than
    /// [`STARTING_DEADLINE_SECS`].
    pub fn check_starting_deadline(&mut self) -> (r: AppResult<()>)
        requires
            old(self)@.retry.consecutive < u32::MAX,
        ensures
            starting_step(old(self)@, final(self)@, r is Ok),
    {
        if self.pending_since.is_none() {
            self.pending_since = Some(instant_now());
        }
        let expired = match &self.pending_since {
            Some(since) => elapsed_at_least_secs(since, STARTING_DEADLINE_SECS),
            None => false,
        };
        self.clock = Ghost(self.clock@.push(ClockCheck::StartingDeadline(expired)));
        if !expired {
            return Ok(());
        }
        self.note(LogLevel::Warning, "CamillaDSP stuck in Starting for >30 s — forcing restart");
        self.pending_since = None;
        let ghost m = self@;
        let stopped = self.stop_cdsp();
        let ghost stop = self@.sent.last();
        proof {
            assert(self@.sent =~= m.sent.push(stop));
            lemma_push_facts(m.sent, stop);
            assert(self@.sent[m.sent.len() as int] == stop);
        }
        if stopped.is_err() {
            return stopped;
        }
        let ghost mid = self@;
        let r = self.start_cdsp();
        proof {
            self.lemma_start_extends(mid);
            lemma_extends_trans(m.sent, mid.sent, self@.sent);
            assert(self@.sent[m.sent.len() as int] == self@.sent.take(mid.sent.len() as int)[m.sent.len() as int]);
        }
        r
    }

    /// CamillaDSP is inactive: ask why it stopped and react, unless a
    /// `SetConfig` is still pending within [`PENDING_DEADLINE_SECS`].
    pub fn process_inactive_state(&mut self, snapshot: &DeviceSnapshot) -> (r: AppResult<()>)
        requires
            old(self)@.retry.consecutive < u32::MAX,
        ensures
            inactive_step(old(self)@, final(self)@, snapshot@.active, r is Ok),
    {
        let ghost o = self@;
        let q = self.query_stop_reason();
        let ghost e = self@.sent.last();
        proof {
            assert(self@.sent =~= o.sent.push(e));
            lemma_push_facts(o.sent, e);
            assert(self@.sent[o.sent.len() as int] == e);
        }
        let value = match q {
            Ok(v) => v,
            Err(err) => {
                return Err(app_error(err.to_string()));
            },
        };
        let reason = match parse_stop_reason(value) {
            Ok(reason) => reason,
            Err(err) => {
                return Err(app_error(err.to_string()));
            },
        };
        let ghost after = self@;
        let waiting = match &self.pending_since {
            Some(since) => match reason {
                StopReason::NoReason => {
                    let passed = elapsed_at_least_secs(since, PENDING_DEADLINE_SECS);
                    self.clock = Ghost(self.clock@.push(ClockCheck::PendingDeadline(passed)));
                    !passed
                },
                _ => false,
            },
            None => false,
        };
        if waiting {
            self.note(LogLevel::Debug, "Waiting for pending SetConfig to be applied");
            return Ok(());
        }
        if self.pending_since.is_some() {
            if let StopReason::NoReason = reason {
                self.note(
                    LogLevel::Warning,
                    "Pending SetConfig not consumed after 10 s — treating as failed start",
                );
            }
        }
        self.pending_since = None;
        let ghost cleared = self@;
        let r = self.handle_stop_reason(reason, snapshot);
        proof {
            lemma_extends_trans(o.sent, cleared.sent, self@.sent);
            assert(self@.sent.take(o.sent.len() as int + 1)[o.sent.len() as int] == e);
        }
        r
    }

    /// One-time bootstrap on controller start-up: CamillaDSP started with
    /// `--wait --no_config` is inactive until a config is loaded. An active
    /// source gets the config adapted to its live format at once; an inactive
    /// one gets none, and a CamillaDSP already running without a source is
    /// stopped.
    pub fn bootstrap_initial_config(&mut self, snapshot: &DeviceSnapshot) -> (r: AppResult<()>)
        requires
            old(self)@.retry.consecutive < u32::MAX,
        ensures
            old(self)@.sent.len() < final(self)@.sent.len(),
            extends(old(self)@.sent, final(self)@.sent),
            final(self)@.sent[old(self)@.sent.len() as int].cmd is GetState,
            ({
                let e = final(self)@.sent[old(self)@.sent.len() as int];
                let after = with_sent(old(self)@, old(self)@.sent.push(e));
                match e.reply {
                    Err(_) => final(self)@ == after && r is Err,
                    Ok(v) => match processing_state_of(v) {
                        Err(_) => final(self)@ == after && r is Err,
                        Ok(StateView::Inactive) => if snapshot@.active {
                            start_step(
                                CtlView {
                                    retry: fresh_retry(),
                                    pending: false,
                                    wave: wave_with_fallback(snapshot@.wave, after.fallback),
                                    ..after
                                },
                                final(self)@,
                                r is Ok,
                            )
                        } else {
                            r is Ok && final(self)@ == (CtlView { retry: fresh_retry(), pending: false, ..after })
                        },
                        Ok(StateView::Unknown(_)) => final(self)@ == after && r is Ok,
                        Ok(_) => if snapshot@.active {
                            final(self)@ == after && r is Ok
                        } else {
                            idle_stop_step(after, final(self)@, r is Ok)
                        },
                    },
                }
            }),
    {
        let ghost o = self@;
        let q = self.query_state();
        let ghost e = self@.sent.last();
        proof {
            assert(self@.sent =~= o.sent.push(e));
            lemma_push_facts(o.sent, e);
            assert(self@.sent[o.sent.len() as int] == e);
        }
        let value = match q {
            Ok(v) => v,
            Err(err) => {
                return Err(app_error(err.to_string()));
            },
        };
        let state = match parse_processing_state(value) {
            Ok(state) => state,
            Err(err) => {
                return Err(app_error(err.to_string()));
            },
        };
        let ghost after = self@;
        let r = match state {
            ProcessingState::Inactive => {
                self.retry.reset();
                self.pending_since = None;
                if snapshot.active {
                    self.current_wave = snapshot.wave.with_fallback(&self.fallback_wave);
                    let text = concat2(
                        "Bootstrapping initial config for active source ",
                        self.current_wave.display().as_str(),
                    );
                    self.note(LogLevel::Info, text.as_str());
                    let ghost m = self@;
                    let r = self.start_cdsp();
                    proof { self.lemma_start_extends(m); }
                    r
                } else {
                    self.note(
                        LogLevel::Info,
                        "Source inactive at startup — waiting for playback before loading CamillaDSP config",
                    );
                    proof { lemma_extends_refl(after.sent); }
                    Ok(())
                }
            },
            ProcessingState::Unknown(_) => {
                self.note(LogLevel::Warning, "Unknown CamillaDSP processing state during bootstrap");
                proof { lemma_extends_refl(after.sent); }
                Ok(())
            },
            _ => {
                if !snapshot.active {
                    let r = self.enforce_idle_invariant();
                    proof {
                        if self@.sent != after.sent {
                            lemma_push_facts(after.sent, self@.sent.last());
                            assert(self@.sent =~= after.sent.push(self@.sent.last()));
                        } else {
                            lemma_extends_refl(after.sent);
                        }
                    }
                    r
                } else {
                    self.note(LogLevel::Debug, "Skipping bootstrap because CamillaDSP is already active");
                    proof { lemma_extends_refl(after.sent); }
                    Ok(())
                }
            },
        };
        proof {
            lemma_extends_trans(o.sent, after.sent, self@.sent);
            assert(self@.sent.take(o.sent.len() as int + 1)[o.sent.len() as int] == e);
        }
        r
    }

    /// Dispatch one CamillaDSP processing state within the control loop.
    pub fn handle_processing_state(&mut self, state: ProcessingState, current: &DeviceSnapshot) -> (r: AppResult<()>)
        requires
            old(self)@.retry.consecutive < u32::MAX,
        ensures
            processing_step(old(self)@, final(self)@, state@, current@.active, r is Ok),
    {
        match state {
            ProcessingState::Starting => {
                if !current.active {
                    self.enforce_idle_invariant()
                } else {
                    self.check_starting_deadline()
                }
            },
            ProcessingState::Inactive => {
                self.idle_stop_since = None;
                self.process_inactive_state(current)
            },
            ProcessingState::Unknown(_) => {
                self.note(LogLevel::Warning, "Unknown CamillaDSP processing state");
                Ok(())
            },
            _ => {
                if !current.active {
                    self.enforce_idle_invariant()
                } else {
                    if self.pending_since.is_some() || self.retry.attempts() > 0 {
                        self.retry.reset();
                    }
                    self.pending_since = None;
                    Ok(())
                }
            },
        }
    }

    /// React to one stream event, with `current` the stream state the
    /// backend observed with it.
    pub fn handle_stream_event(&mut self, event: StreamEvent, current: &DeviceSnapshot) -> (r: AppResult<()>)
        ensures
            r is Ok ==> final(self)@.retry.consecutive <= 1,
            extends(old(self)@.sent, final(self)@.sent),
            final(self)@.fallback == old(self)@.fallback,
            stream_event_step(old(self)@, final(self)@, event@, current@, r is Ok),
    {
        match event {
            StreamEvent::Started(_) => {
                let r = self.handle_started(current);
                r
            },
            StreamEvent::Stopped => {
                self.note(LogLevel::Info, "Device stopped");
                let ghost o = self@;
                let stopped = self.stop_cdsp();
                proof {
                    lemma_push_facts(o.sent, self@.sent.last());
                    assert(self@.sent =~= o.sent.push(self@.sent.last()));
                    lemma_one_more_extends(o.sent, self@.sent);
                }
                if stopped.is_err() {
                    return stopped;
                }
                self.idle_stop_since = Some(instant_now());
                self.retry.reset();
                self.pending_since = None;
                Ok(())
            },
            StreamEvent::Changed(_) => {
                let text = concat2("Device wave format changed to ", current.wave.display().as_str());
                self.note(LogLevel::Info, text.as_str());
                let ghost o = self@;
                let stopped = self.stop_cdsp();
                let ghost stop = self@.sent.last();
                proof {
                    assert(self@.sent =~= o.sent.push(stop));
                    lemma_push_facts(o.sent, stop);
                    assert(self@.sent[o.sent.len() as int] == stop);
                }
                if stopped.is_err() {
                    return stopped;
                }
                self.current_wave = current.wave.with_fallback(&self.fallback_wave);
                self.retry.reset();
                self.pending_since = None;
                let ghost mid = self@;
                let r = self.start_cdsp();
                proof {
                    self.lemma_start_extends(mid);
                    lemma_extends_trans(o.sent, mid.sent, self@.sent);
                    assert(self@.sent[o.sent.len() as int] == self@.sent.take(mid.sent.len() as int)[o.sent.len() as int]);
                }
                r
            },
        }
    }

    /// Take a freshly sampled fingerprint of the active config. A changed
    /// file clears the retry state, the latch included, so that the next
    /// start is attempted at once.
    pub fn apply_fingerprint(&mut self, fp: ConfigFingerprint)
        ensures
            fp@ == old(self)@.fingerprint ==> final(self)@ == old(self)@,
            fp@ != old(self)@.fingerprint ==> final(self)@ == (CtlView {
                retry: fresh_retry(),
                fingerprint: fp@,
                ..old(self)@
            }),
    {
        if !fp.same_as(&self.config_fp) {
            if self.retry.is_latched() {
                self.note(LogLevel::Info, "Config file changed — clearing error latch");
            }
            self.retry.reset();
            self.config_fp = fp;
        }
    }

    /// One iteration of the control loop: pick up a change of the active
    /// config, poll the stream backend for up to [`CONTROL_LOOP_MS`], react
    /// to its event, then to CamillaDSP's processing state.
    pub fn run_once(&mut self) -> (r: AppResult<()>)
        requires
            old(self)@.retry.consecutive < u32::MAX,
        ensures
            loop_step(old(self)@, final(self)@, r is Ok),
            extends(old(self)@.sent, final(self)@.sent),
            final(self)@.fallback == old(self)@.fallback,
    {
        let ghost o = self@;
        let fp = self.source.sample_fingerprint(self.adapt_path.as_str());
        proof {
            self.sampled@ = self.sampled@.push((self.adapt_path@, fp@));
        }
        self.apply_fingerprint(fp);
        let ghost a = self@;
        proof { lemma_extends_refl(o.sent); }
        let polled = self.stream_backend.poll_event(CONTROL_LOOP_MS);
        let current = self.stream_backend.current_snapshot().duplicate();
        let ghost cur = current@;
        proof {
            self.polls@ = self.polls@.push(PollRecord { event: poll_view(polled), current: cur });
        }
        let ghost a2 = self@;
        let event = match polled {
            Ok(e) => e,
            Err(err) => {
                proof {
                    assert(loop_explained(o, self@, false, a, a2));
                }
                return Err(err);
            },
        };
        let ghost ev: Option<EventView> = match &event {
            Some(e) => Some(e@),
            None => None,
        };
        match event {
            Some(e) => {
                let handled = self.handle_stream_event(e, &current);
                if handled.is_err() {
                    proof {
                        assert(loop_explained(o, self@, false, a, a2));
                    }
                    return handled;
                }
            },
            None => {},
        }
        let ghost s2 = self@;
        proof {
            lemma_extends_refl(a2.sent);
            lemma_extends_trans(o.sent, a2.sent, s2.sent);
        }
        let q = self.query_state();
        let ghost e = self@.sent.last();
        proof {
            lemma_push_facts(s2.sent, e);
            assert(self@.sent =~= s2.sent.push(e));
            assert(self@.sent[s2.sent.len() as int] == e);
        }
        let value = match q {
            Ok(v) => v,
            Err(err) => {
                proof {
                    lemma_extends_trans(o.sent, s2.sent, self@.sent);
                    assert(loop_explained(o, self@, false, a, s2));
                }
                return Err(app_error(err.to_string()));
            },
        };
        let state = match parse_processing_state(value) {
            Ok(state) => state,
            Err(err) => {
                proof {
                    lemma_extends_trans(o.sent, s2.sent, self@.sent);
                    assert(loop_explained(o, self@, false, a, s2));
                }
                return Err(app_error(err.to_string()));
            },
        };
        let ghost s3 = self@;
        proof { lemma_extends_trans(o.sent, s2.sent, s3.sent); }
        let r = self.handle_processing_state(state, &current);
        proof {
            lemma_processing_extends(s3, self@, state@, current@.active, r is Ok);
            lemma_extends_trans(o.sent, s3.sent, self@.sent);
            assert(self@.sent.take(s3.sent.len() as int) == s3.sent);
            assert(self@.sent[s2.sent.len() as int] == s3.sent[s2.sent.len() as int]);
            assert(loop_explained(o, self@, r is Ok, a, s2));
        }
        r
    }

    proof fn lemma_start_extends(&self, o: CtlView)
        requires
            start_step(o, self@, true) || start_step(o, self@, false),
        ensures
            extends(o.sent, self@.sent),
    {
        if self@.sent == o.sent {
            assert(self@.sent.take(o.sent.len() as int) =~= o.sent);
        } else if !o.retry.latched {
            assert(self@.sent.take(o.sent.len() as int) =~= self@.sent.drop_last());
        } else {
            assert(self@.sent.take(o.sent.len() as int) =~= o.sent);
        }
    }
}

} // verus!
