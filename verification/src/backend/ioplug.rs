//! The ioplug backend: the plugin session (idle, awaiting READY, active)
//! and its decisions: whether a plugin's START can be served, how long an
//! idle poll sleeps, and what a message on an active stream means. The IPC
//! socket itself is driven by the caller, which reports what it read.
use crate::backend::{
    AudioTransport, BackendProfile, EventView, ParamsView, StreamDetector, StreamEvent, StreamParams,
};
use crate::camilladsp::alsa_capture::{alsa_format_to_camilladsp, format_name};
use crate::core_logic::config::{DeviceSnapshot, SnapshotView, WaveFormat, WaveView};
use crate::error::{app_error, app_error_str, AppResult};
use crate::text::{concat2, copy_string};
use vstd::prelude::*;

verus! {

/// Why a plugin's START is turned away (the plugin gets a protocol error).
#[derive(Debug, Clone, PartialEq, Eq)]
pub enum StartRejection {
    /// The START carries another protocol version than HELLO negotiated.
    VersionMismatch { negotiated: u32, got: u32 },
    /// Only stereo streams are supported.
    UnsupportedChannels(u32),
    /// The ALSA format has no CamillaDSP name.
    UnmappedFormat(i32),
    /// The ALSA format is not a `snd_pcm_format_t` value.
    UnknownFormat(i32),
}

/// The START a plugin may be served, or why not: the version must be the
/// negotiated one, the stream stereo, and the format one CamillaDSP names.
pub open spec fn start_outcome(negotiated: u32, version: u32, rate: u32, format: i32, channels: u32) -> Result<
    SnapshotView,
    StartRejection,
> {
    if version != negotiated {
        Err(StartRejection::VersionMismatch { negotiated, got: version })
    } else if channels != 2 {
        Err(StartRejection::UnsupportedChannels(channels))
    } else {
        match format_name(format) {
            Ok(Some(f)) => Ok(
                SnapshotView {
                    active: true,
                    wave: WaveView { sample_rate: Some(rate), sample_format: Some(f), channels: Some(channels) },
                },
            ),
            Ok(None) => Err(StartRejection::UnmappedFormat(format)),
            Err(_) => Err(StartRejection::UnknownFormat(format)),
        }
    }
}

/// Decide whether a plugin's START can be served, and the stream it announces.
pub fn validate_start(negotiated: u32, version: u32, rate: u32, format: i32, channels: u32) -> (r: Result<
    DeviceSnapshot,
    StartRejection,
>)
    ensures
        match start_outcome(negotiated, version, rate, format, channels) {
            Ok(s) => r matches Ok(x) && x@ == s,
            Err(e) => r == Err::<DeviceSnapshot, StartRejection>(e),
        },
{
    if version != negotiated {
        return Err(StartRejection::VersionMismatch { negotiated, got: version });
    }
    if channels != 2 {
        return Err(StartRejection::UnsupportedChannels(channels));
    }
    match alsa_format_to_camilladsp(format) {
        Ok(Some(f)) => Ok(
            DeviceSnapshot {
                active: true,
                wave: WaveFormat {
                    sample_rate: Some(rate),
                    sample_format: Some(f.to_string()),
                    channels: Some(channels),
                },
            },
        ),
        Ok(None) => Err(StartRejection::UnmappedFormat(format)),
        Err(_) => Err(StartRejection::UnknownFormat(format)),
    }
}

/// How long an idle poll without a waiting plugin sleeps: a quarter of the
/// poll timeout, between 1 and 50 ms.
pub open spec fn idle_sleep(timeout_ms: u32) -> u32 {
    let q = timeout_ms / 4;
    if q < 1 {
        1
    } else if q > 50 {
        50
    } else {
        q
    }
}

/// How long an idle poll without a waiting plugin sleeps.
pub fn idle_poll_sleep_ms(timeout_ms: u32) -> (ms: u32)
    ensures
        ms == idle_sleep(timeout_ms),
        1 <= ms <= 50,
{
    let q = timeout_ms / 4;
    if q < 1 {
        1
    } else if q > 50 {
        50
    } else {
        q
    }
}

/// What reading an active stream's connection gave.
#[derive(Debug, Clone, Copy, PartialEq, Eq, Structural)]
pub enum ActiveRead {
    /// The plugin sent STOP.
    Stop,
    /// The plugin sent another message.
    OtherMessage,
    /// Nothing arrived before the timeout.
    Timeout,
    /// The plugin disconnected.
    Disconnected,
    /// Any other protocol error (a version mismatch among them).
    ProtocolFailure,
}

/// What the backend does with an active stream's read: whether the stream
/// has ended, and whether the plugin is sent a protocol error first. Only
/// a timeout leaves the stream running.
pub open spec fn active_outcome(r: ActiveRead) -> (bool, bool) {
    match r {
        ActiveRead::Stop => (true, false),
        ActiveRead::OtherMessage => (true, true),
        ActiveRead::Timeout => (false, false),
        ActiveRead::Disconnected => (true, false),
        ActiveRead::ProtocolFailure => (true, true),
    }
}

/// Whether an active stream's read ends the stream, and whether the plugin
/// is sent a protocol error first.
pub fn active_read_outcome(r: ActiveRead) -> (o: (bool, bool))
    ensures
        o == active_outcome(r),
{
    match r {
        ActiveRead::Stop => (true, false),
        ActiveRead::OtherMessage => (true, true),
        ActiveRead::Timeout => (false, false),
        ActiveRead::Disconnected => (true, false),
        ActiveRead::ProtocolFailure => (true, true),
    }
}

/// Where a plugin session stands.
pub enum SessionView {
    /// No plugin is connected.
    Idle,
    /// A plugin sent START for this stream and waits for READY or an error.
    AwaitingAck(SnapshotView),
    /// READY was sent; the plugin streams until STOP or disconnect.
    Active(SnapshotView),
}

/// The snapshot of an idle session: no stream, format unknown.
pub open spec fn idle_snapshot_view() -> SnapshotView {
    SnapshotView { active: false, wave: WaveView { sample_rate: None, sample_format: None, channels: None } }
}

/// The stream a session reports: the announced one while a plugin is
/// connected, the idle snapshot otherwise.
pub open spec fn session_snapshot(s: SessionView) -> SnapshotView {
    match s {
        SessionView::Idle => idle_snapshot_view(),
        SessionView::AwaitingAck(x) => x,
        SessionView::Active(x) => x,
    }
}

/// What a poll of the session does with the socket.
#[derive(Debug, Clone, Copy, PartialEq, Eq, Structural)]
pub enum PollAction {
    /// Try to accept a plugin (HELLO, then START) without blocking; when none
    /// is waiting, sleep this many milliseconds.
    Accept(u32),
    /// READY or an error is owed first: sleep this many milliseconds.
    Wait(u32),
    /// Read the active plugin's next message.
    ReadActive,
}

/// What a poll of the session `s` with `timeout_ms` does.
pub open spec fn poll_plan(s: SessionView, timeout_ms: u32) -> PollAction {
    match s {
        SessionView::Idle => PollAction::Accept(idle_sleep(timeout_ms)),
        SessionView::AwaitingAck(_) => PollAction::Wait(10),
        SessionView::Active(_) => PollAction::ReadActive,
    }
}

/// The session after a READY was, or was not, delivered: a plugin awaiting
/// READY becomes active when it was, and the session idle when it was not.
/// In any other state nothing is sent and nothing changes.
pub open spec fn ready_after(s: SessionView, delivered: bool) -> SessionView {
    match s {
        SessionView::AwaitingAck(x) => if delivered {
            SessionView::Active(x)
        } else {
            SessionView::Idle
        },
        other => other,
    }
}

/// The error of READY when no plugin awaits it, by the name of the method.
pub open spec fn not_awaiting_message(method: Seq<char>) -> Seq<char> {
    method + " called but backend is not in AwaitingAck state"@
}

/// The stream event of a served START.
pub open spec fn started_event(s: SnapshotView) -> EventView {
    EventView::Started(
        ParamsView {
            rate: s.wave.sample_rate.unwrap(),
            format: s.wave.sample_format.unwrap(),
            channels: s.wave.channels.unwrap(),
        },
    )
}

/// The plugin session state, with the stream each connected state serves.
enum IoplugState {
    Idle,
    AwaitingAck(DeviceSnapshot),
    Active(DeviceSnapshot),
}

/// ioplug stream backend: the plugin <-> controller handshake (START, then
/// READY or an error, then STOP) and the stream lifecycle events it yields.
pub struct IoplugBackend {
    state: IoplugState,
    /// Snapshot returned while no plugin is connected.
    idle_snapshot: DeviceSnapshot,
}

impl View for IoplugBackend {
    type V = SessionView;

    closed spec fn view(&self) -> SessionView {
        match self.state {
            IoplugState::Idle => SessionView::Idle,
            IoplugState::AwaitingAck(x) => SessionView::AwaitingAck(x@),
            IoplugState::Active(x) => SessionView::Active(x@),
        }
    }
}

impl IoplugBackend {
    /// The idle snapshot is the inactive one with an unknown format.
    #[verifier::type_invariant]
    spec fn idle_is_inactive(self) -> bool {
        self.idle_snapshot@ == idle_snapshot_view()
    }

    /// A backend with no plugin connected.
    pub fn new() -> (b: Self)
        ensures
            b@ == SessionView::Idle,
    {
        IoplugBackend { state: IoplugState::Idle, idle_snapshot: DeviceSnapshot::inactive() }
    }

    /// The stream state of the session.
    pub fn current_snapshot(&self) -> (s: &DeviceSnapshot)
        ensures
            s@ == session_snapshot(self@),
    {
        proof {
            use_type_invariant(self);
        }
        match &self.state {
            IoplugState::Idle => &self.idle_snapshot,
            IoplugState::AwaitingAck(x) => x,
            IoplugState::Active(x) => x,
        }
    }

    /// A copy of the session's stream state; it never fails.
    pub fn read_snapshot(&self) -> (r: AppResult<DeviceSnapshot>)
        ensures
            r matches Ok(s) && s@ == session_snapshot(self@),
    {
        Ok(self.current_snapshot().duplicate())
    }

    /// Whether a plugin waits for READY or an error.
    pub fn awaiting_ack(&self) -> (b: bool)
        ensures
            b <==> self@ is AwaitingAck,
    {
        match &self.state {
            IoplugState::AwaitingAck(_) => true,
            _ => false,
        }
    }

    /// What a poll with `timeout_ms` does with the socket.
    pub fn poll_action(&self, timeout_ms: u32) -> (a: PollAction)
        ensures
            a == poll_plan(self@, timeout_ms),
    {
        match &self.state {
            IoplugState::Idle => PollAction::Accept(idle_poll_sleep_ms(timeout_ms)),
            IoplugState::AwaitingAck(_) => PollAction::Wait(10),
            IoplugState::Active(_) => PollAction::ReadActive,
        }
    }

    /// A plugin that completed HELLO (on version `negotiated`) sent this
    /// START. A START that can be served starts the stream: the plugin now
    /// awaits READY. A rejected one leaves the session idle; the caller sends
    /// the plugin a protocol error.
    pub fn start_received(&mut self, negotiated: u32, version: u32, rate: u32, format: i32, channels: u32) -> (r:
        Result<StreamEvent, StartRejection>)
        requires
            old(self)@ is Idle,
        ensures
            match start_outcome(negotiated, version, rate, format, channels) {
                Ok(s) => final(self)@ == SessionView::AwaitingAck(s) && (r matches Ok(e) && e@
                    == started_event(s)),
                Err(e) => final(self)@ == SessionView::Idle && r == Err::<StreamEvent, StartRejection>(e),
            },
    {
        proof {
            use_type_invariant(&*self);
        }
        match validate_start(negotiated, version, rate, format, channels) {
            Ok(snapshot) => {
                let fmt = match &snapshot.wave.sample_format {
                    Some(f) => copy_string(f),
                    None => String::new(),
                };
                self.state = IoplugState::AwaitingAck(snapshot);
                Ok(StreamEvent::Started(StreamParams { rate, format: fmt, channels }))
            },
            Err(e) => Err(e),
        }
    }

    /// The active plugin's connection gave `read`. A stream that ends
    /// yields `Stopped` and leaves the session idle; the flag says whether the
    /// caller sends the plugin a protocol error first.
    pub fn active_read(&mut self, read: ActiveRead) -> (r: (Option<StreamEvent>, bool))
        requires
            old(self)@ is Active,
        ensures
            r.1 == active_outcome(read).1,
            active_outcome(read).0 ==> final(self)@ == SessionView::Idle && (r.0 matches Some(
                StreamEvent::Stopped,
            )),
            !active_outcome(read).0 ==> final(self)@ == old(self)@ && r.0 is None,
    {
        proof {
            use_type_invariant(&*self);
        }
        let (ends, send_error) = active_read_outcome(read);
        if ends {
            self.state = IoplugState::Idle;
            (Some(StreamEvent::Stopped), send_error)
        } else {
            (None, send_error)
        }
    }

    /// Record a READY that the caller tried to deliver (`delivered`) to the
    /// plugin awaiting it; the error names `method` when none awaits it, and
    /// carries `prefix` before the delivery error.
    fn ready_outcome(&mut self, delivered: AppResult<()>, method: &str, prefix: &str) -> (r: AppResult<()>)
        ensures
            final(self)@ == ready_after(old(self)@, delivered is Ok),
            old(self)@ is AwaitingAck ==> match delivered {
                Ok(_) => r is Ok,
                Err(e) => r matches Err(x) && x.message@ == prefix@ + e.message@,
            },
            !(old(self)@ is AwaitingAck) ==> (r matches Err(x) && x.message@ == not_awaiting_message(method@)),
    {
        proof {
            use_type_invariant(&*self);
        }
        let mut prev = IoplugState::Idle;
        std::mem::swap(&mut prev, &mut self.state);
        match prev {
            IoplugState::AwaitingAck(snapshot) => match delivered {
                Ok(()) => {
                    self.state = IoplugState::Active(snapshot);
                    Ok(())
                },
                Err(e) => Err(app_error(concat2(prefix, e.message.as_str()))),
            },
            other => {
                self.state = other;
                Err(app_error(concat2(method, " called but backend is not in AwaitingAck state")))
            },
        }
    }

    /// Record the plain READY (no pipe fd) that the caller tried to deliver
    /// to the plugin awaiting it: on delivery the stream is active, on a
    /// failed delivery the session is idle. Without a plugin awaiting READY
    /// nothing is to be sent and this is an error.
    pub fn send_ready_to_plugin(&mut self, delivered: AppResult<()>) -> (r: AppResult<()>)
        ensures
            final(self)@ == ready_after(old(self)@, delivered is Ok),
            old(self)@ is AwaitingAck ==> match delivered {
                Ok(_) => r is Ok,
                Err(e) => r matches Err(x) && x.message@ == "IPC send READY: "@ + e.message@,
            },
            !(old(self)@ is AwaitingAck) ==> (r matches Err(x) && x.message@ == not_awaiting_message(
                "send_ready_to_plugin"@,
            )),
    {
        self.ready_outcome(delivered, "send_ready_to_plugin", "IPC send READY: ")
    }

    /// Record the READY with the pipe write end (passed over the socket)
    /// that the caller tried to deliver to the plugin awaiting it, as
    /// [`IoplugBackend::send_ready_to_plugin`] does for the plain READY.
    pub fn send_ready_with_fd_to_plugin(&mut self, delivered: AppResult<()>) -> (r: AppResult<()>)
        ensures
            final(self)@ == ready_after(old(self)@, delivered is Ok),
            old(self)@ is AwaitingAck ==> match delivered {
                Ok(_) => r is Ok,
                Err(e) => r matches Err(x) && x.message@ == "IPC send READY+fd: "@ + e.message@,
            },
            !(old(self)@ is AwaitingAck) ==> (r matches Err(x) && x.message@ == not_awaiting_message(
                "send_ready_with_fd_to_plugin"@,
            )),
    {
        self.ready_outcome(delivered, "send_ready_with_fd_to_plugin", "IPC send READY+fd: ")
    }

    /// Give up on the plugin awaiting READY: the session is idle afterwards,
    /// whatever its state. The result says whether a plugin was awaiting
    /// READY, the one the caller then sends the error to.
    pub fn send_error_to_plugin(&mut self) -> (awaiting: bool)
        ensures
            awaiting <==> old(self)@ is AwaitingAck,
            final(self)@ == SessionView::Idle,
    {
        proof {
            use_type_invariant(&*self);
        }
        let awaiting = self.awaiting_ack();
        self.state = IoplugState::Idle;
        awaiting
    }

    /// The generic stream-ready hook is refused: the plugin needs the pipe
    /// write end, which only [`IoplugBackend::send_ready_with_fd_to_plugin`]
    /// delivers.
    pub fn on_stream_ready(&mut self) -> (r: AppResult<()>)
        ensures
            final(self)@ == old(self)@,
            r matches Err(e) && e.message@ == "ioplug: on_stream_ready is not supported; call send_ready_with_fd_to_plugin with a pipe fd instead"@,
    {
        Err(
            app_error_str(
                "ioplug: on_stream_ready is not supported; call send_ready_with_fd_to_plugin with a pipe fd instead",
            ),
        )
    }
}

impl BackendProfile for IoplugBackend {
    fn detector(&self) -> (d: StreamDetector)
        ensures
            d == StreamDetector::IoplugIpc,
    {
        StreamDetector::IoplugIpc
    }

    fn transport(&self) -> (t: AudioTransport)
        ensures
            t == AudioTransport::StdinPipe,
    {
        AudioTransport::StdinPipe
    }
}

/// A session's handshake: a START that can be served leaves the plugin
/// awaiting READY with the announced stream as the backend's snapshot; a
/// delivered READY makes that stream active with the same snapshot; the
/// stream's end (any read but a timeout) returns the session to idle, whose
/// snapshot is inactive.
pub proof fn law_session_handshake(
    negotiated: u32,
    version: u32,
    rate: u32,
    format: i32,
    channels: u32,
    read: ActiveRead,
)
    requires
        start_outcome(negotiated, version, rate, format, channels) is Ok,
    ensures
        ({
            let s = start_outcome(negotiated, version, rate, format, channels)->Ok_0;
            &&& s.active
            &&& session_snapshot(SessionView::AwaitingAck(s)) == s
            &&& ready_after(SessionView::AwaitingAck(s), true) == SessionView::Active(s)
            &&& session_snapshot(SessionView::Active(s)) == s
            &&& ready_after(SessionView::AwaitingAck(s), false) == SessionView::Idle
            &&& (active_outcome(read).0 <==> read != ActiveRead::Timeout)
            &&& !session_snapshot(SessionView::Idle).active
        }),
{
}

} // verus!
