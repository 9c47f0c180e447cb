//! Backend-neutral stream parameters, events and the interfaces the
//! controller uses to drive a stream backend.
use crate::core_logic::config::{DeviceSnapshot, SnapshotView, WaveFormat, WaveView, wave_with_fallback};
use crate::error::{app_error_str, AppError, AppResult};
use crate::text::copy_string;
use vstd::prelude::*;

pub mod aloop;
pub mod ioplug;

verus! {

/// Identifies where stream parameters are detected for a backend.
#[derive(Clone, Copy, Debug, Eq, PartialEq, Structural)]
pub enum StreamDetector {
    AloopHctl,
    IoplugIpc,
}

/// Identifies how PCM reaches CamillaDSP for a backend.
#[derive(Clone, Copy, Debug, Eq, PartialEq, Structural)]
pub enum AudioTransport {
    AlsaCapture,
    StdinPipe,
}

/// Explicit backend profile tying detector and transport together.
pub trait BackendProfile {
    fn detector(&self) -> StreamDetector;

    fn transport(&self) -> AudioTransport;
}

/// Backend-neutral stream parameters used by the controller core.
#[derive(Debug, Eq, PartialEq)]
pub struct StreamParams {
    pub rate: u32,
    pub format: String,
    pub channels: u32,
}

/// The mathematical value of [`StreamParams`].
pub struct ParamsView {
    pub rate: u32,
    pub format: Seq<char>,
    pub channels: u32,
}

impl View for StreamParams {
    type V = ParamsView;

    open spec fn view(&self) -> ParamsView {
        ParamsView { rate: self.rate, format: self.format@, channels: self.channels }
    }
}

impl Clone for StreamParams {
    fn clone(&self) -> (p: Self)
        ensures
            p@ == self@,
    {
        StreamParams { rate: self.rate, format: copy_string(&self.format), channels: self.channels }
    }
}

/// The parameters a complete wave description gives, or the message of the
/// first missing field: rate, then format, then channel count.
pub open spec fn params_from_wave(w: WaveView) -> Result<ParamsView, Seq<char>> {
    match (w.sample_rate, w.sample_format, w.channels) {
        (None, _, _) => Err("missing sample rate"@),
        (Some(_), None, _) => Err("missing sample format"@),
        (Some(_), Some(_), None) => Err("missing channel count"@),
        (Some(r), Some(f), Some(c)) => Ok(ParamsView { rate: r, format: f, channels: c }),
    }
}

/// Backend-neutral stream lifecycle events emitted by stream backends.
#[derive(Debug, Eq, PartialEq)]
pub enum StreamEvent {
    Started(StreamParams),
    Changed(StreamParams),
    Stopped,
}

/// The mathematical value of a [`StreamEvent`].
pub enum EventView {
    Started(ParamsView),
    Changed(ParamsView),
    Stopped,
}

impl View for StreamEvent {
    type V = EventView;

    open spec fn view(&self) -> EventView {
        match self {
            StreamEvent::Started(p) => EventView::Started(p@),
            StreamEvent::Changed(p) => EventView::Changed(p@),
            StreamEvent::Stopped => EventView::Stopped,
        }
    }
}

impl Clone for StreamEvent {
    fn clone(&self) -> (e: Self)
        ensures
            e@ == self@,
    {
        match self {
            StreamEvent::Started(p) => StreamEvent::Started(p.clone()),
            StreamEvent::Changed(p) => StreamEvent::Changed(p.clone()),
            StreamEvent::Stopped => StreamEvent::Stopped,
        }
    }
}

/// The view of an optional event.
pub open spec fn opt_event_view(e: Option<StreamEvent>) -> Option<EventView> {
    match e {
        Some(ev) => Some(ev@),
        None => None,
    }
}

/// The event that a transition from `prev` to `cur` amounts to:
/// inactive → active is a start, active → inactive a stop, and an active
/// stream whose format changed a change. Missing fields of the new format are
/// filled from `fallback`; a start or change whose format is still incomplete
/// is an error.
pub open spec fn detect_event(prev: SnapshotView, cur: SnapshotView, fallback: WaveView) -> Result<
    Option<EventView>,
    Seq<char>,
> {
    if !prev.active && cur.active {
        match params_from_wave(wave_with_fallback(cur.wave, fallback)) {
            Ok(p) => Ok(Some(EventView::Started(p))),
            Err(m) => Err(m),
        }
    } else if prev.active && !cur.active {
        Ok(Some(EventView::Stopped))
    } else if prev.active && cur.active && prev.wave != cur.wave {
        match params_from_wave(wave_with_fallback(cur.wave, fallback)) {
            Ok(p) => Ok(Some(EventView::Changed(p))),
            Err(m) => Err(m),
        }
    } else {
        Ok(None)
    }
}

/// Every transition between two snapshots is reported: a source that
/// becomes active starts a stream, one that becomes inactive stops it, and
/// an active source whose format differs in any field (rate, sample format
/// or channel count) changes it; the new stream's parameters are its format
/// with missing fields filled from the fallback. Two equal active formats,
/// and two inactive snapshots, report nothing.
pub proof fn law_transitions_are_reported(prev: SnapshotView, cur: SnapshotView, fallback: WaveView)
    ensures
        ({
            let w = wave_with_fallback(cur.wave, fallback);
            let complete = w.sample_rate is Some && w.sample_format is Some && w.channels is Some;
            let p = ParamsView {
                rate: w.sample_rate->Some_0,
                format: w.sample_format->Some_0,
                channels: w.channels->Some_0,
            };
            &&& (!prev.active && cur.active && complete) ==> detect_event(prev, cur, fallback) == Ok::<
                Option<EventView>,
                Seq<char>,
            >(Some(EventView::Started(p)))
            &&& (prev.active && !cur.active) ==> detect_event(prev, cur, fallback) == Ok::<
                Option<EventView>,
                Seq<char>,
            >(Some(EventView::Stopped))
            &&& (prev.active && cur.active && prev.wave != cur.wave && complete) ==> detect_event(
                prev,
                cur,
                fallback,
            ) == Ok::<Option<EventView>, Seq<char>>(Some(EventView::Changed(p)))
            &&& (prev.active && cur.active && prev.wave == cur.wave) ==> detect_event(prev, cur, fallback)
                == Ok::<Option<EventView>, Seq<char>>(None)
            &&& (!prev.active && !cur.active) ==> detect_event(prev, cur, fallback) == Ok::<
                Option<EventView>,
                Seq<char>,
            >(None)
            &&& (cur.active && !(prev.active && prev.wave == cur.wave) && !complete) ==> detect_event(
                prev,
                cur,
                fallback,
            ) is Err
        }),
{
}

/// The view of an event result.
pub open spec fn event_result_view(r: AppResult<Option<StreamEvent>>) -> Result<
    Option<EventView>,
    Seq<char>,
> {
    match r {
        Ok(e) => Ok(opt_event_view(e)),
        Err(e) => Err(e.message@),
    }
}

impl StreamParams {
    /// Build stream parameters from a wave description that has all required fields.
    pub fn from_wave(wave: &WaveFormat) -> (r: AppResult<Self>)
        ensures
            match r {
                Ok(p) => params_from_wave(wave@) == Ok::<ParamsView, Seq<char>>(p@),
                Err(e) => params_from_wave(wave@) == Err::<ParamsView, Seq<char>>(e.message@),
            },
    {
        let rate = match wave.sample_rate {
            Some(r) => r,
            None => {
                return Err(app_error_str("missing sample rate"));
            },
        };
        let format = match &wave.sample_format {
            Some(f) => copy_string(f),
            None => {
                return Err(app_error_str("missing sample format"));
            },
        };
        let channels = match wave.channels {
            Some(c) => c,
            None => {
                return Err(app_error_str("missing channel count"));
            },
        };
        Ok(Self { rate, format, channels })
    }
}

/// Event source abstraction for aloop/ioplug stream detectors.
pub trait StreamBackend {
    fn next_event(&mut self) -> AppResult<StreamEvent>;
}

/// Interface used by the controller state machine to drive a stream backend.
///
/// Extends the basic event source with a non-blocking poll, access to the
/// last-observed stream state, and a live snapshot refresh used when
/// CamillaDSP reports a capture format change.
pub trait ControllerBackend {
    /// Poll for a stream event without blocking longer than `timeout_ms`.
    fn poll_event(&mut self, timeout_ms: u32) -> AppResult<Option<StreamEvent>>;

    /// The stream state observed during the last `poll_event` call.
    fn current_snapshot(&self) -> &DeviceSnapshot;

    /// A live re-read of the current stream state from the underlying source.
    fn read_snapshot(&self) -> AppResult<DeviceSnapshot>;

    /// Called after CamillaDSP has been prepared for a new stream.
    fn on_stream_ready(&mut self) -> (r: AppResult<()>)
        default_ensures
            r is Ok,
    {
        Ok(())
    }
}

/// Detect a backend-neutral stream lifecycle event from consecutive snapshots.
pub fn detect_stream_event(
    previous: &DeviceSnapshot,
    current: &DeviceSnapshot,
    fallback_wave: &WaveFormat,
) -> (r: AppResult<Option<StreamEvent>>)
    ensures
        event_result_view(r) == detect_event(previous@, current@, fallback_wave@),
{
    if !previous.active && current.active {
        let params = StreamParams::from_wave(&current.wave.with_fallback(fallback_wave))?;
        Ok(Some(StreamEvent::Started(params)))
    } else if previous.active && !current.active {
        Ok(Some(StreamEvent::Stopped))
    } else if previous.active && current.active && !previous.wave.same_as(&current.wave) {
        let params = StreamParams::from_wave(&current.wave.with_fallback(fallback_wave))?;
        Ok(Some(StreamEvent::Changed(params)))
    } else {
        Ok(None)
    }
}

} // verus!
