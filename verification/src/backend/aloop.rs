//! Stream backend adapter that turns HCTL snapshots into backend-neutral events.
use crate::backend::{detect_event, detect_stream_event, event_result_view, StreamEvent};
use crate::camilladsp::alsa_capture::DeviceListener;
use crate::core_logic::config::{DeviceSnapshot, SnapshotView, WaveFormat, WaveView};
use crate::error::AppResult;
use vstd::prelude::*;

verus! {

/// Stream backend adapter that turns HCTL snapshots into backend-neutral events.
pub struct AloopBackend<D: DeviceListener> {
    listener: D,
    current: DeviceSnapshot,
    fallback_wave: WaveFormat,
    /// Every snapshot a poll read from the listener, in order.
    reads: Ghost<Seq<SnapshotView>>,
}

impl<D: DeviceListener> AloopBackend<D> {
    /// The snapshot observed last.
    pub closed spec fn current_view(&self) -> SnapshotView {
        self.current@
    }

    /// The control listener the backend reads.
    pub closed spec fn listener_spec(&self) -> D {
        self.listener
    }

    /// Every snapshot a poll read from the listener, in order.
    pub closed spec fn reads(&self) -> Seq<SnapshotView> {
        self.reads@
    }

    /// The format used to complete partial snapshots.
    pub closed spec fn fallback_view(&self) -> WaveView {
        self.fallback_wave@
    }

    pub fn new(listener: D, initial: DeviceSnapshot, fallback_wave: WaveFormat) -> (b: Self)
        ensures
            b.current_view() == initial@,
            b.fallback_view() == fallback_wave@,
            b.listener_spec() == listener,
            b.reads() == Seq::<SnapshotView>::empty(),
    {
        Self { listener, current: initial, fallback_wave, reads: Ghost(Seq::empty()) }
    }

    /// Poll one controller tick: wait up to `timeout_ms` for a control event
    /// (draining pending events where one came), read the controls afresh,
    /// and report the transition from the last snapshot to the one read.
    ///
    /// On success the snapshot read is recorded and becomes current, and the
    /// event is the one [`detect_event`] gives. A failure of the listener, or
    /// an incomplete format in the snapshot read, is an error; the current
    /// snapshot then stays, and only a snapshot actually read is recorded.
    pub fn poll_event(&mut self, timeout_ms: u32) -> (r: AppResult<Option<StreamEvent>>)
        ensures
            final(self).fallback_view() == old(self).fallback_view(),
            final(self).listener_spec() == old(self).listener_spec(),
            match r {
                Ok(_) => {
                    &&& final(self).reads() == old(self).reads().push(final(self).current_view())
                    &&& event_result_view(r) == detect_event(
                        old(self).current_view(),
                        final(self).current_view(),
                        old(self).fallback_view(),
                    )
                },
                Err(e) => {
                    &&& final(self).current_view() == old(self).current_view()
                    &&& final(self).reads() == old(self).reads() || (final(self).reads() == old(
                        self,
                    ).reads().push(final(self).reads().last()) && detect_event(
                        old(self).current_view(),
                        final(self).reads().last(),
                        old(self).fallback_view(),
                    ) == Err::<Option<crate::backend::EventView>, Seq<char>>(e.message@))
                },
            },
    {
        if self.listener.wait_for_event(timeout_ms)? {
            self.listener.handle_events()?;
        }
        let next = self.listener.read_snapshot()?;
        proof {
            self.reads@ = self.reads@.push(next@);
        }
        self.advance(next)
    }

    /// Take one freshly read snapshot: report the transition from the last
    /// snapshot to it and remember it as current.
    pub fn advance(&mut self, next: DeviceSnapshot) -> (r: AppResult<Option<StreamEvent>>)
        ensures
            event_result_view(r) == detect_event(
                old(self).current_view(),
                next@,
                old(self).fallback_view(),
            ),
            r is Ok ==> final(self).current_view() == next@,
            r is Err ==> final(self).current_view() == old(self).current_view(),
            final(self).fallback_view() == old(self).fallback_view(),
            final(self).listener_spec() == old(self).listener_spec(),
            final(self).reads() == old(self).reads(),
    {
        let event = detect_stream_event(&self.current, &next, &self.fallback_wave)?;
        self.current = next;
        Ok(event)
    }

    pub fn current_snapshot(&self) -> (s: &DeviceSnapshot)
        ensures
            s@ == self.current_view(),
    {
        &self.current
    }

    /// The underlying control listener.
    pub fn listener(&self) -> (l: &D)
        ensures
            *l == self.listener_spec(),
    {
        &self.listener
    }

    /// A fresh read of the listener: whatever its `read_snapshot` gives.
    pub fn read_snapshot(&self) -> (r: AppResult<DeviceSnapshot>)
        ensures
            call_ensures(D::read_snapshot, (&self.listener_spec(),), r),
    {
        self.listener.read_snapshot()
    }
}

} // verus!
