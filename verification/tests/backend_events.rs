use picoredsp::backend::aloop::AloopBackend;
use picoredsp::backend::{detect_stream_event, StreamEvent, StreamParams};
use picoredsp::camilladsp::alsa_capture::DeviceListener;
use picoredsp::core_logic::config::{DeviceSnapshot, WaveFormat};
use picoredsp::error::{app_error, AppResult};

fn active_snapshot(rate: u32, format: &str, channels: u32) -> DeviceSnapshot {
    DeviceSnapshot {
        active: true,
        wave: WaveFormat {
            sample_rate: Some(rate),
            sample_format: Some(format.to_owned()),
            channels: Some(channels),
        },
    }
}

#[test]
fn stream_params_from_wave_succeeds_with_complete_wave() {
    let wave = WaveFormat {
        sample_rate: Some(96_000),
        sample_format: Some("S24_4_LE".to_owned()),
        channels: Some(2),
    };

    let params = StreamParams::from_wave(&wave).unwrap();
    assert_eq!(params.rate, 96_000);
    assert_eq!(params.format, "S24_4_LE");
    assert_eq!(params.channels, 2);
}

#[test]
fn stream_params_from_wave_fails_when_rate_is_missing() {
    let wave = WaveFormat {
        sample_rate: None,
        sample_format: Some("S16_LE".to_owned()),
        channels: Some(2),
    };

    assert!(StreamParams::from_wave(&wave).is_err());
}

#[test]
fn stream_params_from_wave_fails_when_format_is_missing() {
    let wave = WaveFormat {
        sample_rate: Some(44_100),
        sample_format: None,
        channels: Some(2),
    };

    assert!(StreamParams::from_wave(&wave).is_err());
}

#[test]
fn stream_params_from_wave_fails_when_channels_are_missing() {
    let wave = WaveFormat {
        sample_rate: Some(44_100),
        sample_format: Some("S16_LE".to_owned()),
        channels: None,
    };

    assert!(StreamParams::from_wave(&wave).is_err());
}

#[test]
fn detect_stream_event_started() {
    let previous = DeviceSnapshot {
        active: false,
        wave: WaveFormat::default(),
    };
    let current = active_snapshot(48_000, "S32_LE", 2);
    let fallback = WaveFormat::default();

    let event = detect_stream_event(&previous, &current, &fallback).unwrap();
    assert_eq!(
        event,
        Some(StreamEvent::Started(StreamParams {
            rate: 48_000,
            format: "S32_LE".to_owned(),
            channels: 2,
        }))
    );
}

#[test]
fn detect_stream_event_changed() {
    let previous = active_snapshot(44_100, "S16_LE", 2);
    let current = active_snapshot(96_000, "S24_4_LE", 2);
    let fallback = WaveFormat::default();

    let event = detect_stream_event(&previous, &current, &fallback).unwrap();
    assert_eq!(
        event,
        Some(StreamEvent::Changed(StreamParams {
            rate: 96_000,
            format: "S24_4_LE".to_owned(),
            channels: 2,
        }))
    );
}

#[test]
fn detect_stream_event_stopped() {
    let previous = active_snapshot(44_100, "S16_LE", 2);
    let current = DeviceSnapshot {
        active: false,
        wave: WaveFormat::default(),
    };
    let fallback = WaveFormat::default();

    let event = detect_stream_event(&previous, &current, &fallback).unwrap();
    assert_eq!(event, Some(StreamEvent::Stopped));
}

#[test]
fn detect_stream_event_uses_fallback_for_missing_fields() {
    let previous = active_snapshot(44_100, "S16_LE", 2);
    let current = DeviceSnapshot {
        active: true,
        wave: WaveFormat {
            sample_rate: Some(48_000),
            sample_format: None,
            channels: None,
        },
    };
    let fallback = WaveFormat {
        sample_rate: Some(44_100),
        sample_format: Some("S32_LE".to_owned()),
        channels: Some(2),
    };

    let event = detect_stream_event(&previous, &current, &fallback).unwrap();
    assert_eq!(
        event,
        Some(StreamEvent::Changed(StreamParams {
            rate: 48_000,
            format: "S32_LE".to_owned(),
            channels: 2,
        }))
    );
}

#[test]
fn detect_stream_event_none_when_no_transition() {
    let previous = active_snapshot(44_100, "S16_LE", 2);
    let current = previous.clone();
    let fallback = WaveFormat::default();

    let event = detect_stream_event(&previous, &current, &fallback).unwrap();
    assert_eq!(event, None);
}

#[test]
fn detect_stream_event_is_backend_neutral() {
    let inactive = DeviceSnapshot {
        active: false,
        wave: WaveFormat::default(),
    };
    let active_44 = DeviceSnapshot {
        active: true,
        wave: WaveFormat {
            sample_rate: Some(44_100),
            sample_format: Some("S16_LE".to_owned()),
            channels: Some(2),
        },
    };
    let active_48 = DeviceSnapshot {
        active: true,
        wave: WaveFormat {
            sample_rate: Some(48_000),
            sample_format: Some("S24_3_LE".to_owned()),
            channels: Some(2),
        },
    };
    let fallback = WaveFormat::default();

    // Started
    assert_eq!(
        detect_stream_event(&inactive, &active_44, &fallback).unwrap(),
        Some(StreamEvent::Started(StreamParams {
            rate: 44_100,
            format: "S16_LE".to_owned(),
            channels: 2,
        }))
    );

    // Changed
    assert_eq!(
        detect_stream_event(&active_44, &active_48, &fallback).unwrap(),
        Some(StreamEvent::Changed(StreamParams {
            rate: 48_000,
            format: "S24_3_LE".to_owned(),
            channels: 2,
        }))
    );

    // Stopped
    assert_eq!(
        detect_stream_event(&active_44, &inactive, &fallback).unwrap(),
        Some(StreamEvent::Stopped)
    );

    // No transition
    assert_eq!(
        detect_stream_event(&active_44, &active_44, &fallback).unwrap(),
        None
    );
}

/// A control listener that replays recorded wait results and snapshots.
struct MockListener {
    wait_results: std::cell::RefCell<std::collections::VecDeque<bool>>,
    snapshots: std::cell::RefCell<std::collections::VecDeque<DeviceSnapshot>>,
}

impl MockListener {
    fn new(wait_results: Vec<bool>, snapshots: Vec<DeviceSnapshot>) -> Self {
        Self {
            wait_results: std::cell::RefCell::new(wait_results.into()),
            snapshots: std::cell::RefCell::new(snapshots.into()),
        }
    }

    fn inactive() -> DeviceSnapshot {
        DeviceSnapshot { active: false, wave: WaveFormat::default() }
    }
}

impl DeviceListener for MockListener {
    fn wait_for_event(&self, _timeout_ms: u32) -> AppResult<bool> {
        Ok(self.wait_results.borrow_mut().pop_front().unwrap_or(false))
    }

    fn handle_events(&self) -> AppResult<()> {
        Ok(())
    }

    fn read_snapshot(&self) -> AppResult<DeviceSnapshot> {
        self.snapshots
            .borrow_mut()
            .pop_front()
            .ok_or_else(|| app_error("no more snapshots".to_owned()))
    }
}

/// One controller tick of the aloop backend.
fn tick(backend: &mut AloopBackend<MockListener>) -> AppResult<Option<StreamEvent>> {
    backend.poll_event(1)
}

#[test]
fn poll_event_returns_started_event() {
    let initial = MockListener::inactive();
    let listener = MockListener::new(vec![false], vec![active_snapshot(48_000, "S32_LE", 2)]);
    let mut backend = AloopBackend::new(listener, initial, WaveFormat::default());

    let event = tick(&mut backend).unwrap();
    assert_eq!(
        event,
        Some(StreamEvent::Started(StreamParams { rate: 48_000, format: "S32_LE".to_owned(), channels: 2 }))
    );
    assert!(backend.current_snapshot().active);
}

#[test]
fn poll_event_returns_none_without_transition() {
    let initial = active_snapshot(44_100, "S16_LE", 2);
    let listener = MockListener::new(vec![false], vec![active_snapshot(44_100, "S16_LE", 2)]);
    let mut backend = AloopBackend::new(listener, initial, WaveFormat::default());

    let event = tick(&mut backend).unwrap();
    assert_eq!(event, None);
}

#[test]
fn next_event_skips_idle_ticks_until_transition() {
    let initial = active_snapshot(44_100, "S16_LE", 2);
    let listener = MockListener::new(
        vec![false, false],
        vec![active_snapshot(44_100, "S16_LE", 2), active_snapshot(96_000, "S24_4_LE", 2)],
    );
    let mut backend = AloopBackend::new(listener, initial, WaveFormat::default());

    let event = loop {
        if let Some(event) = tick(&mut backend).unwrap() {
            break event;
        }
    };
    assert_eq!(
        event,
        StreamEvent::Changed(StreamParams { rate: 96_000, format: "S24_4_LE".to_owned(), channels: 2 })
    );
}

#[test]
fn aloop_backend_keeps_snapshot_when_event_is_invalid() {
    let initial = MockListener::inactive();
    let incomplete = DeviceSnapshot {
        active: true,
        wave: WaveFormat { sample_rate: Some(48_000), sample_format: None, channels: Some(2) },
    };
    let listener = MockListener::new(vec![], vec![incomplete]);
    let mut backend = AloopBackend::new(listener, initial, WaveFormat::default());

    let err = tick(&mut backend).unwrap_err();
    assert_eq!(err.message, "missing sample format");
    assert!(!backend.current_snapshot().active);
}
