use picoredsp::backend::{ControllerBackend, StreamEvent};
use picoredsp::camilladsp::websocket::{
    CamillaClient, CommandReason, ProcessingState, StopReason, WsError,
};
use picoredsp::core_logic::config::{DeviceSnapshot, WaveFormat};
use picoredsp::core_logic::logging::LogLevel;
use picoredsp::core_logic::recovery::ConfigFingerprint;
use picoredsp::core_logic::state_machine::{ConfigSource, Controller};
use picoredsp::error::{app_error, AppResult};
use picoredsp::json::Json;
use std::cell::RefCell;
use std::collections::VecDeque;
use std::rc::Rc;

/// Records every command and returns pre-scripted responses.
struct MockClient {
    responses: VecDeque<Result<Option<Json>, WsError>>,
    sent_configs: Vec<String>,
    stop_count: u32,
    commands: Vec<String>,
}

impl MockClient {
    fn new(responses: Vec<Result<Option<Json>, WsError>>) -> Self {
        Self {
            responses: responses.into(),
            sent_configs: Vec::new(),
            stop_count: 0,
            commands: Vec::new(),
        }
    }
    fn ok() -> Result<Option<Json>, WsError> {
        Ok(None)
    }
    fn text(s: &str) -> Result<Option<Json>, WsError> {
        Ok(Some(Json::Str(s.to_owned())))
    }
}

impl CamillaClient for MockClient {
    fn query(&mut self, command: &str, argument: Option<Json>) -> Result<Option<Json>, WsError> {
        self.commands.push(command.to_owned());
        if command == "SetConfig" {
            if let Some(Json::Str(cfg)) = argument {
                self.sent_configs.push(cfg);
            }
        }
        if command == "Stop" {
            self.stop_count += 1;
        }
        self.responses
            .pop_front()
            .unwrap_or_else(|| Err(WsError::Transport("no more responses".to_owned())))
    }
}

/// A stream backend whose live snapshot is the front of a queue.
struct MockListener {
    snapshots: VecDeque<DeviceSnapshot>,
    current: DeviceSnapshot,
}

impl MockListener {
    fn new(snapshots: Vec<DeviceSnapshot>) -> Self {
        Self { snapshots: snapshots.into(), current: inactive() }
    }
}

impl ControllerBackend for MockListener {
    fn poll_event(&mut self, _timeout_ms: u32) -> AppResult<Option<StreamEvent>> {
        Ok(None)
    }
    fn current_snapshot(&self) -> &DeviceSnapshot {
        &self.current
    }
    fn read_snapshot(&self) -> AppResult<DeviceSnapshot> {
        self.snapshots
            .front()
            .cloned()
            .ok_or_else(|| app_error("MockListener: no more snapshots".to_owned()))
    }
}

/// An in-memory active config: the playback device can be changed between
/// starts, as a user saving a new config would.
struct MockSource {
    device: Rc<RefCell<String>>,
}

impl ConfigSource for MockSource {
    fn sample_fingerprint(&self, _path: &str) -> ConfigFingerprint {
        ConfigFingerprint::absent()
    }
    fn adapt_config(&self, _path: &str, wave: &WaveFormat) -> AppResult<String> {
        Ok(format!(
            "devices:\n  samplerate: {}\n  capture:\n    format: {}\n  playback:\n    device: \"{}\"\n",
            wave.sample_rate.unwrap_or(0),
            wave.sample_format.clone().unwrap_or_default(),
            self.device.borrow()
        ))
    }
    fn log(&self, _level: LogLevel, _message: &str) {}
}

fn active_with_rate(rate: u32) -> DeviceSnapshot {
    DeviceSnapshot {
        active: true,
        wave: WaveFormat {
            sample_rate: Some(rate),
            sample_format: Some("S32_LE".to_owned()),
            channels: Some(2),
        },
    }
}

fn inactive() -> DeviceSnapshot {
    DeviceSnapshot { active: false, wave: WaveFormat::unknown() }
}

type Ctl = Controller<MockListener, MockClient, MockSource>;

fn controller_with(client: MockClient, listener: MockListener, device: Rc<RefCell<String>>) -> Ctl {
    Controller::new(
        client,
        listener,
        MockSource { device },
        "/tmp/active.yml".to_owned(),
        WaveFormat::unknown(),
        WaveFormat {
            sample_rate: Some(44100),
            sample_format: Some("S32_LE".to_owned()),
            channels: Some(2),
        },
        LogLevel::Error,
    )
}

fn make_controller(client: MockClient, listener: MockListener) -> Ctl {
    controller_with(client, listener, Rc::new(RefCell::new("hw:X,0".to_owned())))
}

#[test]
fn acceptance_reboot_persistence_applies_saved_config_after_restart() {
    let device = Rc::new(RefCell::new("hw:CardA,0".to_owned()));
    let mut before_restart = controller_with(
        MockClient::new(vec![MockClient::ok(), MockClient::ok()]),
        MockListener::new(vec![]),
        device.clone(),
    );
    before_restart.handle_started(&active_with_rate(44100)).unwrap();
    assert_eq!(before_restart.client().sent_configs.len(), 1);
    assert!(before_restart.client().sent_configs[0].contains("hw:CardA,0"));

    *device.borrow_mut() = "hw:CardB,0".to_owned();

    let mut after_restart = controller_with(
        MockClient::new(vec![MockClient::text("Inactive"), MockClient::ok(), MockClient::ok()]),
        MockListener::new(vec![]),
        device.clone(),
    );
    after_restart.bootstrap_initial_config(&inactive()).unwrap();
    assert_eq!(after_restart.client().sent_configs.len(), 0);

    after_restart.handle_started(&active_with_rate(44100)).unwrap();
    assert_eq!(after_restart.client().sent_configs.len(), 1);
    assert!(after_restart.client().sent_configs[0].contains("hw:CardB,0"));
}

#[test]
fn started_stream_rereads_the_saved_config_each_time() {
    let device = Rc::new(RefCell::new("hw:CardA,0".to_owned()));
    let mut ctrl = controller_with(
        MockClient::new(vec![MockClient::ok(), MockClient::ok(), MockClient::ok(), MockClient::ok()]),
        MockListener::new(vec![]),
        device.clone(),
    );
    ctrl.handle_started(&active_with_rate(44100)).unwrap();
    *device.borrow_mut() = "hw:CardB,0".to_owned();
    ctrl.handle_started(&active_with_rate(44100)).unwrap();
    assert_eq!(ctrl.client().sent_configs.len(), 2);
    assert!(ctrl.client().sent_configs[0].contains("hw:CardA,0"));
    assert!(ctrl.client().sent_configs[1].contains("hw:CardB,0"));
    assert_eq!(ctrl.client().commands, vec!["Stop", "SetConfig", "Stop", "SetConfig"]);
}

#[test]
fn pending_start_suppresses_duplicate_set_config() {
    let client = MockClient::new(vec![
        MockClient::ok(),       // Stop
        MockClient::ok(),       // SetConfig
        MockClient::text("None"), // GetStopReason: still pending
    ]);
    let mut ctrl = make_controller(client, MockListener::new(vec![active_with_rate(44100)]));
    ctrl.handle_started(&active_with_rate(44100)).unwrap();
    assert_eq!(ctrl.client().sent_configs.len(), 1);
    ctrl.process_inactive_state(&active_with_rate(44100)).unwrap();
    assert_eq!(ctrl.client().sent_configs.len(), 1, "no duplicate SetConfig while pending");
}

#[test]
fn playback_error_with_inactive_source_skips_restart() {
    let mut ctrl = make_controller(MockClient::new(vec![]), MockListener::new(vec![]));
    ctrl.handle_stop_reason(StopReason::PlaybackError("XRUN".to_owned()), &inactive()).unwrap();
    assert_eq!(ctrl.client().sent_configs.len(), 0);
}

#[test]
fn validation_error_latches_retry_until_config_changes() {
    let client = MockClient::new(vec![Err(WsError::Command(
        CommandReason::ConfigValidation,
        "bad filter".to_owned(),
    ))]);
    let mut ctrl = make_controller(client, MockListener::new(vec![]));
    let snap = active_with_rate(44100);
    ctrl.handle_stop_reason(StopReason::UnknownError("oom".to_owned()), &snap).unwrap();
    assert_eq!(ctrl.client().sent_configs.len(), 1);
    ctrl.handle_stop_reason(StopReason::UnknownError("oom".to_owned()), &snap).unwrap();
    assert_eq!(ctrl.client().sent_configs.len(), 1, "latched: no second SetConfig");
}

#[test]
fn unknown_error_with_active_source_schedules_retry() {
    let mut ctrl = make_controller(MockClient::new(vec![MockClient::ok()]), MockListener::new(vec![]));
    ctrl.handle_stop_reason(StopReason::UnknownError("oom".to_owned()), &active_with_rate(44100))
        .unwrap();
    assert_eq!(ctrl.client().sent_configs.len(), 1);
    assert_eq!(ctrl.client().commands, vec!["SetConfig"]);
    assert_eq!(ctrl.retry_attempts(), 1);
    assert!(ctrl.start_pending());
}

#[test]
fn starting_deadline_check_sends_nothing_when_fresh() {
    let mut ctrl = make_controller(MockClient::new(vec![]), MockListener::new(vec![]));
    ctrl.check_starting_deadline().unwrap();
    assert_eq!(ctrl.client().sent_configs.len(), 0);
    assert!(ctrl.client().commands.is_empty());
    assert!(ctrl.start_pending(), "the pending timer is armed");
}

#[test]
fn set_config_carries_the_config_read_at_each_start() {
    let device = Rc::new(RefCell::new("hw:First,0".to_owned()));
    let mut ctrl = controller_with(
        MockClient::new(vec![MockClient::ok(), MockClient::ok(), MockClient::ok(), MockClient::ok()]),
        MockListener::new(vec![]),
        device.clone(),
    );
    ctrl.handle_started(&active_with_rate(48000)).unwrap();
    *device.borrow_mut() = "hw:Second,0".to_owned();
    ctrl.handle_started(&active_with_rate(48000)).unwrap();
    let sent = &ctrl.client().sent_configs;
    assert_eq!(sent.len(), 2);
    assert!(sent[0].contains("hw:First,0"));
    assert!(sent[1].contains("hw:Second,0"));
}

#[test]
fn playback_format_change_with_active_source_restarts() {
    let mut ctrl = make_controller(MockClient::new(vec![MockClient::ok()]), MockListener::new(vec![]));
    ctrl.handle_stop_reason(StopReason::PlaybackFormatChange(96000), &active_with_rate(96000))
        .unwrap();
    assert_eq!(ctrl.client().sent_configs.len(), 1);
}

#[test]
fn playback_format_change_with_inactive_source_skips_restart() {
    let mut ctrl = make_controller(MockClient::new(vec![]), MockListener::new(vec![]));
    ctrl.handle_stop_reason(StopReason::PlaybackFormatChange(96000), &inactive()).unwrap();
    assert_eq!(ctrl.client().sent_configs.len(), 0);
}

#[test]
fn bootstrap_does_not_open_capture_for_inactive_source() {
    let mut ctrl = make_controller(MockClient::new(vec![MockClient::text("Inactive")]), MockListener::new(vec![]));
    let inactive_snap = DeviceSnapshot {
        active: false,
        wave: WaveFormat {
            sample_rate: Some(96000),
            sample_format: Some("S24_3_LE".to_owned()),
            channels: Some(6),
        },
    };
    ctrl.bootstrap_initial_config(&inactive_snap).unwrap();
    assert_eq!(ctrl.client().sent_configs.len(), 0);
}

#[test]
fn bootstrap_uses_live_wave_for_active_source() {
    let mut ctrl = make_controller(
        MockClient::new(vec![MockClient::text("Inactive"), MockClient::ok()]),
        MockListener::new(vec![]),
    );
    ctrl.bootstrap_initial_config(&active_with_rate(96000)).unwrap();
    assert_eq!(ctrl.client().sent_configs.len(), 1);
    assert!(ctrl.client().sent_configs[0].contains("samplerate: 96000"));
}

#[test]
fn inactive_startup_then_first_playback_applies_live_wave() {
    let mut ctrl = make_controller(
        MockClient::new(vec![MockClient::text("Inactive"), MockClient::ok(), MockClient::ok()]),
        MockListener::new(vec![]),
    );
    ctrl.bootstrap_initial_config(&inactive()).unwrap();
    assert_eq!(ctrl.client().sent_configs.len(), 0);
    let active_snap = DeviceSnapshot {
        active: true,
        wave: WaveFormat {
            sample_rate: Some(48000),
            sample_format: Some("S16_LE".to_owned()),
            channels: Some(2),
        },
    };
    ctrl.handle_started(&active_snap).unwrap();
    assert_eq!(ctrl.client().sent_configs.len(), 1);
    assert!(ctrl.client().sent_configs[0].contains("samplerate: 48000"));
}

#[test]
fn capture_format_change_with_inactive_fresh_snapshot_skips_restart() {
    let stale_inactive_snapshot = DeviceSnapshot {
        active: false,
        wave: WaveFormat {
            sample_rate: Some(48000),
            sample_format: Some("S32_LE".to_owned()),
            channels: Some(2),
        },
    };
    let mut ctrl = make_controller(
        MockClient::new(vec![]),
        MockListener::new(vec![stale_inactive_snapshot.clone()]),
    );
    ctrl.handle_stop_reason(StopReason::CaptureFormatChange(48000), &stale_inactive_snapshot)
        .unwrap();
    assert_eq!(ctrl.client().sent_configs.len(), 0);
}

#[test]
fn capture_format_change_with_active_snapshot_uses_reported_rate_fallback() {
    let fresh_active_snapshot = DeviceSnapshot {
        active: true,
        wave: WaveFormat {
            sample_rate: None,
            sample_format: Some("S32_LE".to_owned()),
            channels: Some(2),
        },
    };
    let mut ctrl = make_controller(
        MockClient::new(vec![MockClient::ok(), MockClient::ok()]),
        MockListener::new(vec![fresh_active_snapshot.clone()]),
    );
    ctrl.handle_stop_reason(StopReason::CaptureFormatChange(96000), &fresh_active_snapshot)
        .unwrap();
    assert_eq!(ctrl.client().sent_configs.len(), 1);
    assert!(ctrl.client().sent_configs[0].contains("samplerate: 96000"));
}

#[test]
fn idle_invariant_stops_running_cdsp_once_when_source_inactive() {
    let mut ctrl = make_controller(MockClient::new(vec![MockClient::ok()]), MockListener::new(vec![]));
    ctrl.handle_processing_state(ProcessingState::Running, &inactive()).unwrap();
    assert_eq!(ctrl.client().stop_count, 1);
    assert!(ctrl.idle_stop_armed(), "guard must be set after first Stop");
    assert_eq!(ctrl.client().sent_configs.len(), 0);
    ctrl.handle_processing_state(ProcessingState::Running, &inactive()).unwrap();
    assert_eq!(ctrl.client().stop_count, 1, "no second Stop while the guard is armed");
    assert_eq!(ctrl.client().sent_configs.len(), 0);
}

#[test]
fn idle_invariant_clears_on_source_active_and_applies_config() {
    let mut ctrl = make_controller(
        MockClient::new(vec![MockClient::ok(), MockClient::ok(), MockClient::ok()]),
        MockListener::new(vec![]),
    );
    ctrl.handle_processing_state(ProcessingState::Running, &inactive()).unwrap();
    assert!(ctrl.idle_stop_armed());
    let active_snap = DeviceSnapshot {
        active: true,
        wave: WaveFormat {
            sample_rate: Some(48000),
            sample_format: Some("S16_LE".to_owned()),
            channels: Some(2),
        },
    };
    ctrl.handle_started(&active_snap).unwrap();
    assert_eq!(ctrl.client().sent_configs.len(), 1);
    assert!(ctrl.client().sent_configs[0].contains("samplerate: 48000"));
}

#[test]
fn idle_stop_guard_resets_after_inactive() {
    let mut ctrl = make_controller(
        MockClient::new(vec![MockClient::ok(), MockClient::text("None"), MockClient::ok()]),
        MockListener::new(vec![]),
    );
    ctrl.handle_processing_state(ProcessingState::Running, &inactive()).unwrap();
    assert_eq!(ctrl.client().stop_count, 1);
    ctrl.handle_processing_state(ProcessingState::Inactive, &inactive()).unwrap();
    ctrl.handle_processing_state(ProcessingState::Running, &inactive()).unwrap();
    assert_eq!(ctrl.client().stop_count, 2, "the guard was cleared by Inactive");
    assert_eq!(ctrl.client().commands, vec!["Stop", "GetStopReason", "Stop"]);
}

#[test]
fn bootstrap_stops_running_cdsp_when_source_is_inactive() {
    let mut ctrl = make_controller(
        MockClient::new(vec![MockClient::text("Running"), MockClient::ok()]),
        MockListener::new(vec![]),
    );
    ctrl.bootstrap_initial_config(&inactive()).unwrap();
    assert_eq!(ctrl.client().stop_count, 1);
    assert_eq!(ctrl.client().sent_configs.len(), 0);
    // The guard is armed: a Running tick right after sends no second Stop.
    ctrl.handle_processing_state(ProcessingState::Running, &inactive()).unwrap();
    assert_eq!(ctrl.client().stop_count, 1);
}

#[test]
fn normal_source_stop_arms_idle_stop_guard() {
    let mut ctrl = make_controller(MockClient::new(vec![MockClient::ok()]), MockListener::new(vec![]));
    ctrl.handle_stream_event(StreamEvent::Stopped, &inactive()).unwrap();
    assert_eq!(ctrl.client().stop_count, 1);
    ctrl.handle_processing_state(ProcessingState::Running, &inactive()).unwrap();
    assert_eq!(ctrl.client().stop_count, 1, "no extra Stop within the guard window");
}

#[test]
fn acceptance_rate_change_sequence_reapplies_live_rates() {
    let mut ctrl = make_controller(
        MockClient::new(vec![
            MockClient::ok(),
            MockClient::ok(),
            MockClient::ok(),
            MockClient::ok(),
            MockClient::ok(),
            MockClient::ok(),
        ]),
        MockListener::new(vec![]),
    );
    ctrl.handle_started(&active_with_rate(44100)).unwrap();
    ctrl.handle_started(&active_with_rate(48000)).unwrap();
    ctrl.handle_started(&active_with_rate(96000)).unwrap();
    let sent = &ctrl.client().sent_configs;
    assert_eq!(sent.len(), 3);
    assert!(sent[0].contains("samplerate: 44100"));
    assert!(sent[1].contains("samplerate: 48000"));
    assert!(sent[2].contains("samplerate: 96000"));
}

#[test]
fn acceptance_format_change_reapplies_live_format() {
    let mut ctrl = make_controller(
        MockClient::new(vec![MockClient::ok(), MockClient::ok(), MockClient::ok(), MockClient::ok()]),
        MockListener::new(vec![]),
    );
    let first = DeviceSnapshot {
        active: true,
        wave: WaveFormat {
            sample_rate: Some(48000),
            sample_format: Some("S16_LE".to_owned()),
            channels: Some(2),
        },
    };
    let second = DeviceSnapshot {
        active: true,
        wave: WaveFormat {
            sample_rate: Some(48000),
            sample_format: Some("S24_3_LE".to_owned()),
            channels: Some(2),
        },
    };
    ctrl.handle_started(&first).unwrap();
    ctrl.handle_started(&second).unwrap();
    assert_eq!(ctrl.client().sent_configs.len(), 2);
    assert_ne!(ctrl.client().sent_configs[0], ctrl.client().sent_configs[1]);
}

#[test]
fn started_stream_fills_missing_fields_from_the_fallback() {
    let mut ctrl = make_controller(
        MockClient::new(vec![MockClient::ok(), MockClient::ok()]),
        MockListener::new(vec![]),
    );
    let partial = DeviceSnapshot {
        active: true,
        wave: WaveFormat { sample_rate: Some(88200), sample_format: None, channels: None },
    };
    ctrl.handle_started(&partial).unwrap();
    assert!(ctrl.client().sent_configs[0].contains("samplerate: 88200"));
}

#[test]
fn failed_stop_on_stream_start_sends_no_config() {
    let mut ctrl = make_controller(
        MockClient::new(vec![Err(WsError::Transport("down".to_owned()))]),
        MockListener::new(vec![]),
    );
    assert!(ctrl.handle_started(&active_with_rate(44100)).is_err());
    assert_eq!(ctrl.client().sent_configs.len(), 0);
    assert_eq!(ctrl.client().commands, vec!["Stop"]);
}
