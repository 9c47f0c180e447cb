use picoredsp::backend::ioplug::{
    idle_poll_sleep_ms, validate_start, ActiveRead, IoplugBackend, PollAction, StartRejection,
};
use picoredsp::backend::{AudioTransport, BackendProfile, StreamDetector, StreamEvent, StreamParams};
use picoredsp::error::app_error_str;

fn started(rate: u32, format: &str, channels: u32) -> StreamEvent {
    StreamEvent::Started(StreamParams { rate, format: format.to_owned(), channels })
}

#[test]
fn idle_poll_returns_none_when_no_client() {
    let backend = IoplugBackend::new();
    // An idle session only tries to accept; with no plugin waiting it sleeps
    // and yields no event, its snapshot staying inactive.
    assert_eq!(backend.poll_action(50), PollAction::Accept(12));
    assert!(!backend.current_snapshot().active);
    assert!(!backend.awaiting_ack());
}

#[test]
fn poll_returns_started_on_valid_start_message() {
    let mut backend = IoplugBackend::new();
    let event = backend.start_received(1, 1, 48_000, 10, 2).unwrap();
    assert_eq!(event, started(48_000, "S32_LE", 2));

    let snap = backend.current_snapshot();
    assert!(snap.active);
    assert_eq!(snap.wave.sample_rate, Some(48_000));
    assert_eq!(snap.wave.sample_format.as_deref(), Some("S32_LE"));
    assert_eq!(snap.wave.channels, Some(2));
}

#[test]
fn malformed_client_does_not_poison_listener_for_next_client() {
    let mut backend = IoplugBackend::new();
    // A client whose START carries another version than HELLO negotiated is
    // turned away and the session stays idle.
    assert_eq!(
        backend.start_received(1, 2, 48_000, 10, 2),
        Err(StartRejection::VersionMismatch { negotiated: 1, got: 2 })
    );
    assert!(!backend.current_snapshot().active);
    assert_eq!(backend.poll_action(200), PollAction::Accept(50));

    let event = backend.start_received(1, 1, 48_000, 10, 2).unwrap();
    assert_eq!(event, started(48_000, "S32_LE", 2));
}

#[test]
fn on_stream_ready_returns_error_for_ioplug() {
    let mut backend = IoplugBackend::new();
    backend.start_received(1, 1, 44_100, 2, 2).unwrap();
    let err = backend.on_stream_ready().unwrap_err();
    assert!(
        err.to_string().contains("send_ready_with_fd_to_plugin"),
        "error should mention the correct API, got: {}",
        err.message
    );
    // The plugin still awaits READY.
    assert!(backend.awaiting_ack());
}

#[test]
fn send_ready_to_plugin_sends_ready_to_plugin() {
    let mut backend = IoplugBackend::new();
    backend.start_received(1, 1, 44_100, 2, 2).unwrap();
    backend.send_ready_to_plugin(Ok(())).unwrap();
    assert!(backend.current_snapshot().active);
    assert_eq!(backend.poll_action(200), PollAction::ReadActive);
}

#[test]
fn poll_returns_stopped_on_stop_message() {
    let mut backend = IoplugBackend::new();
    backend.start_received(1, 1, 96_000, 10, 2).unwrap();
    backend.send_ready_to_plugin(Ok(())).unwrap();

    let (event, send_error) = backend.active_read(ActiveRead::Stop);
    assert_eq!(event, Some(StreamEvent::Stopped));
    assert!(!send_error);
    assert!(!backend.current_snapshot().active);
}

#[test]
fn poll_returns_stopped_on_plugin_disconnect() {
    let mut backend = IoplugBackend::new();
    backend.start_received(1, 1, 48_000, 10, 2).unwrap();
    backend.send_ready_with_fd_to_plugin(Ok(())).unwrap();

    let (event, send_error) = backend.active_read(ActiveRead::Disconnected);
    assert_eq!(event, Some(StreamEvent::Stopped));
    assert!(!send_error);
}

#[test]
fn active_timeout_keeps_stream_running() {
    let mut backend = IoplugBackend::new();
    backend.start_received(1, 1, 48_000, 10, 2).unwrap();
    backend.send_ready_with_fd_to_plugin(Ok(())).unwrap();

    assert_eq!(backend.active_read(ActiveRead::Timeout), (None, false));
    assert!(backend.current_snapshot().active);
    assert_eq!(backend.poll_action(200), PollAction::ReadActive);
}

#[test]
fn active_protocol_violation_stops_with_error_to_plugin() {
    let mut backend = IoplugBackend::new();
    backend.start_received(1, 1, 48_000, 10, 2).unwrap();
    backend.send_ready_with_fd_to_plugin(Ok(())).unwrap();

    let (event, send_error) = backend.active_read(ActiveRead::OtherMessage);
    assert_eq!(event, Some(StreamEvent::Stopped));
    assert!(send_error);
    assert_eq!(backend.poll_action(200), PollAction::Accept(50));
}

#[test]
fn backend_supports_two_full_ioplug_stream_chains_in_sequence() {
    let mut backend = IoplugBackend::new();
    for rate in [48_000u32, 96_000] {
        assert_eq!(backend.start_received(1, 1, rate, 10, 2).unwrap(), started(rate, "S32_LE", 2));
        backend.send_ready_with_fd_to_plugin(Ok(())).unwrap();
        assert_eq!(backend.current_snapshot().wave.sample_rate, Some(rate));
        assert_eq!(backend.active_read(ActiveRead::Stop).0, Some(StreamEvent::Stopped));
        assert!(!backend.current_snapshot().active);
    }
}

#[test]
fn ready_without_waiting_plugin_is_an_error() {
    let mut backend = IoplugBackend::new();
    let err = backend.send_ready_with_fd_to_plugin(Ok(())).unwrap_err();
    assert_eq!(
        err.message,
        "send_ready_with_fd_to_plugin called but backend is not in AwaitingAck state"
    );
    let err = backend.send_ready_to_plugin(Ok(())).unwrap_err();
    assert_eq!(err.message, "send_ready_to_plugin called but backend is not in AwaitingAck state");
}

#[test]
fn failed_ready_delivery_leaves_session_idle() {
    let mut backend = IoplugBackend::new();
    backend.start_received(1, 1, 48_000, 10, 2).unwrap();
    let err = backend
        .send_ready_with_fd_to_plugin(Err(app_error_str("broken pipe")))
        .unwrap_err();
    assert_eq!(err.message, "IPC send READY+fd: broken pipe");
    assert!(!backend.current_snapshot().active);
    assert_eq!(backend.poll_action(4), PollAction::Accept(1));
}

#[test]
fn error_to_waiting_plugin_resets_session() {
    let mut backend = IoplugBackend::new();
    assert!(!backend.send_error_to_plugin());
    backend.start_received(1, 1, 48_000, 10, 2).unwrap();
    assert_eq!(backend.poll_action(200), PollAction::Wait(10));
    assert!(backend.send_error_to_plugin());
    assert!(!backend.current_snapshot().active);
    assert!(backend.read_snapshot().is_ok());
}

#[test]
fn start_rejections_name_their_cause() {
    assert_eq!(
        validate_start(1, 1, 48_000, 10, 6).err(),
        Some(StartRejection::UnsupportedChannels(6))
    );
    let mut backend = IoplugBackend::new();
    assert_eq!(
        backend.start_received(1, 1, 48_000, 10, 1),
        Err(StartRejection::UnsupportedChannels(1))
    );
    assert!(!backend.awaiting_ack());
    assert_eq!(idle_poll_sleep_ms(1000), 50);
}

#[test]
fn ioplug_profile_is_ipc_detector_with_stdin_pipe() {
    let backend = IoplugBackend::new();
    assert_eq!(backend.detector(), StreamDetector::IoplugIpc);
    assert_eq!(backend.transport(), AudioTransport::StdinPipe);
}
