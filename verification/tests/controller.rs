use picoredsp::backend::{StreamEvent, StreamParams};
use picoredsp::controller::{
    ioplug_runtime_config_path, runtime_dir_of, IoplugAction, IoplugEvent, IoplugLoop, IoplugPhase,
    PluginError,
};
use picoredsp::core_logic::recovery::ConfigFingerprint;
use picoredsp::error::AppError;

#[test]
fn ioplug_runtime_config_path_uses_socket_directory() {
    let runtime = ioplug_runtime_config_path("/run/picoredsp/control.sock");
    assert_eq!(runtime, "/run/picoredsp/camilladsp_runtime.yml");
}

#[test]
fn ioplug_runtime_config_path_falls_back_to_current_directory_for_bare_socket_name() {
    let runtime = ioplug_runtime_config_path("control.sock");
    assert_eq!(runtime, "./camilladsp_runtime.yml");
}

#[test]
fn runtime_dir_defaults_to_current_directory() {
    assert_eq!(runtime_dir_of(None), ".");
    assert_eq!(runtime_dir_of(Some(String::new())), ".");
    assert_eq!(runtime_dir_of(Some("/run".to_string())), "/run");
}

fn fingerprint(size: u64) -> ConfigFingerprint {
    let mut fp = ConfigFingerprint::absent();
    fp.target = "/etc/cdsp/baseline.yml".to_string();
    fp.target_size = size;
    fp
}

fn start(rate: u32) -> IoplugEvent {
    IoplugEvent::Polled(Ok(Some(StreamEvent::Started(StreamParams {
        rate,
        format: "S16_LE".to_string(),
        channels: 2,
    }))))
}

#[test]
fn ioplug_loop_runs_a_clean_stream() {
    let (mut lp, first) = IoplugLoop::new(fingerprint(10));
    assert!(matches!(first, IoplugAction::Poll(200)));
    assert!(matches!(lp.step(IoplugEvent::Polled(Ok(None))), IoplugAction::Poll(200)));
    match lp.step(start(48000)) {
        IoplugAction::Adapt(w) => {
            assert_eq!(w.sample_rate, Some(48000));
            assert_eq!(w.sample_format, Some("S16_LE".to_string()));
            assert_eq!(w.channels, Some(2));
        }
        _ => panic!("expected Adapt"),
    }
    match lp.step(IoplugEvent::Adapted(Ok("devices: {}\n".to_string()))) {
        IoplugAction::WriteRuntime(y) => assert_eq!(y, "devices: {}\n"),
        _ => panic!("expected WriteRuntime"),
    }
    assert!(matches!(lp.step(IoplugEvent::Written(true)), IoplugAction::Spawn));
    assert!(matches!(lp.step(IoplugEvent::Spawned(true)), IoplugAction::CheckStartup));
    assert!(matches!(lp.step(IoplugEvent::StartupChecked(true)), IoplugAction::SendReady));
    assert!(matches!(lp.step(IoplugEvent::ReadySent(true)), IoplugAction::CheckLiveness));
    assert!(matches!(lp.step(IoplugEvent::Liveness(true)), IoplugAction::Poll(200)));
    assert!(matches!(lp.step(IoplugEvent::Polled(Ok(None))), IoplugAction::CheckLiveness));
    assert!(matches!(lp.step(IoplugEvent::Liveness(true)), IoplugAction::Poll(200)));
    assert!(matches!(
        lp.step(IoplugEvent::Polled(Ok(Some(StreamEvent::Stopped)))),
        IoplugAction::StopStream(None)
    ));
    assert_eq!(lp.attempts(), 0);
    assert!(matches!(lp.step(IoplugEvent::Done), IoplugAction::Poll(200)));
    assert_eq!(lp.phase(), IoplugPhase::AwaitStart);
}

#[test]
fn ioplug_adaptation_failure_latches_until_config_changes() {
    let (mut lp, _) = IoplugLoop::new(fingerprint(10));
    let _ = lp.step(start(44100));
    let err = AppError { message: "bad config".to_string() };
    assert!(matches!(lp.step(IoplugEvent::Adapted(Err(err))), IoplugAction::Reject(PluginError::Config)));
    // Latched: the loop backs off and samples the fingerprint.
    assert!(matches!(lp.step(IoplugEvent::Done), IoplugAction::SampleFingerprint));
    assert!(matches!(lp.step(IoplugEvent::Fingerprint(fingerprint(10))), IoplugAction::Poll(100)));
    // A plugin that connects while latched is turned away.
    assert!(matches!(lp.step(start(44100)), IoplugAction::Reject(PluginError::Internal)));
    assert!(matches!(lp.step(IoplugEvent::Done), IoplugAction::SampleFingerprint));
    // A changed config clears the latch and the loop waits for a START again.
    assert!(matches!(lp.step(IoplugEvent::Fingerprint(fingerprint(11))), IoplugAction::Poll(200)));
    assert_eq!(lp.phase(), IoplugPhase::AwaitStart);
}

#[test]
fn ioplug_failures_count_attempts() {
    let (mut lp, _) = IoplugLoop::new(fingerprint(1));
    let _ = lp.step(start(48000));
    let _ = lp.step(IoplugEvent::Adapted(Ok("x".to_string())));
    let _ = lp.step(IoplugEvent::Written(true));
    assert!(matches!(lp.step(IoplugEvent::Spawned(false)), IoplugAction::Reject(PluginError::Internal)));
    assert_eq!(lp.attempts(), 1);
    assert_eq!(lp.phase(), IoplugPhase::Settling);
}

#[test]
fn ioplug_poll_error_ends_the_loop() {
    let (mut lp, _) = IoplugLoop::new(fingerprint(1));
    let err = AppError { message: "socket gone".to_string() };
    match lp.step(IoplugEvent::Polled(Err(err))) {
        IoplugAction::Fail(e) => assert_eq!(e.message, "socket gone"),
        _ => panic!("expected Fail"),
    }
    assert_eq!(lp.phase(), IoplugPhase::Failed);
}

#[test]
fn ioplug_startup_crash_stops_stream_and_rejects() {
    let (mut lp, _) = IoplugLoop::new(fingerprint(1));
    let _ = lp.step(start(48000));
    let _ = lp.step(IoplugEvent::Adapted(Ok("x".to_string())));
    let _ = lp.step(IoplugEvent::Written(true));
    let _ = lp.step(IoplugEvent::Spawned(true));
    assert!(matches!(
        lp.step(IoplugEvent::StartupChecked(false)),
        IoplugAction::StopStream(Some(PluginError::Internal))
    ));
    assert_eq!(lp.attempts(), 1);
}

#[test]
fn ioplug_start_is_answered_exactly_once_before_the_next_poll() {
    fn answers(a: &IoplugAction) -> bool {
        matches!(a, IoplugAction::Reject(_) | IoplugAction::StopStream(Some(_)) | IoplugAction::SendReady)
    }
    // Spawning fails: one rejection, then back to the top.
    let (mut lp, _) = IoplugLoop::new(fingerprint(3));
    let mut actions = vec![lp.step(start(48000))];
    for ev in [
        IoplugEvent::Adapted(Ok("devices: {}\n".to_string())),
        IoplugEvent::Written(true),
        IoplugEvent::Spawned(false),
        IoplugEvent::Done,
    ] {
        actions.push(lp.step(ev));
    }
    while !matches!(actions.last(), Some(IoplugAction::Poll(_))) {
        let next = match actions.last() {
            Some(IoplugAction::SampleFingerprint) => lp.step(IoplugEvent::Fingerprint(fingerprint(3))),
            other => panic!("unexpected action {:?}", other.is_some()),
        };
        actions.push(next);
    }
    assert_eq!(actions.iter().filter(|a| answers(a)).count(), 1);
}
