use picoredsp::benchmark::collectors::chunksize_from_client;
use picoredsp::camilladsp::websocket::{
    capture_rate_from, chunksize_from, config_file_path_from, parse_stop_reason, parse_ws_reply,
    version_from, ws_request, CamillaClient, CommandReason, ProcessingState, StopReason,
    WsError,
};
use picoredsp::json::{json_to_string, Json, JsonNumber};
use std::collections::VecDeque;

/// Scripted client for the typed convenience methods of `CamillaClient`.
struct MockClient {
    responses: VecDeque<Result<Option<Json>, WsError>>,
    commands_sent: Vec<(String, Option<Json>)>,
}

impl MockClient {
    fn new(responses: Vec<Result<Option<Json>, WsError>>) -> Self {
        Self { responses: responses.into(), commands_sent: Vec::new() }
    }
}

impl CamillaClient for MockClient {
    fn query(&mut self, command: &str, argument: Option<Json>) -> Result<Option<Json>, WsError> {
        self.commands_sent.push((command.to_owned(), argument));
        self.responses
            .pop_front()
            .unwrap_or_else(|| Err(WsError::Transport("no more responses".to_owned())))
    }
}

fn s(v: &str) -> Json {
    Json::Str(v.to_owned())
}

fn n(v: u64) -> Json {
    Json::Number(JsonNumber::PosInt(v))
}

fn obj(members: Vec<(&str, Json)>) -> Json {
    Json::Object(members.into_iter().map(|(k, v)| (k.to_owned(), v)).collect())
}

#[test]
fn get_version_sends_get_version_and_extracts_string() {
    let mut client = MockClient::new(vec![Ok(Some(s("3.0.0")))]);
    assert_eq!(client.get_version().unwrap(), "3.0.0");
    assert_eq!(client.commands_sent, vec![("GetVersion".to_owned(), None)]);
}

#[test]
fn get_version_non_string_value_is_protocol_error() {
    let mut client = MockClient::new(vec![Ok(Some(n(42)))]);
    assert!(matches!(client.get_version(), Err(WsError::Protocol(_))));
}

#[test]
fn get_state_sends_get_state_and_parses_processing_state() {
    let mut client = MockClient::new(vec![Ok(Some(s("Running")))]);
    assert_eq!(client.get_state().unwrap(), ProcessingState::Running);
    assert_eq!(client.commands_sent, vec![("GetState".to_owned(), None)]);
}

#[test]
fn get_stop_reason_sends_get_stop_reason_and_parses_reason() {
    let mut client = MockClient::new(vec![Ok(Some(s("Done")))]);
    assert_eq!(client.get_stop_reason().unwrap(), StopReason::Done);
    assert_eq!(client.commands_sent, vec![("GetStopReason".to_owned(), None)]);
}

#[test]
fn get_capture_rate_sends_get_capture_rate_and_extracts_u64() {
    let mut client = MockClient::new(vec![Ok(Some(n(48_000)))]);
    assert_eq!(client.get_capture_rate().unwrap(), 48_000);
    assert_eq!(client.commands_sent, vec![("GetCaptureRate".to_owned(), None)]);
}

#[test]
fn get_capture_rate_zero_is_not_an_error() {
    let mut client = MockClient::new(vec![Ok(Some(n(0)))]);
    assert_eq!(client.get_capture_rate().unwrap(), 0);
}

#[test]
fn get_capture_rate_missing_value_is_protocol_error() {
    let mut client = MockClient::new(vec![Ok(None)]);
    assert!(matches!(client.get_capture_rate(), Err(WsError::Protocol(_))));
}

#[test]
fn get_config_value_sends_pointer_as_argument() {
    let mut client = MockClient::new(vec![Ok(Some(n(1024)))]);
    let value = client.get_config_value("/devices/chunksize").unwrap();
    assert_eq!(value, Some(n(1024)));
    assert_eq!(
        client.commands_sent,
        vec![("GetConfigValue".to_owned(), Some(s("/devices/chunksize")))]
    );
}

#[test]
fn get_config_file_path_returns_none_when_no_config_loaded() {
    let mut client = MockClient::new(vec![Ok(None)]);
    assert_eq!(client.get_config_file_path().unwrap(), None);
}

#[test]
fn get_config_file_path_extracts_string() {
    let mut client = MockClient::new(vec![Ok(Some(s("/tmp/cfg.yml")))]);
    assert_eq!(client.get_config_file_path().unwrap(), Some("/tmp/cfg.yml".to_owned()));
}

#[test]
fn set_config_sends_config_yaml_as_string_argument() {
    let mut client = MockClient::new(vec![Ok(None)]);
    client.set_config("devices: {}").unwrap();
    assert_eq!(client.commands_sent, vec![("SetConfig".to_owned(), Some(s("devices: {}")))]);
}

#[test]
fn set_config_propagates_command_errors() {
    let mut client = MockClient::new(vec![Err(WsError::Command(
        CommandReason::ConfigValidation,
        "bad config".to_owned(),
    ))]);
    assert!(matches!(
        client.set_config("bogus"),
        Err(WsError::Command(CommandReason::ConfigValidation, _))
    ));
}

#[test]
fn validate_config_sends_config_yaml_as_string_argument() {
    let mut client = MockClient::new(vec![Ok(None)]);
    client.validate_config("devices: {}").unwrap();
    assert_eq!(
        client.commands_sent,
        vec![("ValidateConfig".to_owned(), Some(s("devices: {}")))]
    );
}

#[test]
fn stop_sends_stop_with_no_argument() {
    let mut client = MockClient::new(vec![Ok(None)]);
    client.stop().unwrap();
    assert_eq!(client.commands_sent, vec![("Stop".to_owned(), None)]);
}

#[test]
fn websocket_stop_reason_json_shapes_match_camilladsp_v4_protocol() {
    assert_eq!(
        parse_stop_reason(Some(obj(vec![("CaptureFormatChange", n(96000))]))).unwrap(),
        StopReason::CaptureFormatChange(96000)
    );
    assert_eq!(
        parse_stop_reason(Some(obj(vec![("CaptureError", s("boom"))]))).unwrap(),
        StopReason::CaptureError("boom".to_owned())
    );
    assert_eq!(parse_stop_reason(Some(s("None"))).unwrap(), StopReason::NoReason);
    assert_eq!(parse_stop_reason(Some(s("Done"))).unwrap(), StopReason::Done);
}

#[test]
fn stop_reason_malformed_format_change_payload_is_protocol_error() {
    assert!(matches!(
        parse_stop_reason(Some(obj(vec![("CaptureFormatChange", s("garbage"))]))),
        Err(WsError::Protocol(_))
    ));
    assert!(matches!(
        parse_stop_reason(Some(obj(vec![("PlaybackFormatChange", Json::Null)]))),
        Err(WsError::Protocol(_))
    ));
}

#[test]
fn stop_reason_multi_key_object_is_protocol_error() {
    assert!(matches!(
        parse_stop_reason(Some(obj(vec![("CaptureError", s("a")), ("PlaybackError", s("b"))]))),
        Err(WsError::Protocol(_))
    ));
}

#[test]
fn websocket_ws_reply_ok_extracts_value() {
    let reply = obj(vec![("GetState", obj(vec![("result", s("Ok")), ("value", s("Inactive"))]))]);
    let value = parse_ws_reply("GetState", reply).unwrap();
    assert_eq!(value, Some(s("Inactive")));
}

#[test]
fn websocket_ws_reply_ok_without_value_returns_none() {
    let reply = obj(vec![("Stop", obj(vec![("result", s("Ok"))]))]);
    let value = parse_ws_reply("Stop", reply).unwrap();
    assert_eq!(value, None);
}

#[test]
fn websocket_ws_reply_error_result_propagates_as_command_error() {
    let err = obj(vec![(
        "SetConfig",
        obj(vec![("result", obj(vec![("ConfigValidationError", s("bad config"))]))]),
    )]);
    assert!(matches!(
        parse_ws_reply("SetConfig", err),
        Err(WsError::Command(CommandReason::ConfigValidation, _))
    ));
}

#[test]
fn websocket_ws_reply_string_error_propagates_as_command_error() {
    let err = obj(vec![("SetConfig", obj(vec![("result", s("Error"))]))]);
    assert!(matches!(
        parse_ws_reply("SetConfig", err),
        Err(WsError::Command(CommandReason::Other, _))
    ));
}

#[test]
fn ws_reply_rate_limit_is_classified() {
    let reply = obj(vec![("SetConfig", obj(vec![("result", s("RateLimitExceededError"))]))]);
    assert!(matches!(
        parse_ws_reply("SetConfig", reply),
        Err(WsError::Command(CommandReason::RateLimit, _))
    ));
}

#[test]
fn ws_reply_shutdown_is_classified() {
    let reply = obj(vec![("SetConfig", obj(vec![("result", s("ShutdownInProgressError"))]))]);
    assert!(matches!(
        parse_ws_reply("SetConfig", reply),
        Err(WsError::Command(CommandReason::Shutdown, _))
    ));
}

#[test]
fn ws_reply_for_another_command_is_protocol_error() {
    let reply = obj(vec![("GetState", obj(vec![("result", s("Ok"))]))]);
    assert!(matches!(parse_ws_reply("Stop", reply), Err(WsError::Protocol(_))));
}

#[test]
fn ws_reply_without_result_is_protocol_error() {
    let reply = obj(vec![("Stop", obj(vec![("value", s("x"))]))]);
    assert!(matches!(parse_ws_reply("Stop", reply), Err(WsError::Protocol(_))));
}

#[test]
fn requests_are_the_command_or_a_one_member_object() {
    assert_eq!(json_to_string(&ws_request("GetState", None)), "\"GetState\"");
    assert_eq!(
        json_to_string(&ws_request("SetConfig", Some(s("devices: {}\n")))),
        "{\"SetConfig\":\"devices: {}\\n\"}"
    );
    assert_eq!(
        json_to_string(&ws_request("GetConfigValue", Some(s("/devices/chunksize")))),
        "{\"GetConfigValue\":\"/devices/chunksize\"}"
    );
}

#[test]
fn reply_values_are_read_exactly() {
    assert_eq!(version_from(Some(s("4.1.3"))).unwrap(), "4.1.3");
    assert!(matches!(
        version_from(Some(n(42))),
        Err(WsError::Protocol(m)) if m == "GetVersion returned non-string value: Some(42)"
    ));
    assert!(matches!(
        version_from(None),
        Err(WsError::Protocol(m)) if m == "GetVersion returned non-string value: None"
    ));
    assert_eq!(capture_rate_from(Some(n(96000))).unwrap(), 96000);
    assert!(matches!(
        capture_rate_from(Some(s("x"))),
        Err(WsError::Protocol(m)) if m == "GetCaptureRate returned non-numeric value: Some(\"x\")"
    ));
    assert_eq!(config_file_path_from(Some(s("/a.yml"))), Some("/a.yml".to_owned()));
    assert_eq!(config_file_path_from(Some(Json::Null)), None);
    assert_eq!(chunksize_from(Some(n(2048))), Some(2048));
    assert_eq!(chunksize_from(Some(s("2048"))), None);
    assert_eq!(chunksize_from(None), None);
}

#[test]
fn chunksize_from_client_sends_get_config_value_with_chunksize_pointer() {
    let mut client = MockClient::new(vec![Ok(Some(n(2048)))]);
    let chunksize = chunksize_from_client(&mut client);
    assert_eq!(chunksize, Some(2048));
    let names: Vec<&str> = client.commands_sent.iter().map(|(c, _)| c.as_str()).collect();
    assert_eq!(names, vec!["GetConfigValue"]);
    assert_eq!(client.commands_sent[0].1, Some(s("/devices/chunksize")));
}

#[test]
fn chunksize_from_client_returns_none_on_transport_error() {
    let mut client = MockClient::new(vec![Err(WsError::Transport("down".to_owned()))]);
    assert_eq!(chunksize_from_client(&mut client), None);
}

#[test]
fn chunksize_from_client_ignores_non_integer_values() {
    let mut client = MockClient::new(vec![Ok(Some(s("2048")))]);
    assert_eq!(chunksize_from_client(&mut client), None);
    let mut client = MockClient::new(vec![Ok(None)]);
    assert_eq!(chunksize_from_client(&mut client), None);
}
