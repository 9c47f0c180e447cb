//! CamillaDSP 4.x and 5.x WebSocket adapters: their addresses and the
//! decoding of the values their commands return.
use crate::camilla::control::{version_of, DspState, StopReason, Version};
use crate::error::PicorecdspError;
use crate::camilladsp::websocket::take_member;
use crate::json::{as_str_spec, get, get_key, json_text, json_to_string, Json};
use crate::text::{chars_of, concat2, concat3, debug_opt_str, debug_text, str_eq, trim, trim_chars};
use vstd::prelude::*;

verus! {

/// The text of a string value, if `v` is one.
fn json_str(v: &Json) -> (r: Option<&str>)
    ensures
        match r {
            Some(s) => as_str_spec(*v) == Some(s@),
            None => as_str_spec(*v) is None,
        },
{
    match v {
        Json::Str(s) => Some(s.as_str()),
        _ => None,
    }
}

/// The state a `GetState` string names, if any.
pub open spec fn state_named(s: Seq<char>) -> Option<DspState> {
    if s == "Starting"@ {
        Some(DspState::Starting)
    } else if s == "Running"@ {
        Some(DspState::Running)
    } else if s == "Paused"@ {
        Some(DspState::Paused)
    } else if s == "Inactive"@ || s == "Idle"@ || s == "Stopped"@ {
        Some(DspState::Inactive)
    } else if s == "Stalled"@ {
        Some(DspState::Stalled)
    } else if s == "Failed"@ || s == "Error"@ {
        Some(DspState::Failed)
    } else {
        None
    }
}

/// The view of a protocol error.
pub open spec fn protocol_message(e: PicorecdspError) -> Option<Seq<char>> {
    match e {
        PicorecdspError::ProtocolError(m) => Some(m@),
        _ => None,
    }
}

/// The state a `GetState` result denotes, or the protocol error message
/// (`prefix` followed by the `Debug` text of the string, if any).
pub open spec fn state_of(v: Json, prefix: Seq<char>) -> Result<DspState, Seq<char>> {
    match as_str_spec(v) {
        Some(s) => match state_named(s) {
            Some(st) => Ok(st),
            None => Err(prefix + debug_opt_str(Some(s))),
        },
        None => Err(prefix + debug_opt_str(None)),
    }
}

/// The view of a state-parse result.
pub open spec fn state_result(r: Result<DspState, PicorecdspError>) -> Result<DspState, Option<Seq<char>>> {
    match r {
        Ok(s) => Ok(s),
        Err(e) => Err(protocol_message(e)),
    }
}

fn state_from(v: &Json, prefix: &str) -> (r: Result<DspState, PicorecdspError>)
    ensures
        state_result(r) == match state_of(*v, prefix@) {
            Ok(s) => Ok(s),
            Err(m) => Err::<DspState, Option<Seq<char>>>(Some(m)),
        },
{
    let s = json_str(v);
    match s {
        Some(t) => {
            if str_eq(t, "Starting") {
                return Ok(DspState::Starting);
            } else if str_eq(t, "Running") {
                return Ok(DspState::Running);
            } else if str_eq(t, "Paused") {
                return Ok(DspState::Paused);
            } else if str_eq(t, "Inactive") || str_eq(t, "Idle") || str_eq(t, "Stopped") {
                return Ok(DspState::Inactive);
            } else if str_eq(t, "Stalled") {
                return Ok(DspState::Stalled);
            } else if str_eq(t, "Failed") || str_eq(t, "Error") {
                return Ok(DspState::Failed);
            }
        },
        None => {},
    }
    Err(PicorecdspError::ProtocolError(concat2(prefix, debug_text(s).as_str())))
}

/// Decode a CamillaDSP 4.x `GetState` result.
pub fn parse_state(v: &Json) -> (r: Result<DspState, PicorecdspError>)
    ensures
        state_result(r) == match state_of(*v, "unknown GetState value: "@) {
            Ok(s) => Ok(s),
            Err(m) => Err::<DspState, Option<Seq<char>>>(Some(m)),
        },
{
    state_from(v, "unknown GetState value: ")
}

/// Decode a CamillaDSP 5.x `GetState` result: `Inactive` is canonical and
/// `Idle`/`Stopped` are accepted as aliases.
pub fn parse_state_v5(v: &Json) -> (r: Result<DspState, PicorecdspError>)
    ensures
        state_result(r) == match state_of(*v, "unknown GetState value (v5): "@) {
            Ok(s) => Ok(s),
            Err(m) => Err::<DspState, Option<Seq<char>>>(Some(m)),
        },
{
    state_from(v, "unknown GetState value (v5): ")
}

/// The mathematical value of a [`StopReason`].
pub enum StopReasonView {
    CaptureError,
    PlaybackError,
    CaptureFormatChange,
    PlaybackFormatChange,
    Done,
    NoReason,
    Other(Seq<char>),
}

impl View for StopReason {
    type V = StopReasonView;

    open spec fn view(&self) -> StopReasonView {
        match self {
            StopReason::CaptureError => StopReasonView::CaptureError,
            StopReason::PlaybackError => StopReasonView::PlaybackError,
            StopReason::CaptureFormatChange => StopReasonView::CaptureFormatChange,
            StopReason::PlaybackFormatChange => StopReasonView::PlaybackFormatChange,
            StopReason::Done => StopReasonView::Done,
            StopReason::NoReason => StopReasonView::NoReason,
            StopReason::Other(s) => StopReasonView::Other(s@),
        }
    }
}

/// The stop reason a `GetStopReason` result denotes: a missing, `"None"` or
/// empty string is no reason; a string CamillaDSP may add later is kept.
pub open spec fn stop_reason_named(v: Json) -> StopReasonView {
    match as_str_spec(v) {
        None => StopReasonView::NoReason,
        Some(s) => if s == "None"@ || s == ""@ {
            StopReasonView::NoReason
        } else if s == "CaptureError"@ {
            StopReasonView::CaptureError
        } else if s == "PlaybackError"@ {
            StopReasonView::PlaybackError
        } else if s == "CaptureFormatChange"@ {
            StopReasonView::CaptureFormatChange
        } else if s == "PlaybackFormatChange"@ {
            StopReasonView::PlaybackFormatChange
        } else if s == "Done"@ {
            StopReasonView::Done
        } else {
            StopReasonView::Other(s)
        },
    }
}

/// Decode a CamillaDSP 4.x `GetStopReason` result.
pub fn parse_stop_reason(v: &Json) -> (r: StopReason)
    ensures
        r@ == stop_reason_named(*v),
{
    match json_str(v) {
        None => StopReason::NoReason,
        Some(s) => {
            if str_eq(s, "None") || str_eq(s, "") {
                StopReason::NoReason
            } else if str_eq(s, "CaptureError") {
                StopReason::CaptureError
            } else if str_eq(s, "PlaybackError") {
                StopReason::PlaybackError
            } else if str_eq(s, "CaptureFormatChange") {
                StopReason::CaptureFormatChange
            } else if str_eq(s, "PlaybackFormatChange") {
                StopReason::PlaybackFormatChange
            } else if str_eq(s, "Done") {
                StopReason::Done
            } else {
                let o = s.to_string();
                assert(o@ == s@);
                StopReason::Other(o)
            }
        },
    }
}

/// Decode a CamillaDSP 5.x `GetStopReason` result (the 4.x mapping).
pub fn parse_stop_reason_v5(v: &Json) -> (r: StopReason)
    ensures
        r@ == stop_reason_named(*v),
{
    parse_stop_reason(v)
}

/// The version a `GetVersion` result denotes, or the protocol error message.
pub open spec fn version_reply(v: Json) -> Result<Version, Seq<char>> {
    match as_str_spec(v) {
        Some(s) => version_of(s),
        None => Err("GetVersion result is not a string"@),
    }
}

/// The view of a version result.
pub open spec fn version_reply_result(r: Result<Version, PicorecdspError>) -> Result<Version, Option<Seq<char>>> {
    match r {
        Ok(v) => Ok(v),
        Err(e) => Err(protocol_message(e)),
    }
}

/// Decode a `GetVersion` result (both protocol versions).
pub fn parse_version(v: &Json) -> (r: Result<Version, PicorecdspError>)
    ensures
        version_reply_result(r) == match version_reply(*v) {
            Ok(x) => Ok(x),
            Err(m) => Err::<Version, Option<Seq<char>>>(Some(m)),
        },
{
    match json_str(v) {
        Some(s) => match Version::parse(s) {
            Ok(x) => Ok(x),
            Err(m) => Err(PicorecdspError::ProtocolError(m)),
        },
        None => Err(PicorecdspError::ProtocolError("GetVersion result is not a string".to_string())),
    }
}

/// What a config reply holds: no config (`null`, or a blank string), the
/// YAML text of one, or a value that is neither (the message names what was
/// expected with `label`).
pub open spec fn config_reply_labelled(v: Json, label: Seq<char>) -> Result<Option<Seq<char>>, Seq<char>> {
    match v {
        Json::Null => Ok(None),
        Json::Str(s) => if trim(s@).len() == 0 {
            Ok(None)
        } else {
            Ok(Some(s@))
        },
        other => Err(label + ", got "@ + json_text(other)),
    }
}

/// What a 4.x config reply holds.
pub open spec fn config_reply(v: Json) -> Result<Option<Seq<char>>, Seq<char>> {
    config_reply_labelled(v, "expected string YAML or null"@)
}

fn config_text(v: &Json, label: &str) -> (r: Result<Option<String>, PicorecdspError>)
    ensures
        match config_reply_labelled(*v, label@) {
            Ok(None) => r matches Ok(None),
            Ok(Some(t)) => r matches Ok(Some(x)) && x@ == t,
            Err(m) => r matches Err(PicorecdspError::ProtocolError(x)) && x@ == m,
        },
{
    match v {
        Json::Null => Ok(None),
        Json::Str(s) => {
            let t = trim_chars(chars_of(s.as_str()).as_slice());
            if t.len() == 0 {
                Ok(None)
            } else {
                Ok(Some(s.clone()))
            }
        },
        other => Err(
            PicorecdspError::ProtocolError(concat3(label, ", got ", json_to_string(other).as_str())),
        ),
    }
}

/// Sort a 4.x `GetConfig`/`GetPreviousConfig` result: `None` for no config,
/// else the YAML text to read as a config document.
pub fn optional_config_text(v: &Json) -> (r: Result<Option<String>, PicorecdspError>)
    ensures
        match config_reply(*v) {
            Ok(None) => r matches Ok(None),
            Ok(Some(t)) => r matches Ok(Some(x)) && x@ == t,
            Err(m) => r matches Err(PicorecdspError::ProtocolError(x)) && x@ == m,
        },
{
    config_text(v, "expected string YAML or null")
}

/// Sort a 5.x `GetConfig`/`GetPreviousConfig` result.
pub fn optional_config_text_v5(v: &Json) -> (r: Result<Option<String>, PicorecdspError>)
    ensures
        match config_reply_labelled(*v, "expected string YAML or null (v5)"@) {
            Ok(None) => r matches Ok(None),
            Ok(Some(t)) => r matches Ok(Some(x)) && x@ == t,
            Err(m) => r matches Err(PicorecdspError::ProtocolError(x)) && x@ == m,
        },
{
    config_text(v, "expected string YAML or null (v5)")
}

// ─── Commands and their replies ────────────────────────────────────────────

/// A command without arguments, as both protocol versions send it:
/// `{"Name": null}`.
pub fn command_message(name: &str) -> (r: Json)
    ensures
        r matches Json::Object(m) && m@.len() == 1 && m@[0].0@ == name@ && m@[0].1 == Json::Null,
{
    Json::Object(vec![(name.to_string(), Json::Null)])
}

/// `SetConfig` with the config's YAML text: `{"SetConfig": yaml}`.
pub fn set_config_message(yaml: String) -> (r: Json)
    ensures
        r matches Json::Object(m) && m@.len() == 1 && m@[0].0@ == "SetConfig"@
            && m@[0].1 == Json::Str(yaml),
{
    Json::Object(vec![("SetConfig".to_string(), Json::Str(yaml))])
}

/// `SetConfigValue` for one dotted path:
/// `{"SetConfigValue": {"param": path, "value": value}}`.
pub fn set_config_value_message(path: &str, value: Json) -> (r: Json)
    ensures
        r matches Json::Object(m) && m@.len() == 1 && m@[0].0@ == "SetConfigValue"@ && (
        m@[0].1 matches Json::Object(p) && p@.len() == 2 && p@[0].0@ == "param"@ && p@[1].0@
            == "value"@ && p@[1].1 == value && (p@[0].1 matches Json::Str(x) && x@ == path@)),
{
    let params = vec![("param".to_string(), Json::Str(path.to_string())), ("value".to_string(), value)];
    Json::Object(vec![("SetConfigValue".to_string(), Json::Object(params))])
}

/// What a reply envelope says: the `"Ok"` member's value, else the text of
/// its `"Error"` member (`"unknown error"` where that is missing or no string).
pub open spec fn envelope_of(e: Json) -> Result<Json, Seq<char>> {
    match get_key(e, "Ok"@) {
        Some(v) => Ok(v),
        None => Err(
            match get_key(e, "Error"@) {
                Some(m) => match as_str_spec(m) {
                    Some(t) => t,
                    None => "unknown error"@,
                },
                None => "unknown error"@,
            },
        ),
    }
}

/// Open a reply envelope `{"Ok": value}` or `{"Error": message}`.
pub fn parse_envelope(envelope: Json) -> (r: Result<Json, PicorecdspError>)
    ensures
        match envelope_of(envelope) {
            Ok(v) => r == Ok::<Json, PicorecdspError>(v),
            Err(m) => r matches Err(PicorecdspError::ProtocolError(x)) && x@ == m,
        },
{
    if get(&envelope, "Ok").is_some() {
        match take_member(envelope, "Ok") {
            Some(v) => Ok(v),
            None => Err(PicorecdspError::ProtocolError("unknown error".to_string())),
        }
    } else {
        let text = match get(&envelope, "Error") {
            Some(m) => match json_str(m) {
                Some(t) => t.to_string(),
                None => "unknown error".to_string(),
            },
            None => "unknown error".to_string(),
        };
        Err(PicorecdspError::ProtocolError(text))
    }
}

/// The stop reason from a `GetStopReason` command's outcome: an error
/// envelope (a CamillaDSP without the command) means no reason is known;
/// other errors pass through.
pub fn stop_reason_outcome(r: Result<Json, PicorecdspError>) -> (out: Result<Option<StopReason>, PicorecdspError>)
    ensures
        match r {
            Ok(v) => out matches Ok(Some(x)) && x@ == stop_reason_named(v),
            Err(PicorecdspError::ProtocolError(_)) => out matches Ok(None),
            Err(e) => out == Err::<Option<StopReason>, PicorecdspError>(e),
        },
{
    match r {
        Ok(v) => Ok(Some(parse_stop_reason(&v))),
        Err(PicorecdspError::ProtocolError(_)) => Ok(None),
        Err(e) => Err(e),
    }
}

/// The config text from a 4.x `GetConfig`/`GetPreviousConfig` outcome: an
/// error envelope means no config; other errors pass through.
pub fn config_outcome(r: Result<Json, PicorecdspError>) -> (out: Result<Option<String>, PicorecdspError>)
    ensures
        match r {
            Ok(v) => match config_reply(v) {
                Ok(None) => out matches Ok(None),
                Ok(Some(t)) => out matches Ok(Some(x)) && x@ == t,
                Err(m) => out matches Err(PicorecdspError::ProtocolError(x)) && x@ == m,
            },
            Err(PicorecdspError::ProtocolError(_)) => out matches Ok(None),
            Err(e) => out == Err::<Option<String>, PicorecdspError>(e),
        },
{
    match r {
        Ok(v) => optional_config_text(&v),
        Err(PicorecdspError::ProtocolError(_)) => Ok(None),
        Err(e) => Err(e),
    }
}

/// The config text from a 5.x `GetConfig`/`GetPreviousConfig` outcome.
pub fn config_outcome_v5(r: Result<Json, PicorecdspError>) -> (out: Result<Option<String>, PicorecdspError>)
    ensures
        match r {
            Ok(v) => match config_reply_labelled(v, "expected string YAML or null (v5)"@) {
                Ok(None) => out matches Ok(None),
                Ok(Some(t)) => out matches Ok(Some(x)) && x@ == t,
                Err(m) => out matches Err(PicorecdspError::ProtocolError(x)) && x@ == m,
            },
            Err(PicorecdspError::ProtocolError(_)) => out matches Ok(None),
            Err(e) => out == Err::<Option<String>, PicorecdspError>(e),
        },
{
    match r {
        Ok(v) => optional_config_text_v5(&v),
        Err(PicorecdspError::ProtocolError(_)) => Ok(None),
        Err(e) => Err(e),
    }
}

/// What a `GetConfigFilePath` value says: no path (`null` or a blank
/// string), a path, or an unexpected value (named with `label`).
pub open spec fn config_path_reply(v: Json, label: Seq<char>) -> Result<Option<Seq<char>>, Seq<char>> {
    match v {
        Json::Null => Ok(None),
        Json::Str(s) => if trim(s@).len() == 0 {
            Ok(None)
        } else {
            Ok(Some(s@))
        },
        other => Err(label + ": unexpected value "@ + json_text(other)),
    }
}

/// The config file path from a `GetConfigFilePath` outcome; `v5` selects the
/// 5.x error text. An error envelope means no path; other errors pass through.
pub fn config_file_path_outcome(r: Result<Json, PicorecdspError>, v5: bool) -> (out: Result<
    Option<String>,
    PicorecdspError,
>)
    ensures
        match r {
            Ok(v) => match config_path_reply(
                v,
                if v5 {
                    "GetConfigFilePath (v5)"@
                } else {
                    "GetConfigFilePath"@
                },
            ) {
                Ok(None) => out matches Ok(None),
                Ok(Some(t)) => out matches Ok(Some(x)) && x@ == t,
                Err(m) => out matches Err(PicorecdspError::ProtocolError(x)) && x@ == m,
            },
            Err(PicorecdspError::ProtocolError(_)) => out matches Ok(None),
            Err(e) => out == Err::<Option<String>, PicorecdspError>(e),
        },
{
    let label = if v5 {
        "GetConfigFilePath (v5)"
    } else {
        "GetConfigFilePath"
    };
    match r {
        Ok(Json::Null) => Ok(None),
        Ok(Json::Str(s)) => {
            let t = trim_chars(chars_of(s.as_str()).as_slice());
            if t.len() == 0 {
                Ok(None)
            } else {
                Ok(Some(s))
            }
        },
        Ok(other) => Err(
            PicorecdspError::ProtocolError(
                concat3(label, ": unexpected value ", json_to_string(&other).as_str()),
            ),
        ),
        Err(PicorecdspError::ProtocolError(_)) => Ok(None),
        Err(e) => Err(e),
    }
}

/// The state a `SubscribeState` push message reports: its `"State"` member,
/// when that names a state (`v5` selects the 5.x reading).
pub fn state_event(message: &Json, v5: bool) -> (r: Option<DspState>)
    ensures
        r == match get_key(*message, "State"@) {
            Some(v) => match state_of(v, if v5 { "unknown GetState value (v5): "@ } else { "unknown GetState value: "@ }) {
                Ok(s) => Some(s),
                Err(_) => None,
            },
            None => None,
        },
{
    match get(message, "State") {
        Some(v) => {
            let parsed = if v5 {
                parse_state_v5(v)
            } else {
                parse_state(v)
            };
            match parsed {
                Ok(s) => Some(s),
                Err(_) => None,
            }
        },
        None => None,
    }
}

/// CamillaDSP 4.x WebSocket adapter; `url` is e.g. `"ws://127.0.0.1:1234"`.
pub struct CamillaDspV4 {
    pub url: String,
}

impl CamillaDspV4 {
    pub fn new(url: String) -> (s: Self)
        ensures
            s.url@ == url@,
    {
        CamillaDspV4 { url }
    }
}

/// State-event subscription for CamillaDSP 4.2+.
pub struct CamillaDspV4StateEvents {
    pub url: String,
}

impl CamillaDspV4StateEvents {
    pub fn new(url: String) -> (s: Self)
        ensures
            s.url@ == url@,
    {
        CamillaDspV4StateEvents { url }
    }
}

/// CamillaDSP 5.x WebSocket adapter.
pub struct CamillaDspV5 {
    pub url: String,
}

impl CamillaDspV5 {
    pub fn new(url: String) -> (s: Self)
        ensures
            s.url@ == url@,
    {
        CamillaDspV5 { url }
    }
}

/// State-event subscription for CamillaDSP 5.x.
pub struct CamillaDspV5StateEvents {
    pub url: String,
}

impl CamillaDspV5StateEvents {
    pub fn new(url: String) -> (s: Self)
        ensures
            s.url@ == url@,
    {
        CamillaDspV5StateEvents { url }
    }
}

} // verus!
