//! The CamillaDSP WebSocket protocol: reply envelopes, processing states,
//! stop reasons and the client interface the controller talks through.
use crate::json::{as_str_spec, as_u64_spec, get, get_key, json_text, json_to_string, member, Json, JsonNumber};
use crate::text::{concat2, concat3, str_eq};
use vstd::prelude::*;

verus! {

/// Category of a CamillaDSP application-level command error.
#[derive(Clone, Copy, Debug, Eq, PartialEq, Structural)]
pub enum CommandReason {
    /// Configuration failed validation or could not be read.
    ConfigValidation,
    /// Request rate limit exceeded — transient, short retry.
    RateLimit,
    /// CamillaDSP is shutting down — reconnect required.
    Shutdown,
    /// The request contained an invalid value — programmer error.
    InvalidValue,
    /// Any other application-level error.
    Other,
}

/// The category of a CamillaDSP error variant name.
pub open spec fn reason_of_variant(name: Seq<char>) -> CommandReason {
    if name == "ConfigValidationError"@ || name == "ConfigReadError"@ {
        CommandReason::ConfigValidation
    } else if name == "RateLimitExceededError"@ {
        CommandReason::RateLimit
    } else if name == "ShutdownInProgressError"@ {
        CommandReason::Shutdown
    } else if name == "InvalidValueError"@ {
        CommandReason::InvalidValue
    } else {
        CommandReason::Other
    }
}

impl CommandReason {
    /// Classify a CamillaDSP error variant name.
    pub fn from_variant(name: &str) -> (r: Self)
        ensures
            r == reason_of_variant(name@),
    {
        if str_eq(name, "ConfigValidationError") || str_eq(name, "ConfigReadError") {
            CommandReason::ConfigValidation
        } else if str_eq(name, "RateLimitExceededError") {
            CommandReason::RateLimit
        } else if str_eq(name, "ShutdownInProgressError") {
            CommandReason::Shutdown
        } else if str_eq(name, "InvalidValueError") {
            CommandReason::InvalidValue
        } else {
            CommandReason::Other
        }
    }
}

/// Errors that can arise when communicating with the CamillaDSP WebSocket API.
#[derive(Debug)]
pub enum WsError {
    /// The TCP/WebSocket transport failed (connect, send, read, close).
    Transport(String),
    /// CamillaDSP reported an application-level error in the reply.
    Command(CommandReason, String),
    /// The reply shape did not match the expected protocol.
    Protocol(String),
}

/// The mathematical value of a [`WsError`].
pub enum WsErrorView {
    Transport(Seq<char>),
    Command(CommandReason, Seq<char>),
    Protocol(Seq<char>),
}

impl View for WsError {
    type V = WsErrorView;

    open spec fn view(&self) -> WsErrorView {
        match self {
            WsError::Transport(m) => WsErrorView::Transport(m@),
            WsError::Command(r, m) => WsErrorView::Command(*r, m@),
            WsError::Protocol(m) => WsErrorView::Protocol(m@),
        }
    }
}

/// The message `Display` writes for an error.
pub open spec fn ws_error_text(e: WsErrorView) -> Seq<char> {
    match e {
        WsErrorView::Transport(m) => "CamillaDSP websocket transport error: "@ + m,
        WsErrorView::Command(_, m) => "CamillaDSP command error: "@ + m,
        WsErrorView::Protocol(m) => "CamillaDSP websocket protocol error: "@ + m,
    }
}

impl WsError {
    /// The message `Display` writes for this error.
    pub fn to_string(&self) -> (s: String)
        ensures
            s@ == ws_error_text(self@),
    {
        match self {
            WsError::Transport(m) => concat2("CamillaDSP websocket transport error: ", m.as_str()),
            WsError::Command(_, m) => concat2("CamillaDSP command error: ", m.as_str()),
            WsError::Protocol(m) => concat2("CamillaDSP websocket protocol error: ", m.as_str()),
        }
    }
}

/// What a `GetVersion` reply value gives: the version string, or a protocol
/// error naming the value.
pub open spec fn version_value(v: Option<Json>) -> Result<Seq<char>, WsErrorView> {
    match v {
        Some(Json::Str(s)) => Ok(s@),
        Some(other) => Err(
            WsErrorView::Protocol("GetVersion returned non-string value: Some("@ + json_text(other) + ")"@),
        ),
        None => Err(WsErrorView::Protocol("GetVersion returned non-string value: None"@)),
    }
}

/// What a `GetCaptureRate` reply value gives: the rate (0 while CamillaDSP
/// is not processing), or a protocol error naming the value.
pub open spec fn capture_rate_value(v: Option<Json>) -> Result<u64, WsErrorView> {
    match v {
        Some(Json::Number(JsonNumber::PosInt(n))) => Ok(n),
        Some(other) => Err(
            WsErrorView::Protocol("GetCaptureRate returned non-numeric value: Some("@ + json_text(other) + ")"@),
        ),
        None => Err(WsErrorView::Protocol("GetCaptureRate returned non-numeric value: None"@)),
    }
}

/// What a `GetConfigFilePath` reply value gives: the path when it is a string.
pub open spec fn config_file_path_value(v: Option<Json>) -> Option<Seq<char>> {
    match v {
        Some(Json::Str(s)) => Some(s@),
        _ => None,
    }
}

/// Read a `GetVersion` reply value.
pub fn version_from(value: Option<Json>) -> (r: Result<String, WsError>)
    ensures
        match version_value(value) {
            Ok(t) => r matches Ok(x) && x@ == t,
            Err(e) => r matches Err(x) && x@ == e,
        },
{
    match value {
        Some(Json::Str(s)) => Ok(s),
        Some(other) => Err(
            WsError::Protocol(
                concat3("GetVersion returned non-string value: Some(", json_to_string(&other).as_str(), ")"),
            ),
        ),
        None => Err(WsError::Protocol("GetVersion returned non-string value: None".to_string())),
    }
}

/// Read a `GetCaptureRate` reply value.
pub fn capture_rate_from(value: Option<Json>) -> (r: Result<u64, WsError>)
    ensures
        match capture_rate_value(value) {
            Ok(n) => r == Ok::<u64, WsError>(n),
            Err(e) => r matches Err(x) && x@ == e,
        },
{
    match value {
        Some(Json::Number(JsonNumber::PosInt(v))) => Ok(v),
        Some(other) => Err(
            WsError::Protocol(
                concat3("GetCaptureRate returned non-numeric value: Some(", json_to_string(&other).as_str(), ")"),
            ),
        ),
        None => Err(WsError::Protocol("GetCaptureRate returned non-numeric value: None".to_string())),
    }
}

/// Read a `GetConfigFilePath` reply value.
pub fn config_file_path_from(value: Option<Json>) -> (r: Option<String>)
    ensures
        match config_file_path_value(value) {
            Some(t) => r matches Some(x) && x@ == t,
            None => r is None,
        },
{
    match value {
        Some(Json::Str(s)) => Some(s),
        _ => None,
    }
}

/// The chunk size a `GetConfigValue("/devices/chunksize")` reply value gives.
pub fn chunksize_from(value: Option<Json>) -> (r: Option<u64>)
    ensures
        r == match value {
            Some(v) => as_u64_spec(v),
            None => None,
        },
{
    match value {
        Some(Json::Number(JsonNumber::PosInt(n))) => Some(n),
        _ => None,
    }
}

/// Abstraction over the CamillaDSP WebSocket protocol, used by the controller.
///
/// `query` is the single low-level transport primitive: it sends a command
/// name and optional argument and returns the raw `value` field of the reply.
/// The other methods are typed wrappers around `query` for one API call each.
pub trait CamillaClient {
    fn query(&mut self, command: &str, argument: Option<Json>) -> Result<Option<Json>, WsError>;

    /// `GetVersion` — CamillaDSP's version string.
    fn get_version(&mut self) -> Result<String, WsError> {
        version_from(self.query("GetVersion", None)?)
    }

    /// `GetState` — the current `ProcessingState`.
    fn get_state(&mut self) -> Result<ProcessingState, WsError> {
        parse_processing_state(self.query("GetState", None)?)
    }

    /// `GetStopReason` — why processing last stopped (or `None`).
    fn get_stop_reason(&mut self) -> Result<StopReason, WsError> {
        parse_stop_reason(self.query("GetStopReason", None)?)
    }

    /// `GetCaptureRate` — the measured capture sample rate, or `0` if
    /// processing is not currently running.
    fn get_capture_rate(&mut self) -> Result<u64, WsError> {
        capture_rate_from(self.query("GetCaptureRate", None)?)
    }

    /// `GetConfigValue` — read a single value from the active config via a
    /// JSON Pointer, e.g. `/devices/chunksize`.
    fn get_config_value(&mut self, pointer: &str) -> Result<Option<Json>, WsError> {
        self.query("GetConfigValue", Some(Json::Str(pointer.to_string())))
    }

    /// `GetConfigFilePath` — path of the config file CamillaDSP currently has
    /// loaded, if any.
    fn get_config_file_path(&mut self) -> Result<Option<String>, WsError> {
        Ok(config_file_path_from(self.query("GetConfigFilePath", None)?))
    }

    /// `SetConfig` — load and start processing with `config_yaml`.
    fn set_config(&mut self, config_yaml: &str) -> Result<(), WsError> {
        self.query("SetConfig", Some(Json::Str(config_yaml.to_string())))?;
        Ok(())
    }

    /// `ValidateConfig` — validate `config_yaml` without applying it.
    fn validate_config(&mut self, config_yaml: &str) -> Result<(), WsError> {
        self.query("ValidateConfig", Some(Json::Str(config_yaml.to_string())))?;
        Ok(())
    }

    /// `Stop` — stop processing.
    fn stop(&mut self) -> Result<(), WsError> {
        self.query("Stop", None)?;
        Ok(())
    }
}

// ─── Reply parsing ─────────────────────────────────────────────────────────

/// The view of an optional JSON value.
pub open spec fn reply_value_view(r: Result<Option<Json>, WsError>) -> Result<Option<Json>, WsErrorView> {
    match r {
        Ok(v) => Ok(v),
        Err(e) => Err(e@),
    }
}

/// What a CamillaDSP reply envelope for `command` carries.
///
/// The envelope shape is `{"CommandName": {"result": "Ok", "value": ...}}` for
/// success, or `{"CommandName": {"result": {"ErrorVariant": "msg"}}}` for an
/// application-level error.
pub open spec fn ws_reply(command: Seq<char>, reply: Json) -> Result<Option<Json>, WsErrorView> {
    match get_key(reply, command) {
        None => Err(WsErrorView::Protocol(
            "reply does not contain command '"@ + command + "': "@ + json_text(reply),
        )),
        Some(entry) => match get_key(entry, "error"@) {
            Some(error) => Err(WsErrorView::Command(CommandReason::Other, json_text(error))),
            None => match get_key(entry, "result"@) {
                None => Err(WsErrorView::Protocol(
                    "reply for '"@ + command + "' has no result: "@ + json_text(entry),
                )),
                Some(result) => match result {
                    Json::Str(v) => if v@ == "Ok"@ {
                        Ok(get_key(entry, "value"@))
                    } else {
                        Err(WsErrorView::Command(reason_of_variant(v@), v@))
                    },
                    Json::Object(values) => if values@.len() > 0 {
                        Err(WsErrorView::Command(
                            reason_of_variant(values@[0].0@),
                            values@[0].0@ + ": "@ + json_text(values@[0].1),
                        ))
                    } else {
                        Err(WsErrorView::Command(
                            reason_of_variant(""@),
                            ": empty error result"@,
                        ))
                    },
                    other => Err(WsErrorView::Protocol(
                        "invalid result for '"@ + command + "': "@ + json_text(other),
                    )),
                },
            },
        },
    }
}

/// Remove and return member `key` of an owned object.
pub(crate) fn take_member(j: Json, key: &str) -> (r: Option<Json>)
    ensures
        r == get_key(j, key@),
{
    let ghost jj = j;
    match j {
        Json::Object(mut members) => {
            let ghost all = members@;
            let mut i: usize = 0;
            while i < members.len()
                invariant
                    members@ == all,
                    get_key(jj, key@) == member(all, key@),
                    jj == j,
                    i <= members.len(),
                    forall|k: int| 0 <= k < i ==> (#[trigger] members@[k]).0@ != key@,
                decreases members.len() - i,
            {
                if str_eq(members[i].0.as_str(), key) {
                    proof {
                        lemma_member_split(all, key@, i as int);
                        assert(all[i as int].0@ == key@);
                        assert(member(all, key@) == Some(all[i as int].1));
                    }
                    let pair = members.remove(i);
                    assert(pair == all[i as int]);
                    assert(get_key(jj, key@) == Some(pair.1));
                    return Some(pair.1);
                }
                i = i + 1;
            }
            proof {
                lemma_member_split(all, key@, i as int);
                assert(all.skip(i as int) =~= Seq::<(String, Json)>::empty());
            }
            None
        },
        _ => None,
    }
}

proof fn lemma_member_split(members: Seq<(String, Json)>, key: Seq<char>, i: int)
    requires
        0 <= i <= members.len(),
        forall|k: int| 0 <= k < i ==> (#[trigger] members[k]).0@ != key,
    ensures
        member(members, key) == member(members.skip(i), key),
        i < members.len() && members[i].0@ == key ==> member(members, key) == Some(members[i].1),
    decreases i,
{
    if i > 0 {
        assert forall|k: int| 0 <= k < i - 1 implies (#[trigger] members.drop_first()[k]).0@ != key by {
            assert(members.drop_first()[k] == members[k + 1]);
        }
        lemma_member_split(members.drop_first(), key, i - 1);
        assert(members.drop_first().skip(i - 1) =~= members.skip(i));
        if i < members.len() {
            assert(members.drop_first()[i - 1] == members[i]);
        }
    } else {
        assert(members.skip(0) =~= members);
    }
}

/// The request CamillaDSP expects for `command`: the bare command name as a
/// JSON string, or the object `{command: argument}` when there is one.
pub fn ws_request(command: &str, argument: Option<Json>) -> (r: Json)
    ensures
        match argument {
            None => r matches Json::Str(s) && s@ == command@,
            Some(a) => r matches Json::Object(m) && m@.len() == 1 && m@[0].0@ == command@ && m@[0].1 == a,
        },
{
    match argument {
        None => Json::Str(command.to_string()),
        Some(a) => Json::Object(vec![(command.to_string(), a)]),
    }
}

/// Parse a CamillaDSP WebSocket reply envelope.
pub fn parse_ws_reply(command: &str, reply: Json) -> (r: Result<Option<Json>, WsError>)
    ensures
        reply_value_view(r) == ws_reply(command@, reply),
{
    let reply_text = json_to_string(&reply);
    let entry = match take_member(reply, command) {
        Some(e) => e,
        None => {
            let mut msg = concat3("reply does not contain command '", command, "': ");
            msg.append(reply_text.as_str());
            return Err(WsError::Protocol(msg));
        },
    };
    if let Some(error) = get(&entry, "error") {
        return Err(WsError::Command(CommandReason::Other, json_to_string(error)));
    }
    let entry_text = json_to_string(&entry);
    let result_ref = get(&entry, "result");
    match result_ref {
        None => {
            let mut msg = concat3("reply for '", command, "' has no result: ");
            msg.append(entry_text.as_str());
            Err(WsError::Protocol(msg))
        },
        Some(Json::Str(value)) => {
            if str_eq(value.as_str(), "Ok") {
                Ok(take_member(entry, "value"))
            } else {
                Err(WsError::Command(CommandReason::from_variant(value.as_str()), value.clone()))
            }
        },
        Some(Json::Object(values)) => {
            if values.len() > 0 {
                let kind = values[0].0.as_str();
                let mut msg = concat2(kind, ": ");
                msg.append(json_to_string(&values[0].1).as_str());
                Err(WsError::Command(CommandReason::from_variant(kind), msg))
            } else {
                Err(WsError::Command(CommandReason::from_variant(""), ": empty error result".to_string()))
            }
        },
        Some(other) => {
            let mut msg = concat3("invalid result for '", command, "': ");
            msg.append(json_to_string(other).as_str());
            Err(WsError::Protocol(msg))
        },
    }
}

// ─── Processing state ──────────────────────────────────────────────────────

/// CamillaDSP `ProcessingState` enum, matching all v4 variants.
#[derive(Debug, Eq, PartialEq)]
pub enum ProcessingState {
    Running,
    Paused,
    Inactive,
    Starting,
    Stalled,
    Unknown(String),
}

/// The mathematical value of a [`ProcessingState`].
pub enum StateView {
    Running,
    Paused,
    Inactive,
    Starting,
    Stalled,
    Unknown(Seq<char>),
}

impl View for ProcessingState {
    type V = StateView;

    open spec fn view(&self) -> StateView {
        match self {
            ProcessingState::Running => StateView::Running,
            ProcessingState::Paused => StateView::Paused,
            ProcessingState::Inactive => StateView::Inactive,
            ProcessingState::Starting => StateView::Starting,
            ProcessingState::Stalled => StateView::Stalled,
            ProcessingState::Unknown(s) => StateView::Unknown(s@),
        }
    }
}

/// The processing state a state name denotes.
pub open spec fn state_of_name(s: Seq<char>) -> StateView {
    if s == "Running"@ {
        StateView::Running
    } else if s == "Paused"@ {
        StateView::Paused
    } else if s == "Inactive"@ {
        StateView::Inactive
    } else if s == "Starting"@ {
        StateView::Starting
    } else if s == "Stalled"@ {
        StateView::Stalled
    } else {
        StateView::Unknown(s)
    }
}

/// What the `value` of a `GetState` reply denotes.
pub open spec fn processing_state_of(value: Option<Json>) -> Result<StateView, WsErrorView> {
    match value {
        None => Err(WsErrorView::Protocol("GetState returned no value"@)),
        Some(v) => match as_str_spec(v) {
            Some(s) => Ok(state_of_name(s)),
            None => Err(WsErrorView::Protocol("GetState returned non-string: "@ + json_text(v))),
        },
    }
}

/// Each CamillaDSP state name decodes to the processing state of that
/// name — `Running`, `Paused`, `Inactive`, `Starting`, `Stalled` — and every
/// other text decodes to an unknown state carrying that text.
pub proof fn law_state_names_decode(s: String)
    ensures
        s@ == "Running"@ ==> processing_state_of(Some(Json::Str(s))) == Ok::<StateView, WsErrorView>(
            StateView::Running,
        ),
        s@ == "Paused"@ ==> processing_state_of(Some(Json::Str(s))) == Ok::<StateView, WsErrorView>(
            StateView::Paused,
        ),
        s@ == "Inactive"@ ==> processing_state_of(Some(Json::Str(s))) == Ok::<StateView, WsErrorView>(
            StateView::Inactive,
        ),
        s@ == "Starting"@ ==> processing_state_of(Some(Json::Str(s))) == Ok::<StateView, WsErrorView>(
            StateView::Starting,
        ),
        s@ == "Stalled"@ ==> processing_state_of(Some(Json::Str(s))) == Ok::<StateView, WsErrorView>(
            StateView::Stalled,
        ),
        s@ != "Running"@ && s@ != "Paused"@ && s@ != "Inactive"@ && s@ != "Starting"@ && s@ != "Stalled"@
            ==> processing_state_of(Some(Json::Str(s))) == Ok::<StateView, WsErrorView>(StateView::Unknown(s@)),
        processing_state_of(None) is Err,
        forall|v: Json| !(v is Str) ==> #[trigger] processing_state_of(Some(v)) is Err,
{
    reveal_strlit("Running");
    reveal_strlit("Paused");
    reveal_strlit("Inactive");
    reveal_strlit("Starting");
    reveal_strlit("Stalled");
    assert("Running"@.len() == 7 && "Running"@[0] == 'R');
    assert("Paused"@.len() == 6);
    assert("Inactive"@.len() == 8 && "Inactive"@[0] == 'I');
    assert("Starting"@.len() == 8 && "Starting"@[0] == 'S');
    assert("Stalled"@.len() == 7 && "Stalled"@[0] == 'S');
}

/// The view of a state result.
pub open spec fn state_result_view(r: Result<ProcessingState, WsError>) -> Result<StateView, WsErrorView> {
    match r {
        Ok(s) => Ok(s@),
        Err(e) => Err(e@),
    }
}

/// Parse the `value` returned by `GetState` into a `ProcessingState`.
pub fn parse_processing_state(value: Option<Json>) -> (r: Result<ProcessingState, WsError>)
    ensures
        state_result_view(r) == processing_state_of(value),
{
    let value = match value {
        Some(v) => v,
        None => {
            return Err(WsError::Protocol("GetState returned no value".to_string()));
        },
    };
    match value {
        Json::Str(state) => {
            let st = state.as_str();
            if str_eq(st, "Running") {
                Ok(ProcessingState::Running)
            } else if str_eq(st, "Paused") {
                Ok(ProcessingState::Paused)
            } else if str_eq(st, "Inactive") {
                Ok(ProcessingState::Inactive)
            } else if str_eq(st, "Starting") {
                Ok(ProcessingState::Starting)
            } else if str_eq(st, "Stalled") {
                Ok(ProcessingState::Stalled)
            } else {
                Ok(ProcessingState::Unknown(state))
            }
        },
        other => Err(
            WsError::Protocol(concat2("GetState returned non-string: ", json_to_string(&other).as_str())),
        ),
    }
}

// ─── Stop reason ───────────────────────────────────────────────────────────

/// CamillaDSP `StopReason` enum, matching the v4 WebSocket JSON wire format.
#[derive(Debug, PartialEq)]
pub enum StopReason {
    NoReason,
    Done,
    CaptureError(String),
    PlaybackError(String),
    UnknownError(String),
    /// The new sample rate is supplied by CamillaDSP as the payload.
    CaptureFormatChange(u32),
    /// The new sample rate is supplied by CamillaDSP as the payload.
    PlaybackFormatChange(u32),
    Unknown(Json),
}

/// The mathematical value of a [`StopReason`].
pub enum ReasonView {
    NoReason,
    Done,
    CaptureError(Seq<char>),
    PlaybackError(Seq<char>),
    UnknownError(Seq<char>),
    CaptureFormatChange(u32),
    PlaybackFormatChange(u32),
    Unknown(Json),
}

impl View for StopReason {
    type V = ReasonView;

    open spec fn view(&self) -> ReasonView {
        match self {
            StopReason::NoReason => ReasonView::NoReason,
            StopReason::Done => ReasonView::Done,
            StopReason::CaptureError(m) => ReasonView::CaptureError(m@),
            StopReason::PlaybackError(m) => ReasonView::PlaybackError(m@),
            StopReason::UnknownError(m) => ReasonView::UnknownError(m@),
            StopReason::CaptureFormatChange(r) => ReasonView::CaptureFormatChange(*r),
            StopReason::PlaybackFormatChange(r) => ReasonView::PlaybackFormatChange(*r),
            StopReason::Unknown(v) => ReasonView::Unknown(*v),
        }
    }
}

/// A payload as text: a string's own characters, any other value's JSON text.
pub open spec fn payload_text(v: Json) -> Seq<char> {
    match v {
        Json::Str(s) => s@,
        other => json_text(other),
    }
}

/// A payload read as a sample rate: a non-negative integer that fits in `u32`.
pub open spec fn payload_rate(v: Json) -> Option<u32> {
    match as_u64_spec(v) {
        Some(n) => if n <= u32::MAX {
            Some(n as u32)
        } else {
            None
        },
        None => None,
    }
}

/// What the `value` of a `GetStopReason` reply denotes.
pub open spec fn stop_reason_of(value: Option<Json>) -> Result<ReasonView, WsErrorView> {
    match value {
        None => Err(WsErrorView::Protocol("GetStopReason returned no value"@)),
        Some(v) => match v {
            Json::Str(reason) => Ok(
                if reason@ == "None"@ {
                    ReasonView::NoReason
                } else if reason@ == "Done"@ {
                    ReasonView::Done
                } else {
                    ReasonView::Unknown(v)
                },
            ),
            Json::Object(values) => if values@.len() == 1 {
                let name = values@[0].0@;
                let data = values@[0].1;
                if name == "CaptureError"@ {
                    Ok(ReasonView::CaptureError(payload_text(data)))
                } else if name == "PlaybackError"@ {
                    Ok(ReasonView::PlaybackError(payload_text(data)))
                } else if name == "UnknownError"@ {
                    Ok(ReasonView::UnknownError(payload_text(data)))
                } else if name == "CaptureFormatChange"@ {
                    match payload_rate(data) {
                        Some(r) => Ok(ReasonView::CaptureFormatChange(r)),
                        None => Err(WsErrorView::Protocol(
                            "CaptureFormatChange payload is not a valid u32: "@ + json_text(data),
                        )),
                    }
                } else if name == "PlaybackFormatChange"@ {
                    match payload_rate(data) {
                        Some(r) => Ok(ReasonView::PlaybackFormatChange(r)),
                        None => Err(WsErrorView::Protocol(
                            "PlaybackFormatChange payload is not a valid u32: "@ + json_text(data),
                        )),
                    }
                } else {
                    Ok(ReasonView::Unknown(v))
                }
            } else {
                Err(WsErrorView::Protocol("unexpected GetStopReason shape: "@ + json_text(v)))
            },
            other => Err(WsErrorView::Protocol("unexpected GetStopReason shape: "@ + json_text(other))),
        },
    }
}

/// The view of a stop-reason result.
pub open spec fn reason_result_view(r: Result<StopReason, WsError>) -> Result<ReasonView, WsErrorView> {
    match r {
        Ok(s) => Ok(s@),
        Err(e) => Err(e@),
    }
}

fn json_payload_string(value: &Json) -> (s: String)
    ensures
        s@ == payload_text(*value),
{
    match value {
        Json::Str(s) => s.clone(),
        other => json_to_string(other),
    }
}

fn payload_rate_exec(value: &Json) -> (r: Option<u32>)
    ensures
        r == payload_rate(*value),
{
    match value {
        Json::Number(JsonNumber::PosInt(v)) => {
            if *v <= u32::MAX as u64 {
                Some(*v as u32)
            } else {
                None
            }
        },
        _ => None,
    }
}

/// Parse the `value` returned by `GetStopReason` into a `StopReason`.
pub fn parse_stop_reason(value: Option<Json>) -> (r: Result<StopReason, WsError>)
    ensures
        reason_result_view(r) == stop_reason_of(value),
{
    let value = match value {
        Some(v) => v,
        None => {
            return Err(WsError::Protocol("GetStopReason returned no value".to_string()));
        },
    };
    let shape_ok = match &value {
        Json::Str(_) => true,
        Json::Object(values) => values.len() == 1,
        _ => false,
    };
    if !shape_ok {
        return Err(
            WsError::Protocol(concat2("unexpected GetStopReason shape: ", json_to_string(&value).as_str())),
        );
    }
    match &value {
        Json::Str(reason) => {
            if str_eq(reason.as_str(), "None") {
                return Ok(StopReason::NoReason);
            } else if str_eq(reason.as_str(), "Done") {
                return Ok(StopReason::Done);
            }
        },
        Json::Object(values) => {
            let name = values[0].0.as_str();
            let data = &values[0].1;
            if str_eq(name, "CaptureError") {
                return Ok(StopReason::CaptureError(json_payload_string(data)));
            } else if str_eq(name, "PlaybackError") {
                return Ok(StopReason::PlaybackError(json_payload_string(data)));
            } else if str_eq(name, "UnknownError") {
                return Ok(StopReason::UnknownError(json_payload_string(data)));
            } else if str_eq(name, "CaptureFormatChange") {
                return match payload_rate_exec(data) {
                    Some(rate) => Ok(StopReason::CaptureFormatChange(rate)),
                    None => Err(
                        WsError::Protocol(
                            concat2(
                                "CaptureFormatChange payload is not a valid u32: ",
                                json_to_string(data).as_str(),
                            ),
                        ),
                    ),
                };
            } else if str_eq(name, "PlaybackFormatChange") {
                return match payload_rate_exec(data) {
                    Some(rate) => Ok(StopReason::PlaybackFormatChange(rate)),
                    None => Err(
                        WsError::Protocol(
                            concat2(
                                "PlaybackFormatChange payload is not a valid u32: ",
                                json_to_string(data).as_str(),
                            ),
                        ),
                    ),
                };
            }
        },
        _ => {},
    }
    Ok(StopReason::Unknown(value))
}

} // verus!
