//! CamillaDSP transport contract and managed-mode state.
//!
//! The controller reads a CamillaDSP config and validates only the capture
//! fields it relies on: `devices.capture.type`, `.device`, `.channels`,
//! `.format` and `.stop_on_inactive`. On an incompatible config it suspends
//! managed mode with a clear error and waits for the user to fix it; it
//! never repairs or rewrites the user's YAML.
pub mod config_document;
pub mod control;
pub mod protocol;

use crate::text::{concat2, concat3, dec_string, push_decimal};
use vstd::prelude::*;

verus! {

/// The capture transport fields of a CamillaDSP config.
#[derive(Debug, Clone, PartialEq, Eq)]
pub struct CaptureTransportConfig {
    pub capture_type: String,
    pub device: String,
    pub channels: u32,
    pub format: String,
    pub stop_on_inactive: bool,
}

/// The config could not be read at the known `devices.capture.*` paths.
#[derive(Debug)]
pub struct ConfigReadError(pub String);

impl ConfigReadError {
    /// The message, as `Display` renders it.
    pub fn to_string(&self) -> (s: String)
        ensures
            s@ == "failed to read CamillaDSP config at the known devices.capture.* paths: "@ + self.0@,
    {
        concat2("failed to read CamillaDSP config at the known devices.capture.* paths: ", self.0.as_str())
    }
}

/// The required capture type.
pub const EXPECTED_CAPTURE_TYPE: &'static str = "Alsa";
/// The required capture device.
pub const EXPECTED_CAPTURE_DEVICE: &'static str = "hw:Loopback,0,0";
/// The required capture channel count.
pub const EXPECTED_CAPTURE_CHANNELS: u32 = 2;
/// The required capture format.
pub const EXPECTED_CAPTURE_FORMAT: &'static str = "S32_LE";

/// One invariant of the transport contract that a config failed.
#[allow(inconsistent_fields)]
#[derive(Debug, Clone, PartialEq, Eq)]
pub enum TransportContractViolation {
    UnexpectedCaptureType { expected: &'static str, actual: String },
    UnexpectedCaptureDevice { expected: &'static str, actual: String },
    UnexpectedChannels { expected: u32, actual: u32 },
    UnexpectedFormat { expected: &'static str, actual: String },
    StopOnInactiveDisabled,
}

/// The mathematical value of a [`TransportContractViolation`].
#[allow(inconsistent_fields)]
pub enum ViolationView {
    UnexpectedCaptureType { expected: Seq<char>, actual: Seq<char> },
    UnexpectedCaptureDevice { expected: Seq<char>, actual: Seq<char> },
    UnexpectedChannels { expected: u32, actual: u32 },
    UnexpectedFormat { expected: Seq<char>, actual: Seq<char> },
    StopOnInactiveDisabled,
}

impl View for TransportContractViolation {
    type V = ViolationView;

    open spec fn view(&self) -> ViolationView {
        match self {
            TransportContractViolation::UnexpectedCaptureType { expected, actual } => ViolationView::UnexpectedCaptureType {
                expected: expected@,
                actual: actual@,
            },
            TransportContractViolation::UnexpectedCaptureDevice { expected, actual } => ViolationView::UnexpectedCaptureDevice {
                expected: expected@,
                actual: actual@,
            },
            TransportContractViolation::UnexpectedChannels { expected, actual } => ViolationView::UnexpectedChannels {
                expected: *expected,
                actual: *actual,
            },
            TransportContractViolation::UnexpectedFormat { expected, actual } => ViolationView::UnexpectedFormat {
                expected: expected@,
                actual: actual@,
            },
            TransportContractViolation::StopOnInactiveDisabled => ViolationView::StopOnInactiveDisabled,
        }
    }
}

/// The user-facing text of a violation.
pub open spec fn violation_text(v: ViolationView) -> Seq<char> {
    match v {
        ViolationView::UnexpectedCaptureType { expected, actual } => "devices.capture.type must be `"@
            + expected + "`, found `"@ + actual + "`"@,
        ViolationView::UnexpectedCaptureDevice { expected, actual } => "devices.capture.device must be `"@
            + expected + "`, found `"@ + actual + "`"@,
        ViolationView::UnexpectedChannels { expected, actual } => "devices.capture.channels must be "@
            + dec_string(expected as nat) + ", found "@ + dec_string(actual as nat),
        ViolationView::UnexpectedFormat { expected, actual } => "devices.capture.format must be `"@
            + expected + "`, found `"@ + actual + "`"@,
        ViolationView::StopOnInactiveDisabled => "devices.capture.stop_on_inactive must be true"@,
    }
}

impl TransportContractViolation {
    /// The user-facing text, as `Display` renders it.
    pub fn to_string(&self) -> (s: String)
        ensures
            s@ == violation_text(self@),
    {
        match self {
            TransportContractViolation::UnexpectedCaptureType { expected, actual } => {
                let head = concat3("devices.capture.type must be `", expected, "`, found `");
                concat3(head.as_str(), actual.as_str(), "`")
            },
            TransportContractViolation::UnexpectedCaptureDevice { expected, actual } => {
                let head = concat3("devices.capture.device must be `", expected, "`, found `");
                concat3(head.as_str(), actual.as_str(), "`")
            },
            TransportContractViolation::UnexpectedChannels { expected, actual } => {
                let mut s = "devices.capture.channels must be ".to_string();
                push_decimal(&mut s, *expected as u64);
                s.append(", found ");
                push_decimal(&mut s, *actual as u64);
                s
            },
            TransportContractViolation::UnexpectedFormat { expected, actual } => {
                let head = concat3("devices.capture.format must be `", expected, "`, found `");
                concat3(head.as_str(), actual.as_str(), "`")
            },
            TransportContractViolation::StopOnInactiveDisabled => {
                "devices.capture.stop_on_inactive must be true".to_string()
            },
        }
    }
}

/// `x` as a one-element sequence where `cond` holds, else empty.
pub open spec fn when(cond: bool, x: ViolationView) -> Seq<ViolationView> {
    if cond {
        seq![x]
    } else {
        Seq::empty()
    }
}

/// Every violation of the transport contract by `c`, in the order the
/// fields are checked: type, device, channels, format, `stop_on_inactive`.
pub open spec fn violations_of(c: CaptureTransportConfig) -> Seq<ViolationView> {
    when(
        c.capture_type@ != EXPECTED_CAPTURE_TYPE@,
        ViolationView::UnexpectedCaptureType { expected: EXPECTED_CAPTURE_TYPE@, actual: c.capture_type@ },
    ) + when(
        c.device@ != EXPECTED_CAPTURE_DEVICE@,
        ViolationView::UnexpectedCaptureDevice { expected: EXPECTED_CAPTURE_DEVICE@, actual: c.device@ },
    ) + when(
        c.channels != EXPECTED_CAPTURE_CHANNELS,
        ViolationView::UnexpectedChannels { expected: EXPECTED_CAPTURE_CHANNELS, actual: c.channels },
    ) + when(
        c.format@ != EXPECTED_CAPTURE_FORMAT@,
        ViolationView::UnexpectedFormat { expected: EXPECTED_CAPTURE_FORMAT@, actual: c.format@ },
    ) + when(!c.stop_on_inactive, ViolationView::StopOnInactiveDisabled)
}

/// A capture config meets the transport contract exactly when it captures
/// from the loopback device `hw:Loopback,0,0` through ALSA, in two channels of
/// `S32_LE`, and stops when the capture goes inactive.
pub proof fn law_contract_is_the_loopback_capture(c: CaptureTransportConfig)
    ensures
        violations_of(c).len() == 0 <==> (c.capture_type@ == EXPECTED_CAPTURE_TYPE@ && c.device@
            == EXPECTED_CAPTURE_DEVICE@ && c.channels == EXPECTED_CAPTURE_CHANNELS && c.format@
            == EXPECTED_CAPTURE_FORMAT@ && c.stop_on_inactive),
{
}

/// The views of a list of violations.
pub open spec fn violation_views(v: Seq<TransportContractViolation>) -> Seq<ViolationView> {
    v.map_values(|x: TransportContractViolation| x@)
}

fn push_violation(
    vs: &mut Vec<TransportContractViolation>,
    v: TransportContractViolation,
)
    ensures
        violation_views(final(vs)@) == violation_views(old(vs)@) + seq![v@],
{
    let ghost before = vs@;
    vs.push(v);
    proof {
        assert(violation_views(vs@) =~= violation_views(before) + seq![v@]);
    }
}

/// Validate a capture config against the transport contract. Only reads:
/// the config is never changed or repaired. Every violation is reported.
pub fn validate_transport_contract(cfg: &CaptureTransportConfig) -> (r: Result<(), Vec<TransportContractViolation>>)
    ensures
        match r {
            Ok(()) => violations_of(*cfg).len() == 0,
            Err(vs) => violation_views(vs@) == violations_of(*cfg) && vs.len() > 0,
        },
{
    let mut vs: Vec<TransportContractViolation> = Vec::new();
    let ghost c = *cfg;
    let ghost e0 = Seq::<ViolationView>::empty();
    assert(violation_views(vs@) =~= e0);
    if !crate::text::str_eq(cfg.capture_type.as_str(), EXPECTED_CAPTURE_TYPE) {
        push_violation(
            &mut vs,
            TransportContractViolation::UnexpectedCaptureType {
                expected: EXPECTED_CAPTURE_TYPE,
                actual: cfg.capture_type.clone(),
            },
        );
    }
    let ghost a1 = when(
        c.capture_type@ != EXPECTED_CAPTURE_TYPE@,
        ViolationView::UnexpectedCaptureType { expected: EXPECTED_CAPTURE_TYPE@, actual: c.capture_type@ },
    );
    assert(violation_views(vs@) =~= a1);
    if !crate::text::str_eq(cfg.device.as_str(), EXPECTED_CAPTURE_DEVICE) {
        push_violation(
            &mut vs,
            TransportContractViolation::UnexpectedCaptureDevice {
                expected: EXPECTED_CAPTURE_DEVICE,
                actual: cfg.device.clone(),
            },
        );
    }
    let ghost a2 = a1 + when(
        c.device@ != EXPECTED_CAPTURE_DEVICE@,
        ViolationView::UnexpectedCaptureDevice { expected: EXPECTED_CAPTURE_DEVICE@, actual: c.device@ },
    );
    assert(violation_views(vs@) =~= a2);
    if cfg.channels != EXPECTED_CAPTURE_CHANNELS {
        push_violation(
            &mut vs,
            TransportContractViolation::UnexpectedChannels {
                expected: EXPECTED_CAPTURE_CHANNELS,
                actual: cfg.channels,
            },
        );
    }
    let ghost a3 = a2 + when(
        c.channels != EXPECTED_CAPTURE_CHANNELS,
        ViolationView::UnexpectedChannels { expected: EXPECTED_CAPTURE_CHANNELS, actual: c.channels },
    );
    assert(violation_views(vs@) =~= a3);
    if !crate::text::str_eq(cfg.format.as_str(), EXPECTED_CAPTURE_FORMAT) {
        push_violation(
            &mut vs,
            TransportContractViolation::UnexpectedFormat {
                expected: EXPECTED_CAPTURE_FORMAT,
                actual: cfg.format.clone(),
            },
        );
    }
    let ghost a4 = a3 + when(
        c.format@ != EXPECTED_CAPTURE_FORMAT@,
        ViolationView::UnexpectedFormat { expected: EXPECTED_CAPTURE_FORMAT@, actual: c.format@ },
    );
    assert(violation_views(vs@) =~= a4);
    if !cfg.stop_on_inactive {
        push_violation(&mut vs, TransportContractViolation::StopOnInactiveDisabled);
    }
    assert(violation_views(vs@) =~= violations_of(c));
    if vs.len() == 0 {
        Ok(())
    } else {
        Err(vs)
    }
}

/// Whether managed mode is active or suspended with a reason.
#[derive(Debug, Clone, PartialEq, Eq)]
pub enum ManagedMode {
    /// The transport contract is satisfied; reconciliation may proceed.
    Active,
    /// The transport contract is violated; `reason` says what to change.
    Suspended { reason: String },
}

/// The texts of `vs` joined with `"; "`.
pub open spec fn joined(vs: Seq<ViolationView>) -> Seq<char>
    decreases vs.len(),
{
    if vs.len() == 0 {
        Seq::empty()
    } else if vs.len() == 1 {
        violation_text(vs[0])
    } else {
        joined(vs.drop_last()) + "; "@ + violation_text(vs.last())
    }
}

/// The managed mode a capture config leads to: active when it satisfies the
/// transport contract, else suspended with every violation in one reason.
pub fn managed_mode_for(cfg: &CaptureTransportConfig) -> (m: ManagedMode)
    ensures
        match m {
            ManagedMode::Active => violations_of(*cfg).len() == 0,
            ManagedMode::Suspended { reason } => violations_of(*cfg).len() > 0 && reason@ == joined(
                violations_of(*cfg),
            ),
        },
{
    match validate_transport_contract(cfg) {
        Ok(()) => ManagedMode::Active,
        Err(violations) => {
            let ghost vv = violation_views(violations@);
            let mut reason = String::new();
            let mut i: usize = 0;
            while i < violations.len()
                invariant
                    i <= violations.len(),
                    vv == violation_views(violations@),
                    vv.len() == violations.len(),
                    reason@ == joined(vv.take(i as int)),
                decreases violations.len() - i,
            {
                if i > 0 {
                    reason.append("; ");
                }
                let t = violations[i].to_string();
                reason.append(t.as_str());
                proof {
                    assert(vv.take(i as int + 1).drop_last() =~= vv.take(i as int));
                    assert(vv[i as int] == violations@[i as int]@);
                    if i == 0 {
                        assert(reason@ =~= violation_text(vv[0]));
                    }
                }
                i = i + 1;
            }
            proof { assert(vv.take(i as int) =~= vv); }
            ManagedMode::Suspended { reason }
        },
    }
}

} // verus!
