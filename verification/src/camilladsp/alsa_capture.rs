//! The ALSA loopback control interface: which controls describe the
//! stream, and how their values make a stream snapshot.
//!
//! The controls are read by the caller, element by element; this module
//! decides which elements matter and what their values mean.
use crate::core_logic::config::{DeviceSnapshot, SnapshotView, WaveFormat, WaveView};
use crate::error::{app_error, app_error_str, AppError, AppResult};
use crate::text::{
    chars_of, concat2, concat3, dec_string, parse_unsigned, parse_unsigned_chars, push_decimal, split_char,
    split_on_char, str_eq, string_of,
};
use vstd::prelude::*;

verus! {

/// The snd-aloop control that says whether a stream is active.
pub const LOOPBACK_ACTIVE: &'static str = "PCM Slave Active";
/// The snd-aloop control with the stream's channel count.
pub const LOOPBACK_CHANNELS: &'static str = "PCM Slave Channels";
/// The snd-aloop control with the stream's `snd_pcm_format_t`.
pub const LOOPBACK_FORMAT: &'static str = "PCM Slave Format";
/// The snd-aloop control with the stream's rate.
pub const LOOPBACK_RATE: &'static str = "PCM Slave Rate";
/// The USB gadget control with the capture rate.
pub const GADGET_CAPTURE_RATE: &'static str = "Capture Rate";

/// Abstraction over the ALSA loopback control interface, used by the controller.
pub trait DeviceListener {
    fn wait_for_event(&self, timeout_ms: u32) -> AppResult<bool>;

    fn handle_events(&self) -> AppResult<()>;

    fn read_snapshot(&self) -> AppResult<DeviceSnapshot>;
}

/// The CamillaDSP ALSA format name of a `snd_pcm_format_t` value: `Ok(None)`
/// for a value of the enum without a CamillaDSP name, an error outside it.
pub open spec fn format_name(value: i32) -> Result<Option<Seq<char>>, Seq<char>> {
    if value == 2 {
        Ok(Some("S16_LE"@))
    } else if value == 6 {
        Ok(Some("S24_4_LE"@))
    } else if value == 10 {
        Ok(Some("S32_LE"@))
    } else if value == 14 {
        Ok(Some("F32_LE"@))
    } else if value == 16 {
        Ok(Some("F64_LE"@))
    } else if value == 32 {
        Ok(Some("S24_3_LE"@))
    } else if (0 <= value <= 28) || (31 <= value <= 52) {
        Ok(None)
    } else {
        Err("unknown ALSA sample-format enum value "@ + int_text(value as int))
    }
}

/// The decimal text of an integer, with a minus sign when negative.
pub open spec fn int_text(n: int) -> Seq<char> {
    if n >= 0 {
        dec_string(n as nat)
    } else {
        seq!['-'] + dec_string((-n) as nat)
    }
}

fn push_int(s: &mut String, n: i32)
    ensures
        final(s)@ == old(s)@ + int_text(n as int),
{
    if n >= 0 {
        push_decimal(s, n as u64);
    } else {
        crate::text::push_char(s, '-');
        let m: i64 = -(n as i64);
        push_decimal(s, m as u64);
    }
}

/// Map a Linux `snd_pcm_format_t` value to its CamillaDSP ALSA format name.
pub fn alsa_format_to_camilladsp(value: i32) -> (r: AppResult<Option<&'static str>>)
    ensures
        match format_name(value) {
            Ok(Some(n)) => r matches Ok(Some(x)) && x@ == n,
            Ok(None) => r matches Ok(None),
            Err(m) => r matches Err(e) && e.message@ == m,
        },
{
    if value == 2 {
        Ok(Some("S16_LE"))
    } else if value == 6 {
        Ok(Some("S24_4_LE"))
    } else if value == 10 {
        Ok(Some("S32_LE"))
    } else if value == 14 {
        Ok(Some("F32_LE"))
    } else if value == 16 {
        Ok(Some("F64_LE"))
    } else if value == 32 {
        Ok(Some("S24_3_LE"))
    } else if (0 <= value && value <= 28) || (31 <= value && value <= 52) {
        Ok(None)
    } else {
        let mut s = "unknown ALSA sample-format enum value ".to_string();
        push_int(&mut s, value);
        Err(app_error(s))
    }
}

/// A non-negative control value as `u32`.
pub open spec fn nonneg(value: i32) -> Option<u32> {
    if value >= 0 {
        Some(value as u32)
    } else {
        None
    }
}

/// `Some(value as u32)` for a non-negative value, `None` otherwise.
pub fn nonneg_u32(value: i32) -> (r: Option<u32>)
    ensures
        r == nonneg(value),
{
    if value >= 0 {
        Some(value as u32)
    } else {
        None
    }
}

/// Which stream control an element is.
#[derive(Clone, Copy, Debug, Eq, PartialEq, Structural)]
pub enum ControlKind {
    Active,
    Channels,
    Format,
    Rate,
    GadgetRate,
}

/// The control kind of an element with name `name`, if it is one of ours.
pub open spec fn kind_of_name(name: Seq<char>) -> Option<ControlKind> {
    if name == LOOPBACK_ACTIVE@ {
        Some(ControlKind::Active)
    } else if name == LOOPBACK_CHANNELS@ {
        Some(ControlKind::Channels)
    } else if name == LOOPBACK_FORMAT@ {
        Some(ControlKind::Format)
    } else if name == LOOPBACK_RATE@ {
        Some(ControlKind::Rate)
    } else if name == GADGET_CAPTURE_RATE@ {
        Some(ControlKind::GadgetRate)
    } else {
        None
    }
}

/// Which stream control an element is: only PCM elements of the listened
/// device and subdevice count, and among them the five known names.
pub fn classify_control(
    is_pcm: bool,
    device: u32,
    subdevice: u32,
    name: &str,
    want_device: u32,
    want_subdevice: u32,
) -> (r: Option<ControlKind>)
    ensures
        r == if is_pcm && device == want_device && subdevice == want_subdevice {
            kind_of_name(name@)
        } else {
            None
        },
{
    if !is_pcm || device != want_device || subdevice != want_subdevice {
        return None;
    }
    if str_eq(name, LOOPBACK_ACTIVE) {
        Some(ControlKind::Active)
    } else if str_eq(name, LOOPBACK_CHANNELS) {
        Some(ControlKind::Channels)
    } else if str_eq(name, LOOPBACK_FORMAT) {
        Some(ControlKind::Format)
    } else if str_eq(name, LOOPBACK_RATE) {
        Some(ControlKind::Rate)
    } else if str_eq(name, GADGET_CAPTURE_RATE) {
        Some(ControlKind::GadgetRate)
    } else {
        None
    }
}

/// The control values read so far; a later read of a control replaces an
/// earlier one.
#[derive(Debug, Clone, Copy, PartialEq, Eq, Structural)]
pub struct ControlReadings {
    pub active: Option<bool>,
    pub channels: Option<u32>,
    pub raw_format: Option<i32>,
    pub rate: Option<u32>,
    pub gadget_rate: Option<u32>,
}

impl ControlReadings {
    /// No control read yet.
    pub fn new() -> (r: Self)
        ensures
            r == (ControlReadings {
                active: None,
                channels: None,
                raw_format: None,
                rate: None,
                gadget_rate: None,
            }),
    {
        ControlReadings { active: None, channels: None, raw_format: None, rate: None, gadget_rate: None }
    }

    /// Record the value of a control: its boolean for the active control,
    /// its integer (non-negative ones only, except for the format) for the others.
    pub fn record(&mut self, kind: ControlKind, boolean: Option<bool>, integer: Option<i32>)
        ensures
            *final(self) == match kind {
                ControlKind::Active => ControlReadings { active: boolean, ..*old(self) },
                ControlKind::Channels => ControlReadings {
                    channels: match integer {
                        Some(v) => nonneg(v),
                        None => None,
                    },
                    ..*old(self)
                },
                ControlKind::Format => ControlReadings { raw_format: integer, ..*old(self) },
                ControlKind::Rate => ControlReadings {
                    rate: match integer {
                        Some(v) => nonneg(v),
                        None => None,
                    },
                    ..*old(self)
                },
                ControlKind::GadgetRate => ControlReadings {
                    gadget_rate: match integer {
                        Some(v) => nonneg(v),
                        None => None,
                    },
                    ..*old(self)
                },
            },
    {
        let nn = match integer {
            Some(v) => nonneg_u32(v),
            None => None,
        };
        match kind {
            ControlKind::Active => self.active = boolean,
            ControlKind::Channels => self.channels = nn,
            ControlKind::Format => self.raw_format = integer,
            ControlKind::Rate => self.rate = nn,
            ControlKind::GadgetRate => self.gadget_rate = nn,
        }
    }
}

/// The message for a missing snd-aloop control.
pub open spec fn missing_control(name: Seq<char>, device: u32, subdevice: u32) -> Seq<char> {
    "ALSA control '"@ + name + "' not found for device "@ + dec_string(device as nat) + ","@
        + dec_string(subdevice as nat)
}

/// The snapshot the control values give. A USB gadget's capture rate is
/// authoritative on its own (active when positive; format and channels
/// unknown). Otherwise all four snd-aloop controls must be present.
pub open spec fn snapshot_of(r: ControlReadings, device: u32, subdevice: u32) -> Result<SnapshotView, Seq<char>> {
    match r.gadget_rate {
        Some(rate) => Ok(
            SnapshotView {
                active: rate > 0,
                wave: WaveView { sample_rate: Some(rate), sample_format: None, channels: None },
            },
        ),
        None => match (r.active, r.rate, r.channels, r.raw_format) {
            (None, _, _, _) => Err(missing_control(LOOPBACK_ACTIVE@, device, subdevice)),
            (Some(_), None, _, _) => Err(missing_control(LOOPBACK_RATE@, device, subdevice)),
            (Some(_), Some(_), None, _) => Err(missing_control(LOOPBACK_CHANNELS@, device, subdevice)),
            (Some(_), Some(_), Some(_), None) => Err(missing_control(LOOPBACK_FORMAT@, device, subdevice)),
            (Some(active), Some(rate), Some(channels), Some(raw)) => match format_name(raw) {
                Err(m) => Err(m),
                Ok(f) => Ok(
                    SnapshotView {
                        active,
                        wave: WaveView { sample_rate: Some(rate), sample_format: f, channels: Some(channels) },
                    },
                ),
            },
        },
    }
}

fn missing(name: &str, device: u32, subdevice: u32) -> (e: AppError)
    ensures
        e.message@ == missing_control(name@, device, subdevice),
{
    let mut s = concat3("ALSA control '", name, "' not found for device ");
    push_decimal(&mut s, device as u64);
    s.append(",");
    push_decimal(&mut s, subdevice as u64);
    app_error(s)
}

/// The snapshot the control values give, and whether the snd-aloop format
/// is one CamillaDSP has no name for (the caller warns about it).
pub fn snapshot_from_readings(r: &ControlReadings, device: u32, subdevice: u32) -> (out: AppResult<(DeviceSnapshot, bool)>)
    ensures
        match snapshot_of(*r, device, subdevice) {
            Ok(s) => out matches Ok((x, unmapped)) && x@ == s && unmapped == (r.gadget_rate is None
                && s.wave.sample_format is None),
            Err(m) => out matches Err(e) && e.message@ == m,
        },
{
    if let Some(rate) = r.gadget_rate {
        return Ok(
            (
                DeviceSnapshot {
                    active: rate > 0,
                    wave: WaveFormat { sample_rate: Some(rate), sample_format: None, channels: None },
                },
                false,
            ),
        );
    }
    let active = match r.active {
        Some(a) => a,
        None => {
            return Err(missing(LOOPBACK_ACTIVE, device, subdevice));
        },
    };
    let rate = match r.rate {
        Some(v) => v,
        None => {
            return Err(missing(LOOPBACK_RATE, device, subdevice));
        },
    };
    let channels = match r.channels {
        Some(v) => v,
        None => {
            return Err(missing(LOOPBACK_CHANNELS, device, subdevice));
        },
    };
    let raw = match r.raw_format {
        Some(v) => v,
        None => {
            return Err(missing(LOOPBACK_FORMAT, device, subdevice));
        },
    };
    let format = alsa_format_to_camilladsp(raw)?;
    let unmapped = format.is_none();
    let sample_format = match format {
        Some(f) => Some(f.to_string()),
        None => None,
    };
    Ok(
        (
            DeviceSnapshot {
                active,
                wave: WaveFormat { sample_rate: Some(rate), sample_format, channels: Some(channels) },
            },
            unmapped,
        ),
    )
}

/// An ALSA control device name split into card, device and subdevice:
/// `"hw:Loopback,0,0"` or `"hw:Loopback,0"` (missing numbers are 0).
pub open spec fn control_device(name: Seq<char>) -> Result<(Seq<char>, u32, u32), Seq<char>> {
    let parts = split_char(name, ',');
    if parts[0].len() == 0 {
        Err("empty ALSA control device"@)
    } else {
        let device = if parts.len() >= 2 {
            match parse_unsigned(parts[1], u32::MAX as nat) {
                Some(n) => Ok(n as u32),
                None => Err("invalid ALSA device number in "@ + name),
            }
        } else {
            Ok(0u32)
        };
        match device {
            Err(m) => Err(m),
            Ok(d) => if parts.len() >= 3 {
                match parse_unsigned(parts[2], u32::MAX as nat) {
                    Some(n) => Ok((parts[0], d, n as u32)),
                    None => Err("invalid ALSA subdevice number in "@ + name),
                }
            } else {
                Ok((parts[0], d, 0u32))
            },
        }
    }
}

/// Split an ALSA control device name into card, device and subdevice.
pub fn parse_control_device(name: &str) -> (r: AppResult<(String, u32, u32)>)
    ensures
        match control_device(name@) {
            Ok((card, d, s)) => r matches Ok((c, d2, s2)) && c@ == card && d2 == d && s2 == s,
            Err(m) => r matches Err(e) && e.message@ == m,
        },
{
    let parts = split_on_char(chars_of(name).as_slice(), ',');
    proof {
        assert(parts.deep_view().len() == parts.len());
        crate::text::lemma_split_char_nonempty(name@, ',');
        assert(parts.deep_view()[0] == parts[0]@);
    }
    if parts[0].len() == 0 {
        return Err(app_error_str("empty ALSA control device"));
    }
    let device = if parts.len() >= 2 {
        proof {
            assert(parts.deep_view()[1] == parts[1]@);
        }
        match parse_unsigned_chars(parts[1].as_slice(), 0xffff_ffff) {
            Some(n) => n as u32,
            None => {
                return Err(app_error(concat2("invalid ALSA device number in ", name)));
            },
        }
    } else {
        0
    };
    let subdevice = if parts.len() >= 3 {
        proof {
            assert(parts.deep_view()[2] == parts[2]@);
        }
        match parse_unsigned_chars(parts[2].as_slice(), 0xffff_ffff) {
            Some(n) => n as u32,
            None => {
                return Err(app_error(concat2("invalid ALSA subdevice number in ", name)));
            },
        }
    } else {
        0
    };
    Ok((string_of(parts[0].as_slice()), device, subdevice))
}

} // verus!
