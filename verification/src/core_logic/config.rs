//! Stream format and configuration-mode types.
use crate::text::{concat3, copy_opt_string, debug_opt_str, debug_text, dec_string, opt_view, push_decimal, str_eq};
use vstd::prelude::*;

verus! {

/// The audio format reported by the ALSA loopback or USB gadget control interface.
///
/// Any field may be `None` when the underlying ALSA control does not expose that
/// information (e.g. the USB gadget source only reports sample rate).
#[derive(Debug, Eq, PartialEq)]
pub struct WaveFormat {
    pub sample_rate: Option<u32>,
    /// CamillaDSP format name string (e.g. `"S32_LE"`, `"S24_4_RJ_LE"`).
    pub sample_format: Option<String>,
    pub channels: Option<u32>,
}

/// The mathematical value of a [`WaveFormat`].
pub struct WaveView {
    pub sample_rate: Option<u32>,
    pub sample_format: Option<Seq<char>>,
    pub channels: Option<u32>,
}

impl View for WaveFormat {
    type V = WaveView;

    open spec fn view(&self) -> WaveView {
        WaveView {
            sample_rate: self.sample_rate,
            sample_format: opt_view(self.sample_format),
            channels: self.channels,
        }
    }
}

/// `first` where it has a value, else `second` (`Option::or`).
pub open spec fn or_else<T>(first: Option<T>, second: Option<T>) -> Option<T> {
    match first {
        Some(v) => Some(v),
        None => second,
    }
}

/// Each field of `w` that is missing taken from `fallback`.
pub open spec fn wave_with_fallback(w: WaveView, fallback: WaveView) -> WaveView {
    WaveView {
        sample_rate: or_else(w.sample_rate, fallback.sample_rate),
        sample_format: or_else(w.sample_format, fallback.sample_format),
        channels: or_else(w.channels, fallback.channels),
    }
}

impl Default for WaveFormat {
    fn default() -> (w: Self)
        ensures
            w@ == (WaveView { sample_rate: None, sample_format: None, channels: None }),
    {
        WaveFormat { sample_rate: None, sample_format: None, channels: None }
    }
}

impl Clone for WaveFormat {
    fn clone(&self) -> (w: Self)
        ensures
            w@ == self@,
    {
        self.duplicate()
    }
}

/// The `Debug` form of an optional number.
pub open spec fn opt_num_text(v: Option<u32>) -> Seq<char> {
    match v {
        Some(n) => "Some("@ + dec_string(n as nat) + ")"@,
        None => "None"@,
    }
}

/// The text of a wave format in log lines.
pub open spec fn wave_text(w: WaveView) -> Seq<char> {
    "rate="@ + opt_num_text(w.sample_rate) + ", format="@ + debug_opt_str(w.sample_format) + ", channels="@
        + opt_num_text(w.channels)
}

impl WaveFormat {
    /// A wave format with every field missing.
    pub fn unknown() -> (w: Self)
        ensures
            w@ == (WaveView { sample_rate: None, sample_format: None, channels: None }),
    {
        WaveFormat { sample_rate: None, sample_format: None, channels: None }
    }

    /// A field-by-field copy.
    pub fn duplicate(&self) -> (w: Self)
        ensures
            w@ == self@,
    {
        WaveFormat {
            sample_rate: self.sample_rate,
            sample_format: copy_opt_string(&self.sample_format),
            channels: self.channels,
        }
    }

    /// Return a new `WaveFormat` where any `None` fields in `self` are filled
    /// from the corresponding field in `fallback`.
    pub fn with_fallback(&self, fallback: &WaveFormat) -> (w: Self)
        ensures
            w@ == wave_with_fallback(self@, fallback@),
    {
        let sample_rate = match self.sample_rate {
            Some(r) => Some(r),
            None => fallback.sample_rate,
        };
        let sample_format = match &self.sample_format {
            Some(f) => Some(f.clone()),
            None => copy_opt_string(&fallback.sample_format),
        };
        let channels = match self.channels {
            Some(c) => Some(c),
            None => fallback.channels,
        };
        WaveFormat { sample_rate, sample_format, channels }
    }

    /// The text `Display` writes: `rate=…, format=…, channels=…`, each field in
    /// its `Debug` form.
    pub fn display(&self) -> (s: String)
        ensures
            s@ == wave_text(self@),
    {
        let mut out = "rate=".to_string();
        match self.sample_rate {
            Some(r) => {
                out.append("Some(");
                push_decimal(&mut out, r as u64);
                out.append(")");
            },
            None => out.append("None"),
        }
        out.append(", format=");
        let fmt = match &self.sample_format {
            Some(f) => debug_text(Some(f.as_str())),
            None => debug_text(None),
        };
        out.append(fmt.as_str());
        out.append(", channels=");
        match self.channels {
            Some(c) => {
                out.append("Some(");
                push_decimal(&mut out, c as u64);
                out.append(")");
            },
            None => out.append("None"),
        }
        out
    }

    /// Whether two wave formats hold the same values.
    pub fn same_as(&self, other: &WaveFormat) -> (b: bool)
        ensures
            b == (self@ == other@),
    {
        let format_same = match (&self.sample_format, &other.sample_format) {
            (Some(a), Some(b)) => str_eq(a.as_str(), b.as_str()),
            (None, None) => true,
            _ => false,
        };
        self.sample_rate == other.sample_rate && format_same && self.channels == other.channels
    }
}

/// A point-in-time snapshot of the loopback device state.
#[derive(Debug, Eq, PartialEq)]
pub struct DeviceSnapshot {
    pub active: bool,
    pub wave: WaveFormat,
}

/// The mathematical value of a [`DeviceSnapshot`].
pub struct SnapshotView {
    pub active: bool,
    pub wave: WaveView,
}

impl View for DeviceSnapshot {
    type V = SnapshotView;

    open spec fn view(&self) -> SnapshotView {
        SnapshotView { active: self.active, wave: self.wave@ }
    }
}

impl Clone for DeviceSnapshot {
    fn clone(&self) -> (s: Self)
        ensures
            s@ == self@,
    {
        self.duplicate()
    }
}

impl DeviceSnapshot {
    /// A field-by-field copy.
    pub fn duplicate(&self) -> (s: Self)
        ensures
            s@ == self@,
    {
        DeviceSnapshot { active: self.active, wave: self.wave.duplicate() }
    }

    /// The snapshot of an idle device with an unknown format.
    pub fn inactive() -> (s: Self)
        ensures
            !s@.active,
            s@.wave == (WaveView { sample_rate: None, sample_format: None, channels: None }),
    {
        DeviceSnapshot { active: false, wave: WaveFormat::unknown() }
    }
}

/// Selects how the controller prepares CamillaDSP's configuration before
/// starting processing.
///
/// * [`ConfigMode::Static`] — the active config file is loaded byte-for-byte,
///   unmodified.
/// * [`ConfigMode::Adaptive`] — the baseline config is adapted in memory for
///   the detected `WaveFormat` and backend transport before being sent.
#[derive(Clone, Copy, Debug, Eq, PartialEq, Structural)]
pub enum ConfigMode {
    /// Load the active config file unmodified. Installer default.
    Static,
    /// Adapt the config in memory for the detected transport (legacy).
    Adaptive,
}

impl Default for ConfigMode {
    fn default() -> (m: Self)
        ensures
            m == ConfigMode::Adaptive,
    {
        ConfigMode::Adaptive
    }
}

/// The CLI spelling of a config mode.
pub open spec fn config_mode_name(m: ConfigMode) -> Seq<char> {
    match m {
        ConfigMode::Static => "static"@,
        ConfigMode::Adaptive => "adaptive"@,
    }
}

/// What `--config-mode` makes of a value: the mode it names, or the message
/// that rejects it.
pub open spec fn config_mode_parse(value: Seq<char>) -> Result<ConfigMode, Seq<char>> {
    if value == "static"@ {
        Ok(ConfigMode::Static)
    } else if value == "adaptive"@ {
        Ok(ConfigMode::Adaptive)
    } else {
        Err("--config-mode must be 'static' or 'adaptive', got '"@ + value + "'"@)
    }
}

/// The view of a parse result.
pub open spec fn mode_result(r: Result<ConfigMode, String>) -> Result<ConfigMode, Seq<char>> {
    match r {
        Ok(m) => Ok(m),
        Err(e) => Err(e@),
    }
}

/// The name a mode is displayed with parses back to that mode.
pub proof fn law_config_mode_display_round_trips(m: ConfigMode)
    ensures
        config_mode_parse(config_mode_name(m)) == Ok::<ConfigMode, Seq<char>>(m),
{
    reveal_strlit("static");
    reveal_strlit("adaptive");
    assert("static"@ != "adaptive"@) by {
        assert("static"@.len() != "adaptive"@.len());
    }
}

impl ConfigMode {
    /// Parse a `--config-mode` CLI value (`"static"` or `"adaptive"`).
    pub fn parse(value: &str) -> (r: Result<Self, String>)
        ensures
            mode_result(r) == config_mode_parse(value@),
    {
        if str_eq(value, "static") {
            Ok(ConfigMode::Static)
        } else if str_eq(value, "adaptive") {
            Ok(ConfigMode::Adaptive)
        } else {
            Err(concat3("--config-mode must be 'static' or 'adaptive', got '", value, "'"))
        }
    }

    /// The CLI spelling of this mode, as `Display` writes it.
    pub fn as_str(&self) -> (s: &'static str)
        ensures
            s@ == config_mode_name(*self),
    {
        match self {
            ConfigMode::Static => "static",
            ConfigMode::Adaptive => "adaptive",
        }
    }

    /// The CLI spelling of this mode as an owned string.
    pub fn to_string(&self) -> (s: String)
        ensures
            s@ == config_mode_name(*self),
    {
        self.as_str().to_string()
    }
}

} // verus!
