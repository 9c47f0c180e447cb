//! A typed, read-only view of the few config paths the controller reads:
//! the DSP and capture rates, the resampler, and the capture device fields.
//! Everything else in the document stays opaque.
use crate::camilla::config_document::{dotted_get, resampler_present, ConfigDocument};
use crate::json::JsonNumber;
use crate::yaml::{numv, yv, NumV, YVal, Yaml};
use vstd::prelude::*;

verus! {

/// `devices.samplerate`: the DSP rate, the rate-sync target without a resampler.
pub const PATH_SAMPLERATE: &'static str = "devices.samplerate";
/// `devices.capture_samplerate`: the capture rate, the target with a resampler.
pub const PATH_CAPTURE_SAMPLERATE: &'static str = "devices.capture_samplerate";
/// `devices.resampler`: present and non-null when a resampler is configured.
pub const PATH_RESAMPLER: &'static str = "devices.resampler";
/// `devices.capture.type`.
pub const PATH_CAPTURE_TYPE: &'static str = "devices.capture.type";
/// `devices.capture.device`.
pub const PATH_CAPTURE_DEVICE: &'static str = "devices.capture.device";
/// `devices.capture.channels`.
pub const PATH_CAPTURE_CHANNELS: &'static str = "devices.capture.channels";
/// `devices.capture.format`.
pub const PATH_CAPTURE_FORMAT: &'static str = "devices.capture.format";
/// `devices.capture.stop_on_inactive`.
pub const PATH_STOP_ON_INACTIVE: &'static str = "devices.capture.stop_on_inactive";

/// A non-negative integer value, cut to its low 32 bits (`as_u64` then `as u32`).
pub open spec fn low_u32(v: Option<YVal>) -> Option<u32> {
    match v {
        Some(YVal::Num(NumV::PosInt(n))) => Some((n % 0x1_0000_0000) as u32),
        _ => None,
    }
}

/// A string value.
pub open spec fn text_value(v: Option<YVal>) -> Option<Seq<char>> {
    match v {
        Some(YVal::Str(s)) => Some(s),
        _ => None,
    }
}

fn as_low_u32(v: Option<&Yaml>) -> (r: Option<u32>)
    ensures
        r == low_u32(
            match v {
                Some(x) => Some(yv(*x)),
                None => None,
            },
        ),
{
    match v {
        Some(Yaml::Number(JsonNumber::PosInt(n))) => {
            let n: u64 = *n;
            let r = #[verifier::truncate] (n as u32);
            assert((n as u32) == n % 0x1_0000_0000) by (bit_vector);
            Some(r)
        },
        _ => None,
    }
}

fn as_text(v: Option<&Yaml>) -> (r: Option<&str>)
    ensures
        match r {
            Some(s) => text_value(
                match v {
                    Some(x) => Some(yv(*x)),
                    None => None,
                },
            ) == Some(s@),
            None => text_value(
                match v {
                    Some(x) => Some(yv(*x)),
                    None => None,
                },
            ) is None,
        },
{
    match v {
        Some(Yaml::Str(s)) => Some(s.as_str()),
        _ => None,
    }
}

/// A read-only view of the controller's config paths in a document.
#[derive(Debug)]
pub struct ConfigView<'a> {
    doc: &'a ConfigDocument,
}

impl<'a> ConfigView<'a> {
    /// The document viewed.
    pub closed spec fn doc_view(&self) -> YVal {
        self.doc@
    }

    /// A view over `doc`.
    pub fn new(doc: &'a ConfigDocument) -> (v: Self)
        ensures
            v.doc_view() == doc@,
    {
        ConfigView { doc }
    }

    /// The DSP rate, `devices.samplerate`, if present and numeric.
    pub fn samplerate(&self) -> (r: Option<u32>)
        ensures
            r == low_u32(dotted_get(self.doc_view(), PATH_SAMPLERATE@)),
    {
        as_low_u32(self.doc.get(PATH_SAMPLERATE))
    }

    /// The capture rate, `devices.capture_samplerate`, if present and numeric.
    pub fn capture_samplerate(&self) -> (r: Option<u32>)
        ensures
            r == low_u32(dotted_get(self.doc_view(), PATH_CAPTURE_SAMPLERATE@)),
    {
        as_low_u32(self.doc.get(PATH_CAPTURE_SAMPLERATE))
    }

    /// Whether a resampler is configured.
    pub fn has_resampler(&self) -> (b: bool)
        ensures
            b == resampler_present(self.doc_view()),
    {
        self.doc.has_resampler()
    }

    /// The rate-sync target path: the capture rate with a resampler, else the DSP rate.
    pub fn rate_field_path(&self) -> (p: &'static str)
        ensures
            p@ == if resampler_present(self.doc_view()) {
                PATH_CAPTURE_SAMPLERATE@
            } else {
                PATH_SAMPLERATE@
            },
    {
        self.doc.rate_field_path()
    }

    /// The current rate in the rate-sync target field.
    pub fn effective_source_rate(&self) -> (r: Option<u32>)
        ensures
            r == if resampler_present(self.doc_view()) {
                low_u32(dotted_get(self.doc_view(), PATH_CAPTURE_SAMPLERATE@))
            } else {
                low_u32(dotted_get(self.doc_view(), PATH_SAMPLERATE@))
            },
    {
        if self.has_resampler() {
            self.capture_samplerate()
        } else {
            self.samplerate()
        }
    }

    /// The capture type, `devices.capture.type`, if a string.
    pub fn capture_type(&self) -> (r: Option<&str>)
        ensures
            match r {
                Some(s) => text_value(dotted_get(self.doc_view(), PATH_CAPTURE_TYPE@)) == Some(s@),
                None => text_value(dotted_get(self.doc_view(), PATH_CAPTURE_TYPE@)) is None,
            },
    {
        as_text(self.doc.get(PATH_CAPTURE_TYPE))
    }

    /// The capture device, `devices.capture.device`, if a string.
    pub fn capture_device(&self) -> (r: Option<&str>)
        ensures
            match r {
                Some(s) => text_value(dotted_get(self.doc_view(), PATH_CAPTURE_DEVICE@)) == Some(s@),
                None => text_value(dotted_get(self.doc_view(), PATH_CAPTURE_DEVICE@)) is None,
            },
    {
        as_text(self.doc.get(PATH_CAPTURE_DEVICE))
    }

    /// The capture channel count, `devices.capture.channels`, if numeric.
    pub fn capture_channels(&self) -> (r: Option<u32>)
        ensures
            r == low_u32(dotted_get(self.doc_view(), PATH_CAPTURE_CHANNELS@)),
    {
        as_low_u32(self.doc.get(PATH_CAPTURE_CHANNELS))
    }

    /// The capture format, `devices.capture.format`, if a string.
    pub fn capture_format(&self) -> (r: Option<&str>)
        ensures
            match r {
                Some(s) => text_value(dotted_get(self.doc_view(), PATH_CAPTURE_FORMAT@)) == Some(s@),
                None => text_value(dotted_get(self.doc_view(), PATH_CAPTURE_FORMAT@)) is None,
            },
    {
        as_text(self.doc.get(PATH_CAPTURE_FORMAT))
    }

    /// Whether `devices.capture.stop_on_inactive` is `true`; `false` when
    /// absent, null, not a bool, or false.
    pub fn stop_on_inactive(&self) -> (b: bool)
        ensures
            b == (dotted_get(self.doc_view(), PATH_STOP_ON_INACTIVE@) == Some(YVal::Bool(true))),
    {
        match self.doc.get(PATH_STOP_ON_INACTIVE) {
            Some(Yaml::Bool(v)) => *v,
            _ => false,
        }
    }
}

} // verus!
