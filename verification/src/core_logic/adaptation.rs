//! Adapting a CamillaDSP config to the live stream and the runtime backend.
//!
//! The rules: the stream's sample rate goes to `devices.samplerate`, or,
//! when a resampler is configured, to `devices.capture_samplerate` (and a
//! synchronous resampler that would run 1:1 is switched off for this copy).
//! The capture block is rebuilt for the backend: its runtime-managed fields
//! (`type`, `device`, `format`, `channels`, `stop_on_inactive`) are set by
//! the controller and the user's other capture fields are kept where the
//! backend's device accepts them. Everything else is carried through.
//!
//! Accessors look through YAML tags the way `serde_yaml_ng`'s do.
use crate::core_logic::config::{WaveFormat, WaveView};
use crate::error::{app_error, app_error_str, AppError, AppResult};
use crate::json::JsonNumber;
use crate::text::{concat2, concat3, dec_string, opt_view, push_decimal, str_eq};
use crate::yaml::{
    clone_yaml, dict_get, dict_index, dict_insert, find_key, insert_str, lemma_dict_index, lemma_dict_index_hit,
    lemma_dict_insert_get,
    lemma_yms, lemma_yvs, yms, yv, yvs, NumV,
    YVal, Yaml,
};
use vstd::prelude::*;

verus! {

/// The capture device of the aloop backend.
pub const ALOOP_CAPTURE_DEVICE: &'static str = "hw:Loopback,0,0";

/// Which runtime backend a config is adapted for.
#[derive(Clone, Copy, Debug, Eq, PartialEq, Structural)]
pub enum RuntimeBackend {
    Aloop,
    Ioplug,
}

// ─── Tags ──────────────────────────────────────────────────────────────────

/// `v` with its tags removed.
pub open spec fn untag(v: YVal) -> YVal
    decreases v,
{
    match v {
        YVal::Tagged(_, b) => untag(*b),
        _ => v,
    }
}

/// `v`'s tags, outermost first.
pub open spec fn tags_of(v: YVal) -> Seq<Seq<char>>
    decreases v,
{
    match v {
        YVal::Tagged(t, b) => seq![t] + tags_of(*b),
        _ => seq![],
    }
}

/// `inner` wrapped in the tags `tags`, outermost first.
pub open spec fn wrap_tags(tags: Seq<Seq<char>>, inner: YVal) -> YVal
    decreases tags.len(),
{
    if tags.len() == 0 {
        inner
    } else {
        YVal::Tagged(tags[0], Box::new(wrap_tags(tags.drop_first(), inner)))
    }
}

/// `v` with its untagged content replaced by `inner`, tags kept.
pub open spec fn retag(v: YVal, inner: YVal) -> YVal {
    wrap_tags(tags_of(v), inner)
}

/// The entries of a mapping, looking through tags.
pub open spec fn as_dict(v: YVal) -> Option<Seq<(YVal, YVal)>> {
    match untag(v) {
        YVal::Dict(m) => Some(m),
        _ => None,
    }
}

/// The text of a string, looking through tags.
pub open spec fn as_text(v: YVal) -> Option<Seq<char>> {
    match untag(v) {
        YVal::Str(s) => Some(s),
        _ => None,
    }
}

/// Whether a value is null, looking through tags.
pub open spec fn is_null(v: YVal) -> bool {
    untag(v) is Null
}

/// A non-negative integer that fits in `u32`, looking through tags.
pub open spec fn as_u32(v: YVal) -> Option<u32> {
    match untag(v) {
        YVal::Num(NumV::PosInt(n)) => if n <= u32::MAX {
            Some(n as u32)
        } else {
            None
        },
        _ => None,
    }
}

/// The string key `name`.
pub open spec fn key(name: Seq<char>) -> YVal {
    YVal::Str(name)
}

/// A non-negative integer value.
pub open spec fn uint(n: u64) -> YVal {
    YVal::Num(NumV::PosInt(n))
}

/// Peel the tags off a value: the tags, outermost first, and the content.
fn take_tags(y: Yaml) -> (r: (Vec<String>, Yaml))
    ensures
        r.0.deep_view() == tags_of(yv(y)),
        yv(r.1) == untag(yv(y)),
        !(yv(r.1) is Tagged),
    decreases y,
{
    match y {
        Yaml::Tagged(t, b) => {
            let (mut rest, inner) = take_tags(*b);
            let ghost old_rest = rest.deep_view();
            rest.insert(0, t);
            proof {
                assert(rest.deep_view() =~= seq![rest@[0]@] + old_rest);
            }
            (rest, inner)
        },
        other => (Vec::new(), other),
    }
}

/// Wrap `inner` in `tags`, outermost first.
fn put_tags(tags: Vec<String>, inner: Yaml) -> (r: Yaml)
    ensures
        yv(r) == wrap_tags(tags.deep_view(), yv(inner)),
{
    let mut out = inner;
    let mut i: usize = tags.len();
    let ghost tv = tags.deep_view();
    proof {
        assert(tv.skip(i as int) =~= Seq::<Seq<char>>::empty());
    }
    while i > 0
        invariant
            i <= tags.len(),
            tv == tags.deep_view(),
            tv.len() == tags.len(),
            yv(out) == wrap_tags(tv.skip(i as int), yv(inner)),
        decreases i,
    {
        let t = tags[i - 1].clone();
        out = Yaml::Tagged(t, Box::new(out));
        proof {
            let s = tv.skip(i - 1);
            assert(s[0] == tags@[i - 1]@);
            assert(s.drop_first() =~= tv.skip(i as int));
        }
        i = i - 1;
    }
    proof {
        assert(tv.skip(0) =~= tv);
    }
    out
}

/// Look through the tags of a value.
fn untag_ref(y: &Yaml) -> (r: &Yaml)
    ensures
        yv(*r) == untag(yv(*y)),
    decreases y,
{
    match y {
        Yaml::Tagged(_, b) => untag_ref(&**b),
        _ => y,
    }
}

// ─── Capture rules ─────────────────────────────────────────────────────────

/// Whether a capture field is set by the controller at run time.
pub open spec fn managed_field(name: Seq<char>) -> bool {
    name == "type"@ || name == "device"@ || name == "format"@ || name == "channels"@
        || name == "stop_on_inactive"@
}

/// Whether a capture field is valid for a `Stdin` capture device.
pub open spec fn stdin_field(name: Seq<char>) -> bool {
    name == "labels"@ || name == "extra_samples"@ || name == "skip_bytes"@ || name == "read_bytes"@
}

/// Whether a capture field is set by the controller at run time.
pub fn runtime_managed_capture_field(name: &str) -> (b: bool)
    ensures
        b == managed_field(name@),
{
    str_eq(name, "type") || str_eq(name, "device") || str_eq(name, "format") || str_eq(name, "channels")
        || str_eq(name, "stop_on_inactive")
}

fn stdin_capture_field(name: &str) -> (b: bool)
    ensures
        b == stdin_field(name@),
{
    str_eq(name, "labels") || str_eq(name, "extra_samples") || str_eq(name, "skip_bytes") || str_eq(
        name,
        "read_bytes",
    )
}

/// Whether an aloop runtime capture keeps a user's capture entry: all but
/// the runtime-managed fields (entries whose key is not a string are kept).
pub open spec fn alsa_keeps(e: (YVal, YVal)) -> bool {
    !(as_text(e.0) matches Some(n) && managed_field(n))
}

/// Whether a `Stdin` capture keeps a user's capture entry: those valid for it.
pub open spec fn stdin_keeps(e: (YVal, YVal)) -> bool {
    as_text(e.0) matches Some(n) && stdin_field(n)
}

/// The user's capture entries an aloop runtime capture keeps, in order.
pub open spec fn kept_for_alsa(m: Seq<(YVal, YVal)>) -> Seq<(YVal, YVal)>
    decreases m.len(),
{
    if m.len() == 0 {
        seq![]
    } else if alsa_keeps(m.last()) {
        kept_for_alsa(m.drop_last()).push(m.last())
    } else {
        kept_for_alsa(m.drop_last())
    }
}

/// The user's capture entries a `Stdin` capture keeps, in order.
pub open spec fn kept_for_stdin(m: Seq<(YVal, YVal)>) -> Seq<(YVal, YVal)>
    decreases m.len(),
{
    if m.len() == 0 {
        seq![]
    } else if stdin_keeps(m.last()) {
        kept_for_stdin(m.drop_last()).push(m.last())
    } else {
        kept_for_stdin(m.drop_last())
    }
}

/// The existing `devices.capture` mapping, if any.
pub open spec fn capture_of(devices: Seq<(YVal, YVal)>) -> Result<Option<Seq<(YVal, YVal)>>, Seq<char>> {
    match dict_get(devices, key("capture"@)) {
        None => Ok(None),
        Some(v) => match as_dict(v) {
            Some(m) => Ok(Some(m)),
            None => Err("devices.capture must be a YAML mapping"@),
        },
    }
}

/// The explicit capture format of the existing capture, if one is set.
pub open spec fn capture_format(cap: Option<Seq<(YVal, YVal)>>) -> Result<Option<Seq<char>>, Seq<char>> {
    match cap {
        None => Ok(None),
        Some(m) => match dict_get(m, key("format"@)) {
            None => Ok(None),
            Some(v) => if is_null(v) {
                Ok(None)
            } else {
                match as_text(v) {
                    Some(s) => Ok(Some(s)),
                    None => Err("devices.capture.format must be a string"@),
                }
            },
        },
    }
}

/// The configured capture channel count of the existing capture, if set.
pub open spec fn capture_channels(cap: Option<Seq<(YVal, YVal)>>) -> Result<Option<u32>, Seq<char>> {
    match cap {
        None => Ok(None),
        Some(m) => match dict_get(m, key("channels"@)) {
            None => Ok(None),
            Some(v) => if is_null(v) {
                Ok(None)
            } else {
                match as_u32(v) {
                    Some(n) => Ok(Some(n)),
                    None => Err("devices.capture.channels is missing or invalid"@),
                }
            },
        },
    }
}

/// The capture channel count to run with: the stream's, else the
/// configured one, else 2. A stream whose count differs from a configured
/// one is refused.
pub open spec fn channels_to_use(cap: Option<Seq<(YVal, YVal)>>, wave: WaveView) -> Result<u32, Seq<char>> {
    match capture_channels(cap) {
        Err(m) => Err(m),
        Ok(configured) => match (configured, wave.channels) {
            (Some(c), Some(w)) => if c != w {
                Err(
                    "changing capture channels is not implemented (config="@ + dec_string(c as nat)
                        + ", stream="@ + dec_string(w as nat) + ")"@,
                )
            } else {
                Ok(w)
            },
            (None, Some(w)) => Ok(w),
            (Some(c), None) => Ok(c),
            (None, None) => Ok(2),
        },
    }
}

/// The capture block for `backend`, built from the existing capture and the
/// stream format.
pub open spec fn runtime_capture(cap: Option<Seq<(YVal, YVal)>>, wave: WaveView, backend: RuntimeBackend) -> Result<
    Seq<(YVal, YVal)>,
    Seq<char>,
> {
    match channels_to_use(cap, wave) {
        Err(m) => Err(m),
        Ok(channels) => match capture_format(cap) {
            Err(m) => Err(m),
            Ok(explicit) => match backend {
                RuntimeBackend::Aloop => {
                    let base = match cap {
                        Some(m) => kept_for_alsa(m),
                        None => seq![],
                    };
                    let c = dict_insert(
                        dict_insert(
                            dict_insert(
                                dict_insert(base, key("type"@), YVal::Str("Alsa"@)),
                                key("channels"@),
                                uint(channels as u64),
                            ),
                            key("device"@),
                            YVal::Str(ALOOP_CAPTURE_DEVICE@),
                        ),
                        key("stop_on_inactive"@),
                        YVal::Bool(true),
                    );
                    let format_was_explicit = match cap {
                        Some(m) => match dict_get(m, key("format"@)) {
                            Some(v) => !is_null(v),
                            None => false,
                        },
                        None => false,
                    };
                    let chosen = match wave.sample_format {
                        Some(f) => Some(f),
                        None => explicit,
                    };
                    Ok(
                        if format_was_explicit && chosen is Some {
                            dict_insert(c, key("format"@), YVal::Str(chosen->Some_0))
                        } else {
                            c
                        },
                    )
                },
                RuntimeBackend::Ioplug => {
                    let base = match cap {
                        Some(m) => kept_for_stdin(m),
                        None => seq![],
                    };
                    let chosen = match wave.sample_format {
                        Some(f) => Some(f),
                        None => explicit,
                    };
                    match chosen {
                        None => Err("ioplug runtime capture format is missing and no fallback is configured"@),
                        Some(f) => Ok(
                            dict_insert(
                                dict_insert(
                                    dict_insert(base, key("type"@), YVal::Str("Stdin"@)),
                                    key("channels"@),
                                    uint(channels as u64),
                                ),
                                key("format"@),
                                YVal::Str(stdin_format_name(f)),
                            ),
                        ),
                    }
                },
            },
        },
    }
}

/// The name a `Stdin` capture gives a stream format: CamillaDSP's generic
/// schema calls the ALSA schema's `S24_4_LE` `S24_4_RJ_LE`; every other
/// format name is shared by both schemas.
pub open spec fn stdin_format_name(f: Seq<char>) -> Seq<char> {
    if f == "S24_4_LE"@ {
        "S24_4_RJ_LE"@
    } else {
        f
    }
}

/// The name a `Stdin` capture gives the stream format `f`.
pub fn stdin_format(f: String) -> (r: String)
    ensures
        r@ == stdin_format_name(f@),
{
    if str_eq(f.as_str(), "S24_4_LE") {
        proof {
            reveal_strlit("S24_4_LE");
        }
        "S24_4_RJ_LE".to_string()
    } else {
        f
    }
}

/// The `devices` entries after applying the stream rate `rate`.
pub open spec fn with_rate(devices: Seq<(YVal, YVal)>, rate: u32) -> Result<Seq<(YVal, YVal)>, Seq<char>> {
    let res = dict_get(devices, key("resampler"@));
    let has_resampler = match res {
        Some(v) => !is_null(v),
        None => false,
    };
    if !has_resampler {
        Ok(dict_insert(devices, key("samplerate"@), uint(rate as u64)))
    } else {
        match as_dict(res->Some_0) {
            None => Err("devices.resampler must be a YAML mapping"@),
            Some(rm) => match (match dict_get(rm, key("type"@)) {
                Some(t) => as_text(t),
                None => None,
            }) {
                None => Err("devices.resampler.type must be a string"@),
                Some(rtype) => {
                    let configured = match dict_get(devices, key("samplerate"@)) {
                        Some(v) => as_u32(v),
                        None => None,
                    };
                    let d = dict_insert(devices, key("capture_samplerate"@), uint(rate as u64));
                    Ok(
                        if rtype == "Synchronous"@ && configured == Some(rate) {
                            dict_insert(d, key("resampler"@), YVal::Null)
                        } else {
                            d
                        },
                    )
                },
            },
        }
    }
}

/// A config adapted to the stream `wave` for `backend`, or why it cannot be.
pub open spec fn adapted(root: YVal, wave: WaveView, backend: RuntimeBackend) -> Result<YVal, Seq<char>> {
    match as_dict(root) {
        None => Err("config root must be a YAML mapping"@),
        Some(rm) => match dict_get(rm, key("devices"@)) {
            None => Err("config has no 'devices' section"@),
            Some(dv) => match as_dict(dv) {
                None => Err("devices must be a YAML mapping"@),
                Some(dm) => match (match wave.sample_rate {
                    Some(rate) => with_rate(dm, rate),
                    None => Ok(dm),
                }) {
                    Err(m) => Err(m),
                    Ok(d2) => match capture_of(d2) {
                        Err(m) => Err(m),
                        Ok(cap) => match runtime_capture(cap, wave, backend) {
                            Err(m) => Err(m),
                            Ok(rc) => {
                                let d3 = dict_insert(d2, key("capture"@), YVal::Dict(rc));
                                let r2 = dict_insert(rm, key("devices"@), retag(dv, YVal::Dict(d3)));
                                Ok(retag(root, YVal::Dict(r2)))
                            },
                        },
                    },
                },
            },
        },
    }
}

// ─── Executable rules ──────────────────────────────────────────────────────

/// The view of an optional entry list.
pub open spec fn opt_entries(c: Option<&Vec<(Yaml, Yaml)>>) -> Option<Seq<(YVal, YVal)>> {
    match c {
        Some(e) => Some(yms(e@)),
        None => None,
    }
}

/// The entries of a mapping, looking through tags.
fn mapping_entries(y: &Yaml) -> (r: Option<&Vec<(Yaml, Yaml)>>)
    ensures
        opt_entries(r) == as_dict(yv(*y)),
{
    match untag_ref(y) {
        Yaml::Mapping(e) => Some(e),
        _ => None,
    }
}

/// The value of the entry `name` of a mapping.
fn entry<'a>(m: &'a Vec<(Yaml, Yaml)>, name: &str) -> (r: Option<&'a Yaml>)
    ensures
        match r {
            Some(v) => dict_get(yms(m@), key(name@)) == Some(yv(*v)),
            None => dict_get(yms(m@), key(name@)) is None,
        },
{
    match find_key(m, name) {
        Some(i) => Some(&m[i].1),
        None => None,
    }
}

fn text_of(y: &Yaml) -> (r: Option<&str>)
    ensures
        match r {
            Some(s) => as_text(yv(*y)) == Some(s@),
            None => as_text(yv(*y)) is None,
        },
{
    match untag_ref(y) {
        Yaml::Str(s) => Some(s.as_str()),
        _ => None,
    }
}

fn null_value(y: &Yaml) -> (b: bool)
    ensures
        b == is_null(yv(*y)),
{
    match untag_ref(y) {
        Yaml::Null => true,
        _ => false,
    }
}

/// A non-negative integer that fits in `u32` (`as_u64` then `u32::try_from`).
pub fn yaml_u32(y: &Yaml) -> (r: Option<u32>)
    ensures
        r == as_u32(yv(*y)),
{
    match untag_ref(y) {
        Yaml::Number(JsonNumber::PosInt(n)) => if *n <= 0xffff_ffff {
            Some(*n as u32)
        } else {
            None
        },
        _ => None,
    }
}

fn text_error<T>(m: &str) -> (r: AppResult<T>)
    ensures
        r matches Err(e) && e.message@ == m@,
{
    Err(app_error_str(m))
}

/// The explicit capture format of the existing capture, if one is set.
fn existing_capture_format(cap: Option<&Vec<(Yaml, Yaml)>>) -> (r: AppResult<Option<String>>)
    ensures
        match capture_format(opt_entries(cap)) {
            Ok(f) => r matches Ok(x) && opt_view(x) == f,
            Err(m) => r matches Err(e) && e.message@ == m,
        },
{
    let m = match cap {
        Some(m) => m,
        None => {
            return Ok(None);
        },
    };
    let v = match entry(m, "format") {
        Some(v) => v,
        None => {
            return Ok(None);
        },
    };
    if null_value(v) {
        return Ok(None);
    }
    match text_of(v) {
        Some(s) => Ok(Some(s.to_string())),
        None => text_error("devices.capture.format must be a string"),
    }
}

/// The configured capture channel count of the existing capture, if set.
fn existing_capture_channels(cap: Option<&Vec<(Yaml, Yaml)>>) -> (r: AppResult<Option<u32>>)
    ensures
        match capture_channels(opt_entries(cap)) {
            Ok(c) => r == Ok::<Option<u32>, AppError>(c) || (r matches Ok(x) && x == c),
            Err(m) => r matches Err(e) && e.message@ == m,
        },
{
    let m = match cap {
        Some(m) => m,
        None => {
            return Ok(None);
        },
    };
    let v = match entry(m, "channels") {
        Some(v) => v,
        None => {
            return Ok(None);
        },
    };
    if null_value(v) {
        return Ok(None);
    }
    match yaml_u32(v) {
        Some(n) => Ok(Some(n)),
        None => text_error("devices.capture.channels is missing or invalid"),
    }
}

/// The capture channel count to run with.
fn resolve_capture_channels(cap: Option<&Vec<(Yaml, Yaml)>>, wave: &WaveFormat) -> (r: AppResult<u32>)
    ensures
        match channels_to_use(opt_entries(cap), wave@) {
            Ok(c) => r matches Ok(x) && x == c,
            Err(m) => r matches Err(e) && e.message@ == m,
        },
{
    let configured = existing_capture_channels(cap)?;
    match (configured, wave.channels) {
        (Some(c), Some(w)) => {
            if c != w {
                let mut s = "changing capture channels is not implemented (config=".to_string();
                push_decimal(&mut s, c as u64);
                s.append(", stream=");
                push_decimal(&mut s, w as u64);
                s.append(")");
                Err(app_error(s))
            } else {
                Ok(w)
            }
        },
        (None, Some(w)) => Ok(w),
        (Some(c), None) => Ok(c),
        (None, None) => Ok(2),
    }
}

/// The user's capture entries an aloop runtime capture keeps.
fn base_runtime_capture(cap: Option<&Vec<(Yaml, Yaml)>>) -> (r: Vec<(Yaml, Yaml)>)
    ensures
        yms(r@) == match opt_entries(cap) {
            Some(m) => kept_for_alsa(m),
            None => seq![],
        },
{
    let mut out: Vec<(Yaml, Yaml)> = Vec::new();
    let m = match cap {
        Some(m) => m,
        None => {
            proof {
                assert(yms(out@) =~= Seq::<(YVal, YVal)>::empty());
            }
            return out;
        },
    };
    let ghost mv = yms(m@);
    proof {
        lemma_yms(m@);
        assert(yms(out@) =~= Seq::<(YVal, YVal)>::empty());
        assert(mv.take(0) =~= Seq::<(YVal, YVal)>::empty());
    }
    let mut i: usize = 0;
    while i < m.len()
        invariant
            i <= m.len(),
            mv == yms(m@),
            mv.len() == m.len(),
            forall|j: int| 0 <= j < m.len() ==> #[trigger] mv[j] == (yv(m@[j].0), yv(m@[j].1)),
            yms(out@) == kept_for_alsa(mv.take(i as int)),
        decreases m.len() - i,
    {
        let keep = match text_of(&m[i].0) {
            Some(name) => !runtime_managed_capture_field(name),
            None => true,
        };
        proof {
            assert(mv.take(i as int + 1).drop_last() =~= mv.take(i as int));
            assert(mv.take(i as int + 1).last() == mv[i as int]);
        }
        if keep {
            let k = clone_yaml(&m[i].0);
            let v = clone_yaml(&m[i].1);
            let ghost before = out@;
            out.push((k, v));
            proof {
                lemma_yms(out@);
                lemma_yms(before);
                assert(yms(out@) =~= yms(before).push(mv[i as int]));
            }
        }
        i = i + 1;
    }
    proof {
        assert(mv.take(i as int) =~= mv);
    }
    out
}

/// The user's capture entries a `Stdin` capture keeps: only the fields valid
/// for a `Stdin` device, since CamillaDSP rejects unknown fields.
fn base_stdin_capture(cap: Option<&Vec<(Yaml, Yaml)>>) -> (r: Vec<(Yaml, Yaml)>)
    ensures
        yms(r@) == match opt_entries(cap) {
            Some(m) => kept_for_stdin(m),
            None => seq![],
        },
{
    let mut out: Vec<(Yaml, Yaml)> = Vec::new();
    let m = match cap {
        Some(m) => m,
        None => {
            proof {
                assert(yms(out@) =~= Seq::<(YVal, YVal)>::empty());
            }
            return out;
        },
    };
    let ghost mv = yms(m@);
    proof {
        lemma_yms(m@);
        assert(yms(out@) =~= Seq::<(YVal, YVal)>::empty());
        assert(mv.take(0) =~= Seq::<(YVal, YVal)>::empty());
    }
    let mut i: usize = 0;
    while i < m.len()
        invariant
            i <= m.len(),
            mv == yms(m@),
            mv.len() == m.len(),
            forall|j: int| 0 <= j < m.len() ==> #[trigger] mv[j] == (yv(m@[j].0), yv(m@[j].1)),
            yms(out@) == kept_for_stdin(mv.take(i as int)),
        decreases m.len() - i,
    {
        let keep = match text_of(&m[i].0) {
            Some(name) => stdin_capture_field(name),
            None => false,
        };
        proof {
            assert(mv.take(i as int + 1).drop_last() =~= mv.take(i as int));
            assert(mv.take(i as int + 1).last() == mv[i as int]);
        }
        if keep {
            let k = clone_yaml(&m[i].0);
            let v = clone_yaml(&m[i].1);
            let ghost before = out@;
            out.push((k, v));
            proof {
                lemma_yms(out@);
                lemma_yms(before);
                assert(yms(out@) =~= yms(before).push(mv[i as int]));
            }
        }
        i = i + 1;
    }
    proof {
        assert(mv.take(i as int) =~= mv);
    }
    out
}

/// The capture block for `backend`, built from the existing capture and the
/// stream format.
fn build_runtime_capture(cap: Option<&Vec<(Yaml, Yaml)>>, wave: &WaveFormat, backend: RuntimeBackend) -> (r:
    AppResult<Vec<(Yaml, Yaml)>>)
    ensures
        match runtime_capture(opt_entries(cap), wave@, backend) {
            Ok(c) => r matches Ok(x) && yms(x@) == c,
            Err(m) => r matches Err(e) && e.message@ == m,
        },
{
    let channels = resolve_capture_channels(cap, wave)?;
    let explicit = existing_capture_format(cap)?;
    let chosen = match &wave.sample_format {
        Some(f) => Some(f.clone()),
        None => explicit,
    };
    match backend {
        RuntimeBackend::Aloop => {
            let mut c = base_runtime_capture(cap);
            insert_str(&mut c, "type", Yaml::Str("Alsa".to_string()));
            insert_str(&mut c, "channels", Yaml::Number(JsonNumber::PosInt(channels as u64)));
            insert_str(&mut c, "device", Yaml::Str(ALOOP_CAPTURE_DEVICE.to_string()));
            insert_str(&mut c, "stop_on_inactive", Yaml::Bool(true));
            let format_was_explicit = match cap {
                Some(m) => match entry(m, "format") {
                    Some(v) => !null_value(v),
                    None => false,
                },
                None => false,
            };
            if format_was_explicit {
                match chosen {
                    Some(f) => insert_str(&mut c, "format", Yaml::Str(f)),
                    None => {},
                }
            }
            Ok(c)
        },
        RuntimeBackend::Ioplug => {
            let mut c = base_stdin_capture(cap);
            let f = match chosen {
                Some(f) => f,
                None => {
                    return text_error("ioplug runtime capture format is missing and no fallback is configured");
                },
            };
            insert_str(&mut c, "type", Yaml::Str("Stdin".to_string()));
            insert_str(&mut c, "channels", Yaml::Number(JsonNumber::PosInt(channels as u64)));
            insert_str(&mut c, "format", Yaml::Str(stdin_format(f)));
            Ok(c)
        },
    }
}

/// Apply the stream rate to the `devices` entries.
fn apply_rate(devices: &mut Vec<(Yaml, Yaml)>, rate: u32) -> (r: AppResult<()>)
    ensures
        match with_rate(yms(old(devices)@), rate) {
            Ok(d) => r is Ok && yms(final(devices)@) == d,
            Err(m) => r matches Err(e) && e.message@ == m,
        },
{
    let has_resampler = match entry(devices, "resampler") {
        Some(v) => !null_value(v),
        None => false,
    };
    if !has_resampler {
        insert_str(devices, "samplerate", Yaml::Number(JsonNumber::PosInt(rate as u64)));
        return Ok(());
    }
    let rtype: String = match entry(devices, "resampler") {
        Some(res) => match mapping_entries(res) {
            None => {
                return text_error("devices.resampler must be a YAML mapping");
            },
            Some(rm) => match entry(rm, "type") {
                Some(t) => match text_of(t) {
                    Some(s) => s.to_string(),
                    None => {
                        return text_error("devices.resampler.type must be a string");
                    },
                },
                None => {
                    return text_error("devices.resampler.type must be a string");
                },
            },
        },
        None => {
            return text_error("devices.resampler disappeared during adaptation");
        },
    };
    let configured = match entry(devices, "samplerate") {
        Some(v) => yaml_u32(v),
        None => None,
    };
    insert_str(devices, "capture_samplerate", Yaml::Number(JsonNumber::PosInt(rate as u64)));
    if str_eq(rtype.as_str(), "Synchronous") && configured == Some(rate) {
        insert_str(devices, "resampler", Yaml::Null);
    }
    Ok(())
}

/// Adapt a parsed CamillaDSP config to the stream `wave` for `backend`.
///
/// The stream rate goes to `devices.samplerate`, or with a resampler to
/// `devices.capture_samplerate`, switching off a synchronous resampler that
/// would run 1:1. The capture block is rebuilt for the backend from the
/// user's capture fields and the stream format. Nothing else changes.
pub fn adapt_document(root: Yaml, wave: &WaveFormat, backend: RuntimeBackend) -> (r: AppResult<Yaml>)
    ensures
        match adapted(yv(root), wave@, backend) {
            Ok(t) => r matches Ok(y) && yv(y) == t,
            Err(m) => r matches Err(e) && e.message@ == m,
        },
{
    let ghost rootv = yv(root);
    let (root_tags, root_inner) = take_tags(root);
    let mut rm = match root_inner {
        Yaml::Mapping(e) => e,
        _ => {
            return text_error("config root must be a YAML mapping");
        },
    };
    let ghost rmv = yms(rm@);
    let di = match find_key(&rm, "devices") {
        Some(i) => i,
        None => {
            return text_error("config has no 'devices' section");
        },
    };
    proof {
        lemma_dict_index_hit(rmv, key("devices"@));
        lemma_yms(rm@);
    }
    let (dk, dv) = rm.remove(di);
    let ghost dvv = yv(dv);
    let (dtags, dinner) = take_tags(dv);
    let mut dm = match dinner {
        Yaml::Mapping(e) => e,
        _ => {
            return text_error("devices must be a YAML mapping");
        },
    };
    match wave.sample_rate {
        Some(rate) => apply_rate(&mut dm, rate)?,
        None => {},
    }
    let ghost d2 = yms(dm@);
    let rc = {
        let cap = match entry(&dm, "capture") {
            None => None,
            Some(v) => match mapping_entries(v) {
                Some(m) => Some(m),
                None => {
                    return text_error("devices.capture must be a YAML mapping");
                },
            },
        };
        assert(capture_of(d2) == Ok::<Option<Seq<(YVal, YVal)>>, Seq<char>>(opt_entries(cap)));
        build_runtime_capture(cap, wave, backend)?
    };
    insert_str(&mut dm, "capture", Yaml::Mapping(rc));
    let new_dv = put_tags(dtags, Yaml::Mapping(dm));
    let ghost before = rm@;
    rm.insert(di, (dk, new_dv));
    proof {
        lemma_yms(rm@);
        assert(yms(rm@) =~= rmv.update(di as int, (key("devices"@), yv(new_dv))));
    }
    Ok(put_tags(root_tags, Yaml::Mapping(rm)))
}

// ─── Laws ──────────────────────────────────────────────────────────────────

proof fn lemma_untag_wrap(tags: Seq<Seq<char>>, inner: YVal)
    requires
        !(inner is Tagged),
    ensures
        untag(wrap_tags(tags, inner)) == inner,
    decreases tags.len(),
{
    if tags.len() > 0 {
        lemma_untag_wrap(tags.drop_first(), inner);
    }
}

/// The `devices` entries of a config, looking through tags.
pub open spec fn devices_of(root: YVal) -> Option<Seq<(YVal, YVal)>> {
    match as_dict(root) {
        Some(rm) => match dict_get(rm, key("devices"@)) {
            Some(dv) => as_dict(dv),
            None => None,
        },
        None => None,
    }
}

/// The entries of the capture block of a config.
pub open spec fn capture_entries(root: YVal) -> Option<Seq<(YVal, YVal)>> {
    match devices_of(root) {
        Some(dm) => match dict_get(dm, key("capture"@)) {
            Some(c) => as_dict(c),
            None => None,
        },
        None => None,
    }
}

proof fn lemma_adapted_shape(root: YVal, wave: WaveView, backend: RuntimeBackend)
    requires
        adapted(root, wave, backend) is Ok,
    ensures
        ({
            let t = adapted(root, wave, backend)->Ok_0;
            let rm = as_dict(root)->Some_0;
            let dv = dict_get(rm, key("devices"@))->Some_0;
            let dm = as_dict(dv)->Some_0;
            let d2 = match wave.sample_rate {
                Some(rate) => with_rate(dm, rate)->Ok_0,
                None => dm,
            };
            let rc = runtime_capture(capture_of(d2)->Ok_0, wave, backend)->Ok_0;
            let d3 = dict_insert(d2, key("capture"@), YVal::Dict(rc));
            &&& as_dict(t) == Some(dict_insert(rm, key("devices"@), retag(dv, YVal::Dict(d3))))
            &&& devices_of(t) == Some(d3)
        }),
{
    let t = adapted(root, wave, backend)->Ok_0;
    let rm = as_dict(root)->Some_0;
    let dv = dict_get(rm, key("devices"@))->Some_0;
    let dm = as_dict(dv)->Some_0;
    let d2 = match wave.sample_rate {
        Some(rate) => with_rate(dm, rate)->Ok_0,
        None => dm,
    };
    let rc = runtime_capture(capture_of(d2)->Ok_0, wave, backend)->Ok_0;
    let d3 = dict_insert(d2, key("capture"@), YVal::Dict(rc));
    let r2 = dict_insert(rm, key("devices"@), retag(dv, YVal::Dict(d3)));
    lemma_untag_wrap(tags_of(root), YVal::Dict(r2));
    lemma_untag_wrap(tags_of(dv), YVal::Dict(d3));
    lemma_dict_insert_get(rm, key("devices"@), retag(dv, YVal::Dict(d3)), key("devices"@));
}

/// Adapting a config leaves every top-level section other than `devices`
/// as it was: filters, mixers, pipeline, processors and the rest.
pub proof fn law_adaptation_keeps_other_sections(root: YVal, wave: WaveView, backend: RuntimeBackend, k: YVal)
    requires
        adapted(root, wave, backend) is Ok,
        k != key("devices"@),
    ensures
        dict_get(as_dict(adapted(root, wave, backend)->Ok_0)->Some_0, k) == dict_get(as_dict(root)->Some_0, k),
{
    lemma_adapted_shape(root, wave, backend);
    let rm = as_dict(root)->Some_0;
    let dv = dict_get(rm, key("devices"@))->Some_0;
    let t = adapted(root, wave, backend)->Ok_0;
    let r2 = as_dict(t)->Some_0;
    let nd = choose|x: YVal| r2 == dict_insert(rm, key("devices"@), x);
    lemma_dict_insert_get(rm, key("devices"@), nd, k);
}

/// Adapting a config leaves every `devices` field other than the rate
/// fields, the resampler and the capture block as it was (the playback
/// device among them).
pub proof fn law_adaptation_keeps_other_device_fields(root: YVal, wave: WaveView, backend: RuntimeBackend, k: YVal)
    requires
        adapted(root, wave, backend) is Ok,
        k != key("samplerate"@),
        k != key("capture_samplerate"@),
        k != key("resampler"@),
        k != key("capture"@),
    ensures
        dict_get(devices_of(adapted(root, wave, backend)->Ok_0)->Some_0, k) == dict_get(devices_of(root)->Some_0, k),
{
    lemma_adapted_shape(root, wave, backend);
    let rm = as_dict(root)->Some_0;
    let dv = dict_get(rm, key("devices"@))->Some_0;
    let dm = as_dict(dv)->Some_0;
    let d2 = match wave.sample_rate {
        Some(rate) => with_rate(dm, rate)->Ok_0,
        None => dm,
    };
    let rc = runtime_capture(capture_of(d2)->Ok_0, wave, backend)->Ok_0;
    lemma_dict_insert_get(d2, key("capture"@), YVal::Dict(rc), k);
    match wave.sample_rate {
        Some(rate) => {
            let res = dict_get(dm, key("resampler"@));
            let has_resampler = match res {
                Some(v) => !is_null(v),
                None => false,
            };
            if !has_resampler {
                lemma_dict_insert_get(dm, key("samplerate"@), uint(rate as u64), k);
            } else {
                let d = dict_insert(dm, key("capture_samplerate"@), uint(rate as u64));
                lemma_dict_insert_get(dm, key("capture_samplerate"@), uint(rate as u64), k);
                lemma_dict_insert_get(d, key("resampler"@), YVal::Null, k);
            }
        },
        None => {},
    }
}

/// An adapted config runs at the stream rate: the DSP rate without a
/// resampler, the capture rate with one.
pub proof fn law_adaptation_applies_stream_rate(root: YVal, wave: WaveView, backend: RuntimeBackend)
    requires
        adapted(root, wave, backend) is Ok,
        wave.sample_rate is Some,
    ensures
        ({
            let rate = wave.sample_rate->Some_0;
            let before = devices_of(root)->Some_0;
            let after = devices_of(adapted(root, wave, backend)->Ok_0)->Some_0;
            let resampled = match dict_get(before, key("resampler"@)) {
                Some(v) => !is_null(v),
                None => false,
            };
            if resampled {
                dict_get(after, key("capture_samplerate"@)) == Some(uint(rate as u64))
            } else {
                dict_get(after, key("samplerate"@)) == Some(uint(rate as u64))
            }
        }),
{
    lemma_adapted_shape(root, wave, backend);
    reveal_strlit("capture");
    reveal_strlit("capture_samplerate");
    reveal_strlit("samplerate");
    reveal_strlit("resampler");
    let rate = wave.sample_rate->Some_0;
    let dm = devices_of(root)->Some_0;
    let d2 = with_rate(dm, rate)->Ok_0;
    let rc = runtime_capture(capture_of(d2)->Ok_0, wave, backend)->Ok_0;
    let resampled = match dict_get(dm, key("resampler"@)) {
        Some(v) => !is_null(v),
        None => false,
    };
    assert("capture"@.len() == 7);
    assert("capture_samplerate"@.len() == 18);
    assert("samplerate"@.len() == 10);
    assert("resampler"@.len() == 9);
    assert(key("capture"@) != key("capture_samplerate"@));
    assert(key("capture"@) != key("samplerate"@));
    assert(key("resampler"@) != key("capture_samplerate"@));
    let after = devices_of(adapted(root, wave, backend)->Ok_0)->Some_0;
    assert(after == dict_insert(d2, key("capture"@), YVal::Dict(rc)));
    if resampled {
        let d = dict_insert(dm, key("capture_samplerate"@), uint(rate as u64));
        lemma_dict_insert_get(dm, key("capture_samplerate"@), uint(rate as u64), key("capture_samplerate"@));
        lemma_dict_insert_get(d, key("resampler"@), YVal::Null, key("capture_samplerate"@));
        lemma_dict_insert_get(d2, key("capture"@), YVal::Dict(rc), key("capture_samplerate"@));
        assert(d2 == d || d2 == dict_insert(d, key("resampler"@), YVal::Null));
        assert(dict_get(d2, key("capture_samplerate"@)) == Some(uint(rate as u64)));
    } else {
        lemma_dict_insert_get(dm, key("samplerate"@), uint(rate as u64), key("samplerate"@));
        lemma_dict_insert_get(d2, key("capture"@), YVal::Dict(rc), key("samplerate"@));
    }
}

/// The `Synchronous` resampler of a config with a resampler entry `res`:
/// an entry that is a mapping whose `type` is the text `Synchronous`.
pub open spec fn synchronous_resampler(res: Option<YVal>) -> bool {
    &&& res matches Some(r)
    &&& as_dict(r) matches Some(rm)
    &&& dict_get(rm, key("type"@)) matches Some(t)
    &&& as_text(t) == Some("Synchronous"@)
}

/// An adapted config drops its resampler only where it is no longer
/// needed: the resampler is `Synchronous` and the configured DSP rate
/// already equals the stream rate. Then the entry is set to null; in every
/// other case the resampler entry is left exactly as it was (a needed
/// resampler, say 44.1 kHz to 48 kHz, is kept).
pub proof fn law_adaptation_keeps_needed_resampler(root: YVal, wave: WaveView, backend: RuntimeBackend)
    requires
        adapted(root, wave, backend) is Ok,
        wave.sample_rate is Some,
    ensures
        ({
            let rate = wave.sample_rate->Some_0;
            let before = devices_of(root)->Some_0;
            let after = devices_of(adapted(root, wave, backend)->Ok_0)->Some_0;
            let res = dict_get(before, key("resampler"@));
            let configured = match dict_get(before, key("samplerate"@)) {
                Some(v) => as_u32(v),
                None => None,
            };
            if synchronous_resampler(res) && configured == Some(rate) {
                dict_get(after, key("resampler"@)) == Some(YVal::Null)
            } else {
                dict_get(after, key("resampler"@)) == res
            }
        }),
{
    lemma_adapted_shape(root, wave, backend);
    reveal_strlit("capture");
    reveal_strlit("capture_samplerate");
    reveal_strlit("samplerate");
    reveal_strlit("resampler");
    let rate = wave.sample_rate->Some_0;
    let dm = devices_of(root)->Some_0;
    let d2 = with_rate(dm, rate)->Ok_0;
    let rc = runtime_capture(capture_of(d2)->Ok_0, wave, backend)->Ok_0;
    assert("capture"@.len() == 7);
    assert("capture_samplerate"@.len() == 18);
    assert("samplerate"@.len() == 10);
    assert("resampler"@.len() == 9);
    assert(key("capture"@) != key("resampler"@));
    assert(key("samplerate"@) != key("resampler"@));
    assert(key("capture_samplerate"@) != key("resampler"@));
    let after = devices_of(adapted(root, wave, backend)->Ok_0)->Some_0;
    assert(after == dict_insert(d2, key("capture"@), YVal::Dict(rc)));
    lemma_dict_insert_get(d2, key("capture"@), YVal::Dict(rc), key("resampler"@));
    let res = dict_get(dm, key("resampler"@));
    let present = match res {
        Some(v) => !is_null(v),
        None => false,
    };
    if !present {
        lemma_dict_insert_get(dm, key("samplerate"@), uint(rate as u64), key("resampler"@));
        if res is Some {
            assert(untag(res->Some_0) is Null);
        }
    } else {
        let d = dict_insert(dm, key("capture_samplerate"@), uint(rate as u64));
        lemma_dict_insert_get(dm, key("capture_samplerate"@), uint(rate as u64), key("resampler"@));
        lemma_dict_insert_get(d, key("resampler"@), YVal::Null, key("resampler"@));
    }
}

/// For the aloop backend the adapted capture is the ALSA loopback device
/// with `stop_on_inactive` set; for the ioplug backend it reads `Stdin`
/// with an explicit format: the stream's format, under its `Stdin` name.
pub proof fn law_adaptation_sets_backend_capture(root: YVal, wave: WaveView, backend: RuntimeBackend)
    requires
        adapted(root, wave, backend) is Ok,
    ensures
        ({
            let cap = capture_entries(adapted(root, wave, backend)->Ok_0)->Some_0;
            match backend {
                RuntimeBackend::Aloop => {
                    &&& dict_get(cap, key("type"@)) == Some(YVal::Str("Alsa"@))
                    &&& dict_get(cap, key("device"@)) == Some(YVal::Str(ALOOP_CAPTURE_DEVICE@))
                    &&& dict_get(cap, key("stop_on_inactive"@)) == Some(YVal::Bool(true))
                },
                RuntimeBackend::Ioplug => {
                    &&& dict_get(cap, key("type"@)) == Some(YVal::Str("Stdin"@))
                    &&& dict_get(cap, key("format"@)) matches Some(YVal::Str(_))
                    &&& wave.sample_format matches Some(f) ==> dict_get(cap, key("format"@)) == Some(
                        YVal::Str(stdin_format_name(f)),
                    )
                },
            }
        }),
{
    lemma_adapted_shape(root, wave, backend);
    reveal_strlit("type");
    reveal_strlit("channels");
    reveal_strlit("device");
    reveal_strlit("stop_on_inactive");
    reveal_strlit("format");
    assert("type"@.len() == 4);
    assert("channels"@.len() == 8);
    assert("device"@.len() == 6 && "device"@[0] == 'd');
    assert("stop_on_inactive"@.len() == 16);
    assert("format"@.len() == 6 && "format"@[0] == 'f');
    let dm = devices_of(root)->Some_0;
    let d2 = match wave.sample_rate {
        Some(rate) => with_rate(dm, rate)->Ok_0,
        None => dm,
    };
    let cap0 = capture_of(d2)->Ok_0;
    let rc = runtime_capture(cap0, wave, backend)->Ok_0;
    lemma_dict_insert_get(d2, key("capture"@), YVal::Dict(rc), key("capture"@));
    assert(capture_entries(adapted(root, wave, backend)->Ok_0) == Some(rc));
    let channels = channels_to_use(cap0, wave)->Ok_0;
    let explicit = capture_format(cap0)->Ok_0;
    let chosen = match wave.sample_format {
        Some(f) => Some(f),
        None => explicit,
    };
    match backend {
        RuntimeBackend::Aloop => {
            let base = match cap0 {
                Some(m) => kept_for_alsa(m),
                None => seq![],
            };
            let c1 = dict_insert(base, key("type"@), YVal::Str("Alsa"@));
            let c2 = dict_insert(c1, key("channels"@), uint(channels as u64));
            let c3 = dict_insert(c2, key("device"@), YVal::Str(ALOOP_CAPTURE_DEVICE@));
            let c4 = dict_insert(c3, key("stop_on_inactive"@), YVal::Bool(true));
            lemma_dict_insert_get(base, key("type"@), YVal::Str("Alsa"@), key("type"@));
            lemma_dict_insert_get(c1, key("channels"@), uint(channels as u64), key("type"@));
            lemma_dict_insert_get(c2, key("device"@), YVal::Str(ALOOP_CAPTURE_DEVICE@), key("type"@));
            lemma_dict_insert_get(c3, key("stop_on_inactive"@), YVal::Bool(true), key("type"@));
            lemma_dict_insert_get(c2, key("device"@), YVal::Str(ALOOP_CAPTURE_DEVICE@), key("device"@));
            lemma_dict_insert_get(c3, key("stop_on_inactive"@), YVal::Bool(true), key("device"@));
            lemma_dict_insert_get(c3, key("stop_on_inactive"@), YVal::Bool(true), key("stop_on_inactive"@));
            if rc != c4 {
                let f = chosen->Some_0;
                lemma_dict_insert_get(c4, key("format"@), YVal::Str(f), key("type"@));
                lemma_dict_insert_get(c4, key("format"@), YVal::Str(f), key("device"@));
                lemma_dict_insert_get(c4, key("format"@), YVal::Str(f), key("stop_on_inactive"@));
            }
        },
        RuntimeBackend::Ioplug => {
            let base = match cap0 {
                Some(m) => kept_for_stdin(m),
                None => seq![],
            };
            let f = chosen->Some_0;
            let c1 = dict_insert(base, key("type"@), YVal::Str("Stdin"@));
            let c2 = dict_insert(c1, key("channels"@), uint(channels as u64));
            lemma_dict_insert_get(base, key("type"@), YVal::Str("Stdin"@), key("type"@));
            lemma_dict_insert_get(c1, key("channels"@), uint(channels as u64), key("type"@));
            lemma_dict_insert_get(c2, key("format"@), YVal::Str(stdin_format_name(f)), key("type"@));
            lemma_dict_insert_get(c2, key("format"@), YVal::Str(stdin_format_name(f)), key("format"@));
        },
    }
}

// ─── Coefficient files ─────────────────────────────────────────────────────

/// The coefficient file of a filter definition: the `parameters.filename`
/// string of a `Conv` filter whose parameters are of type `Raw` or `Wav`.
pub open spec fn coefficient_file(f: YVal) -> Option<Seq<char>> {
    match as_dict(f) {
        None => None,
        Some(fm) => if (match dict_get(fm, key("type"@)) {
            Some(t) => as_text(t) == Some("Conv"@),
            None => false,
        }) {
            match dict_get(fm, key("parameters"@)) {
                Some(pv) => match as_dict(pv) {
                    Some(pm) => if (match dict_get(pm, key("type"@)) {
                        Some(t) => as_text(t) == Some("Raw"@) || as_text(t) == Some("Wav"@),
                        None => false,
                    }) {
                        match dict_get(pm, key("filename"@)) {
                            Some(n) => as_text(n),
                            None => None,
                        }
                    } else {
                        None
                    },
                    None => None,
                },
                None => None,
            }
        } else {
            None
        },
    }
}

/// The coefficient files of the filter entries `fs`, with their positions.
pub open spec fn coefficient_files(fs: Seq<(YVal, YVal)>) -> Seq<(int, Seq<char>)>
    decreases fs.len(),
{
    if fs.len() == 0 {
        seq![]
    } else {
        let before = coefficient_files(fs.drop_last());
        match coefficient_file(fs.last().1) {
            Some(n) => before.push(((fs.len() - 1) as int, n)),
            None => before,
        }
    }
}

/// The filter entries of a config, if it has a `filters` mapping.
pub open spec fn filters_of(root: YVal) -> Option<Seq<(YVal, YVal)>> {
    match as_dict(root) {
        Some(rm) => match dict_get(rm, key("filters"@)) {
            Some(fv) => as_dict(fv),
            None => None,
        },
        None => None,
    }
}

fn coefficient_file_of(f: &Yaml) -> (r: Option<String>)
    ensures
        opt_view(r) == coefficient_file(yv(*f)),
{
    let fm = match mapping_entries(f) {
        Some(m) => m,
        None => {
            return None;
        },
    };
    let is_conv = match entry(fm, "type") {
        Some(t) => match text_of(t) {
            Some(s) => str_eq(s, "Conv"),
            None => false,
        },
        None => false,
    };
    if !is_conv {
        return None;
    }
    let pm = match entry(fm, "parameters") {
        Some(pv) => match mapping_entries(pv) {
            Some(pm) => pm,
            None => {
                return None;
            },
        },
        None => {
            return None;
        },
    };
    let file_based = match entry(pm, "type") {
        Some(t) => match text_of(t) {
            Some(s) => str_eq(s, "Raw") || str_eq(s, "Wav"),
            None => false,
        },
        None => false,
    };
    if !file_based {
        return None;
    }
    match entry(pm, "filename") {
        Some(n) => match text_of(n) {
            Some(s) => Some(s.to_string()),
            None => None,
        },
        None => None,
    }
}

/// The coefficient files named in a config's filters, each with the
/// position of its filter among the filters. These are the names a
/// `SetConfig` sender must make absolute, as CamillaGUI does.
pub fn conv_coefficient_files(root: &Yaml) -> (r: Vec<(usize, String)>)
    ensures
        r@.map_values(|e: (usize, String)| (e.0 as int, e.1@)) == match filters_of(yv(*root)) {
            Some(fs) => coefficient_files(fs),
            None => seq![],
        },
{
    let mut out: Vec<(usize, String)> = Vec::new();
    let fs = match mapping_entries(untag_ref(root)) {
        Some(rm) => match entry(rm, "filters") {
            Some(fv) => mapping_entries(fv),
            None => None,
        },
        None => None,
    };
    proof {
        assert(untag(untag(yv(*root))) == untag(yv(*root))) by {
            lemma_untag_idem(yv(*root));
        }
    }
    let fs = match fs {
        Some(fs) => fs,
        None => {
            proof {
                assert(out@.map_values(|e: (usize, String)| (e.0 as int, e.1@)) =~= Seq::<(int, Seq<char>)>::empty());
            }
            return out;
        },
    };
    let ghost fv = yms(fs@);
    proof {
        lemma_yms(fs@);
        assert(fv.take(0) =~= Seq::<(YVal, YVal)>::empty());
        assert(out@.map_values(|e: (usize, String)| (e.0 as int, e.1@)) =~= Seq::<(int, Seq<char>)>::empty());
    }
    let mut i: usize = 0;
    while i < fs.len()
        invariant
            i <= fs.len(),
            fv == yms(fs@),
            fv.len() == fs.len(),
            forall|j: int| 0 <= j < fs.len() ==> #[trigger] fv[j] == (yv(fs@[j].0), yv(fs@[j].1)),
            out@.map_values(|e: (usize, String)| (e.0 as int, e.1@)) == coefficient_files(fv.take(i as int)),
        decreases fs.len() - i,
    {
        let found = coefficient_file_of(&fs[i].1);
        proof {
            assert(fv.take(i as int + 1).drop_last() =~= fv.take(i as int));
            assert(fv.take(i as int + 1).last() == fv[i as int]);
        }
        match found {
            Some(name) => {
                let ghost before = out@;
                out.push((i, name));
                proof {
                    assert(out@.map_values(|e: (usize, String)| (e.0 as int, e.1@)) =~= before.map_values(
                        |e: (usize, String)| (e.0 as int, e.1@),
                    ).push((i as int, name@)));
                }
            },
            None => {},
        }
        i = i + 1;
    }
    proof {
        assert(fv.take(i as int) =~= fv);
    }
    out
}

proof fn lemma_untag_idem(v: YVal)
    ensures
        untag(untag(v)) == untag(v),
        !(untag(v) is Tagged),
    decreases v,
{
    match v {
        YVal::Tagged(_, b) => lemma_untag_idem(*b),
        _ => {},
    }
}

proof fn lemma_wrap_untag(v: YVal)
    ensures
        wrap_tags(tags_of(v), untag(v)) == v,
    decreases v,
{
    match v {
        YVal::Tagged(t, b) => {
            lemma_wrap_untag(*b);
            assert((seq![t] + tags_of(*b)).drop_first() =~= tags_of(*b));
        },
        _ => {},
    }
}

/// One step into a nested mapping: a key, or an entry position.
pub enum PathStep {
    Key(String),
    Index(usize),
}

/// The mathematical value of a [`PathStep`].
pub enum StepV {
    Key(Seq<char>),
    Index(int),
}

/// The views of a list of steps.
pub open spec fn steps_view(s: Seq<PathStep>) -> Seq<StepV> {
    s.map_values(
        |x: PathStep|
            match x {
                PathStep::Key(k) => StepV::Key(k@),
                PathStep::Index(i) => StepV::Index(i as int),
            },
    )
}

/// The entry position a step selects in the mapping `m`, if any.
pub open spec fn step_position(m: Seq<(YVal, YVal)>, s: StepV) -> Option<int> {
    match s {
        StepV::Key(k) => dict_index(m, key(k)),
        StepV::Index(i) => if 0 <= i < m.len() {
            Some(i)
        } else {
            None
        },
    }
}

/// `v` with the value the steps lead to replaced by `new`; `v` itself
/// where a step finds no mapping or no entry. Tags on the way are kept.
pub open spec fn replaced_at(v: YVal, steps: Seq<StepV>, new: YVal) -> YVal
    decreases steps.len(),
{
    if steps.len() == 0 {
        new
    } else {
        match as_dict(v) {
            None => v,
            Some(m) => match step_position(m, steps[0]) {
                None => v,
                Some(p) => if 0 <= p < m.len() {
                    retag(v, YVal::Dict(m.update(p, (m[p].0, replaced_at(m[p].1, steps.drop_first(), new)))))
                } else {
                    v
                },
            },
        }
    }
}

fn replace_at(y: Yaml, steps: &Vec<PathStep>, k: usize, new: Yaml) -> (r: Yaml)
    requires
        k <= steps.len(),
    ensures
        yv(r) == replaced_at(yv(y), steps_view(steps@).skip(k as int), yv(new)),
    decreases steps.len() - k,
{
    let ghost sv = steps_view(steps@).skip(k as int);
    if k == steps.len() {
        proof {
            assert(sv.len() == 0);
        }
        return new;
    }
    proof {
        assert(sv[0] == steps_view(steps@)[k as int]);
        assert(sv.drop_first() =~= steps_view(steps@).skip(k as int + 1));
        lemma_wrap_untag(yv(y));
    }
    let ghost yval = yv(y);
    let (tags, inner) = take_tags(y);
    match inner {
        Yaml::Mapping(mut m) => {
            let ghost mv = yms(m@);
            proof {
                lemma_yms(m@);
            }
            let pos = match &steps[k] {
                PathStep::Key(name) => {
                    let found = find_key(&m, name.as_str());
                    proof {
                        lemma_dict_index_hit(mv, key(name@));
                    }
                    found
                },
                PathStep::Index(i) => if *i < m.len() {
                    Some(*i)
                } else {
                    None
                },
            };
            match pos {
                None => put_tags(tags, Yaml::Mapping(m)),
                Some(p) => {
                    let (ek, child) = m.remove(p);
                    let c2 = replace_at(child, steps, k + 1, new);
                    let ghost c2v = yv(c2);
                    m.insert(p, (ek, c2));
                    proof {
                        lemma_yms(m@);
                        assert(yms(m@) =~= mv.update(p as int, (mv[p as int].0, c2v)));
                    }
                    put_tags(tags, Yaml::Mapping(m))
                },
            }
        },
        other => put_tags(tags, other),
    }
}

/// The filter at position `index` with its coefficient file name replaced
/// by `name`, as a `SetConfig` sender does after making it absolute; the
/// config itself where that filter has no such entry.
pub fn with_coefficient_file(root: Yaml, index: usize, name: String) -> (r: Yaml)
    ensures
        yv(r) == replaced_at(
            yv(root),
            seq![
                StepV::Key("filters"@),
                StepV::Index(index as int),
                StepV::Key("parameters"@),
                StepV::Key("filename"@),
            ],
            YVal::Str(name@),
        ),
{
    let mut steps: Vec<PathStep> = Vec::new();
    steps.push(PathStep::Key("filters".to_string()));
    steps.push(PathStep::Index(index));
    steps.push(PathStep::Key("parameters".to_string()));
    steps.push(PathStep::Key("filename".to_string()));
    proof {
        assert(steps_view(steps@).skip(0) =~= seq![
            StepV::Key("filters"@),
            StepV::Index(index as int),
            StepV::Key("parameters"@),
            StepV::Key("filename"@),
        ]);
    }
    replace_at(root, &steps, 0, Yaml::Str(name))
}

// ─── Installer helpers ─────────────────────────────────────────────────────

/// The member `k` of a mapping, looking through tags (`Value::get`).
pub open spec fn member_of(v: YVal, k: Seq<char>) -> Option<YVal> {
    match as_dict(v) {
        Some(m) => dict_get(m, key(k)),
        None => None,
    }
}

/// The text of a member, if it is a string.
pub open spec fn text_member(v: Option<YVal>, k: Seq<char>) -> Option<Seq<char>> {
    match v {
        Some(x) => match member_of(x, k) {
            Some(t) => as_text(t),
            None => None,
        },
        None => None,
    }
}

fn member<'a>(v: &'a Yaml, name: &str) -> (r: Option<&'a Yaml>)
    ensures
        match r {
            Some(x) => member_of(yv(*v), name@) == Some(yv(*x)),
            None => member_of(yv(*v), name@) is None,
        },
{
    match mapping_entries(v) {
        Some(m) => entry(m, name),
        None => None,
    }
}

/// The `config_path` a CamillaDSP statefile records.
pub fn config_path_of(root: &Yaml) -> (r: AppResult<String>)
    ensures
        match text_member(Some(yv(*root)), "config_path"@) {
            Some(p) => r matches Ok(x) && x@ == p,
            None => r matches Err(e) && e.message@ == "statefile has no 'config_path' value"@,
        },
{
    match member(root, "config_path") {
        Some(v) => match text_of(v) {
            Some(s) => {
                return Ok(s.to_string());
            },
            None => {},
        },
        None => {},
    }
    text_error("statefile has no 'config_path' value")
}

/// The `devices.playback.device` of a CamillaDSP config.
pub fn playback_device_of(root: &Yaml) -> (r: AppResult<String>)
    ensures
        match text_member(
            match member_of(yv(*root), "devices"@) {
                Some(d) => member_of(d, "playback"@),
                None => None,
            },
            "device"@,
        ) {
            Some(p) => r matches Ok(x) && x@ == p,
            None => r matches Err(e) && e.message@ == "config has no 'devices.playback.device' value"@,
        },
{
    match member(root, "devices") {
        Some(d) => match member(d, "playback") {
            Some(p) => match member(p, "device") {
                Some(v) => match text_of(v) {
                    Some(s) => {
                        return Ok(s.to_string());
                    },
                    None => {},
                },
                None => {},
            },
            None => {},
        },
        None => {},
    }
    text_error("config has no 'devices.playback.device' value")
}

/// How many channels a CamillaDSP statefile records mute and volume for.
pub const CAMILLA_STATE_CHANNELS: usize = 5;

/// The items of a sequence, looking through tags.
pub open spec fn as_list(v: YVal) -> Option<Seq<YVal>> {
    match untag(v) {
        YVal::List(s) => Some(s),
        _ => None,
    }
}

/// A boolean, looking through tags.
pub open spec fn as_flag(v: YVal) -> Option<bool> {
    match untag(v) {
        YVal::Bool(b) => Some(b),
        _ => None,
    }
}

/// The statefile sequence `k`: present, a sequence, and one item per channel.
pub open spec fn state_sequence(root: YVal, k: Seq<char>) -> Result<Seq<YVal>, Seq<char>> {
    match member_of(root, k) {
        Some(v) => match as_list(v) {
            Some(s) => if s.len() == CAMILLA_STATE_CHANNELS {
                Ok(s)
            } else {
                Err("statefile '"@ + k + "' must contain exactly 5 values"@)
            },
            None => Err("statefile has no '"@ + k + "' sequence"@),
        },
        None => Err("statefile has no '"@ + k + "' sequence"@),
    }
}

/// `i` is the first item of `s` that is not a boolean.
pub open spec fn first_non_flag(s: Seq<YVal>, i: int) -> bool {
    &&& 0 <= i < s.len()
    &&& as_flag(s[i]) is None
    &&& forall|j: int| 0 <= j < i ==> #[trigger] as_flag(s[j]) is Some
}

/// The validated `mute` block of a statefile: its five flags, untagged, or
/// the error naming the first item (counted from one) that is no boolean.
pub open spec fn mute_block_of(root: YVal) -> Result<YVal, Seq<char>> {
    match state_sequence(root, "mute"@) {
        Err(m) => Err(m),
        Ok(s) => if exists|i: int| first_non_flag(s, i) {
            let i = choose|i: int| first_non_flag(s, i);
            Err("statefile 'mute["@ + dec_string((i + 1) as nat) + "]' must be a boolean"@)
        } else {
            Ok(YVal::List(Seq::new(s.len(), |j: int| YVal::Bool(as_flag(s[j])->0))))
        },
    }
}

fn items_of(y: &Yaml) -> (r: Option<&Vec<Yaml>>)
    ensures
        match r {
            Some(v) => as_list(yv(*y)) == Some(yvs(v@)),
            None => as_list(yv(*y)) is None,
        },
{
    match untag_ref(y) {
        Yaml::Sequence(items) => Some(items),
        _ => None,
    }
}

fn sequence_error(k: &str, tail: &str) -> (e: AppError)
    ensures
        e.message@ == "statefile '"@ + k@ + tail@,
{
    app_error(concat3("statefile '", k, tail))
}

/// The statefile sequence `k`, checked to hold one item per channel.
pub fn state_sequence_of<'a>(root: &'a Yaml, k: &str) -> (r: AppResult<&'a Vec<Yaml>>)
    ensures
        match state_sequence(yv(*root), k@) {
            Ok(s) => r matches Ok(v) && yvs(v@) == s,
            Err(m) => r matches Err(e) && e.message@ == m,
        },
{
    let missing = concat3("statefile has no '", k, "' sequence");
    match member(root, k) {
        Some(v) => match items_of(v) {
            Some(items) => {
                proof {
                    lemma_yvs(items@);
                }
                if items.len() == CAMILLA_STATE_CHANNELS {
                    Ok(items)
                } else {
                    Err(sequence_error(k, "' must contain exactly 5 values"))
                }
            },
            None => Err(app_error(missing)),
        },
        None => Err(app_error(missing)),
    }
}

/// Validate the `mute` block of a CamillaDSP statefile.
pub fn mute_block(root: &Yaml) -> (r: AppResult<Yaml>)
    ensures
        match mute_block_of(yv(*root)) {
            Ok(v) => r matches Ok(y) && yv(y) == v,
            Err(m) => r matches Err(e) && e.message@ == m,
        },
{
    let items = state_sequence_of(root, "mute")?;
    let ghost s = yvs(items@);
    proof {
        lemma_yvs(items@);
    }
    let mut out: Vec<Yaml> = Vec::new();
    let mut i: usize = 0;
    while i < items.len()
        invariant
            state_sequence(yv(*root), "mute"@) == Ok::<Seq<YVal>, Seq<char>>(s),
            s == yvs(items@),
            s.len() == items.len(),
            i <= items.len(),
            out.len() == i,
            forall|k: int| 0 <= k < items.len() ==> #[trigger] s[k] == yv(items@[k]),
            forall|j: int| 0 <= j < i ==> #[trigger] as_flag(s[j]) is Some,
            forall|j: int| 0 <= j < i ==> yv(#[trigger] out@[j]) == YVal::Bool(as_flag(s[j])->0),
        decreases items.len() - i,
    {
        match untag_ref(&items[i]) {
            Yaml::Bool(b) => {
                out.push(Yaml::Bool(*b));
            },
            _ => {
                proof {
                    assert(first_non_flag(s, i as int));
                    let c = choose|c: int| first_non_flag(s, c);
                    if c < i {
                        assert(as_flag(s[c]) is Some);
                    }
                    if c > i {
                        assert(as_flag(s[i as int]) is Some);
                    }
                    assert(c == i);
                }
                let mut m = "statefile 'mute[".to_string();
                push_decimal(&mut m, (i + 1) as u64);
                m.append("]' must be a boolean");
                return Err(app_error(m));
            },
        }
        i = i + 1;
    }
    proof {
        lemma_yvs(out@);
        assert(!exists|c: int| first_non_flag(s, c));
        assert(yvs(out@) =~= Seq::new(s.len(), |j: int| YVal::Bool(as_flag(s[j])->0)));
    }
    Ok(Yaml::Sequence(out))
}

/// The text of the bypass config's description before the playback device.
pub open spec fn bypass_description_head() -> Seq<char> {
    "IMPORTANT: This description is longer than the visible CamillaGUI field.\nScroll down and read it completely before changing or applying this config.\n\nDefault piCoreDSP pass-through baseline configuration.\n\nThis YAML file is the persistent baseline configuration. It does not\nnecessarily contain the parameters currently used by CamillaDSP.\n\nAudio is captured from snd-aloop and played to the piCorePlayer output\nthat was selected before installation: "@
}

/// The text of the bypass config's description after the playback device.
pub open spec fn bypass_description_tail() -> Seq<char> {
    "\n\npiCoreDSP builds on the upstream camilladsp-controller snd-aloop adaptation\nmodel, but replaces its Python runtime with the native Rust\npicoredsp-controller and adds piCorePlayer-specific persistence,\nactive-config reloading and startup/rate-switch handling.\n\nWhen playback becomes active, picoredsp-controller reads the live stream\nparameters from snd-aloop and adapts the CamillaDSP configuration in memory\nto the current sample rate and, where applicable, capture format and channel\ncount.\n\nTherefore values shown in this YAML or in the CamillaGUI config editor,\nsuch as samplerate: 44100, may differ from the live values shown in\nCamillaGUI's status area. The live status values are authoritative for the\nstream currently playing.\n\nRuntime-adapted values are not written back to this file.\n\nSave DSP/filter changes in CamillaGUI if they must survive a sample-rate or\nformat change or a reboot. Prefer \"Apply and Save\" for persistent changes.\n\nOn piCorePlayer, run \"pcp backup\" after persistent configuration changes and\nbefore rebooting, so the current system configuration is backed up.\n\nDo not manually Apply a configuration merely to initialize DSP while\nplayback is stopped. The controller automatically loads and adapts the\nconfiguration when playback becomes active.\n"@
}

/// The piCoreDSP bypass config for `device`: a pass-through from the
/// loopback capture to that playback device at 44.1 kHz, with a
/// description that explains the runtime adaptation.
pub open spec fn bypass_tree(device: Seq<char>) -> YVal {
    let capture = YVal::Dict(
        seq![
            (key("type"@), YVal::Str("Alsa"@)),
            (key("channels"@), uint(2)),
            (key("device"@), YVal::Str("hw:Loopback,0,0"@)),
            (key("stop_on_inactive"@), YVal::Bool(true)),
        ],
    );
    let playback = YVal::Dict(
        seq![
            (key("type"@), YVal::Str("Alsa"@)),
            (key("channels"@), uint(2)),
            (key("device"@), YVal::Str(device)),
        ],
    );
    let devices = YVal::Dict(
        seq![
            (key("samplerate"@), uint(44100)),
            (key("chunksize"@), uint(2048)),
            (key("queuelimit"@), uint(4)),
            (key("enable_rate_adjust"@), YVal::Bool(true)),
            (key("capture"@), capture),
            (key("playback"@), playback),
        ],
    );
    YVal::Dict(
        seq![
            (key("devices"@), devices),
            (key("filters"@), YVal::Dict(seq![])),
            (key("mixers"@), YVal::Dict(seq![])),
            (key("pipeline"@), YVal::List(seq![])),
            (key("processors"@), YVal::Dict(seq![])),
            (key("title"@), YVal::Str("Bypass"@)),
            (key("description"@), YVal::Str(bypass_description_head() + device + bypass_description_tail())),
        ],
    )
}

/// The bypass config plays to the device it was made for: reading its
/// `devices.playback.device` gives that device back.
pub proof fn law_bypass_config_plays_to_its_device(device: Seq<char>)
    ensures
        text_member(
            match member_of(bypass_tree(device), "devices"@) {
                Some(d) => member_of(d, "playback"@),
                None => None,
            },
            "device"@,
        ) == Some(device),
{
    reveal_strlit("devices");
    reveal_strlit("playback");
    reveal_strlit("device");
    reveal_strlit("samplerate");
    reveal_strlit("chunksize");
    reveal_strlit("queuelimit");
    reveal_strlit("enable_rate_adjust");
    reveal_strlit("capture");
    reveal_strlit("type");
    reveal_strlit("channels");
    let top = as_dict(bypass_tree(device))->0;
    lemma_dict_index(top, key("devices"@), 0);
    let devices = top[0].1;
    let dm = as_dict(devices)->0;
    assert(dm[0].0 != key("playback"@)) by {
        assert("samplerate"@.len() != "playback"@.len());
    }
    assert(dm[1].0 != key("playback"@)) by {
        assert("chunksize"@.len() != "playback"@.len());
    }
    assert(dm[2].0 != key("playback"@)) by {
        assert("queuelimit"@.len() != "playback"@.len());
    }
    assert(dm[3].0 != key("playback"@)) by {
        assert("enable_rate_adjust"@.len() != "playback"@.len());
    }
    assert(dm[4].0 != key("playback"@)) by {
        assert("capture"@.len() != "playback"@.len());
    }
    lemma_dict_index(dm, key("playback"@), 5);
    let pm = as_dict(dm[5].1)->0;
    assert(pm[0].0 != key("device"@)) by {
        assert("type"@.len() != "device"@.len());
    }
    assert(pm[1].0 != key("device"@)) by {
        assert("channels"@.len() != "device"@.len());
    }
    lemma_dict_index(pm, key("device"@), 2);
}

fn kv(k: &str, v: Yaml) -> (r: (Yaml, Yaml))
    ensures
        yv(r.0) == key(k@),
        yv(r.1) == yv(v),
{
    (Yaml::Str(k.to_string()), v)
}

fn num(n: u64) -> (r: Yaml)
    ensures
        yv(r) == uint(n),
{
    Yaml::Number(JsonNumber::PosInt(n))
}

/// The piCoreDSP bypass config for `playback_device`, as a YAML tree.
pub fn bypass_config(playback_device: &str) -> (r: Yaml)
    ensures
        yv(r) == bypass_tree(playback_device@),
{
    let capture = vec![
        kv("type", Yaml::Str("Alsa".to_string())),
        kv("channels", num(2)),
        kv("device", Yaml::Str("hw:Loopback,0,0".to_string())),
        kv("stop_on_inactive", Yaml::Bool(true)),
    ];
    let playback = vec![
        kv("type", Yaml::Str("Alsa".to_string())),
        kv("channels", num(2)),
        kv("device", Yaml::Str(playback_device.to_string())),
    ];
    proof {
        lemma_yms(capture@);
        lemma_yms(playback@);
        assert(yms(capture@) =~= seq![
            (key("type"@), YVal::Str("Alsa"@)),
            (key("channels"@), uint(2)),
            (key("device"@), YVal::Str("hw:Loopback,0,0"@)),
            (key("stop_on_inactive"@), YVal::Bool(true)),
        ]);
        assert(yms(playback@) =~= seq![
            (key("type"@), YVal::Str("Alsa"@)),
            (key("channels"@), uint(2)),
            (key("device"@), YVal::Str(playback_device@)),
        ]);
    }
    let capture = Yaml::Mapping(capture);
    let playback = Yaml::Mapping(playback);
    let devices = vec![
        kv("samplerate", num(44100)),
        kv("chunksize", num(2048)),
        kv("queuelimit", num(4)),
        kv("enable_rate_adjust", Yaml::Bool(true)),
        kv("capture", capture),
        kv("playback", playback),
    ];
    proof {
        lemma_yms(devices@);
        assert(yms(devices@) =~= seq![
            (key("samplerate"@), uint(44100)),
            (key("chunksize"@), uint(2048)),
            (key("queuelimit"@), uint(4)),
            (key("enable_rate_adjust"@), YVal::Bool(true)),
            (key("capture"@), yv(capture)),
            (key("playback"@), yv(playback)),
        ]);
    }
    let devices = Yaml::Mapping(devices);
    let description = concat3("IMPORTANT: This description is longer than the visible CamillaGUI field.\nScroll down and read it completely before changing or applying this config.\n\nDefault piCoreDSP pass-through baseline configuration.\n\nThis YAML file is the persistent baseline configuration. It does not\nnecessarily contain the parameters currently used by CamillaDSP.\n\nAudio is captured from snd-aloop and played to the piCorePlayer output\nthat was selected before installation: ", playback_device, "\n\npiCoreDSP builds on the upstream camilladsp-controller snd-aloop adaptation\nmodel, but replaces its Python runtime with the native Rust\npicoredsp-controller and adds piCorePlayer-specific persistence,\nactive-config reloading and startup/rate-switch handling.\n\nWhen playback becomes active, picoredsp-controller reads the live stream\nparameters from snd-aloop and adapts the CamillaDSP configuration in memory\nto the current sample rate and, where applicable, capture format and channel\ncount.\n\nTherefore values shown in this YAML or in the CamillaGUI config editor,\nsuch as samplerate: 44100, may differ from the live values shown in\nCamillaGUI's status area. The live status values are authoritative for the\nstream currently playing.\n\nRuntime-adapted values are not written back to this file.\n\nSave DSP/filter changes in CamillaGUI if they must survive a sample-rate or\nformat change or a reboot. Prefer \"Apply and Save\" for persistent changes.\n\nOn piCorePlayer, run \"pcp backup\" after persistent configuration changes and\nbefore rebooting, so the current system configuration is backed up.\n\nDo not manually Apply a configuration merely to initialize DSP while\nplayback is stopped. The controller automatically loads and adapts the\nconfiguration when playback becomes active.\n");
    let filters: Vec<(Yaml, Yaml)> = Vec::new();
    let mixers: Vec<(Yaml, Yaml)> = Vec::new();
    let processors: Vec<(Yaml, Yaml)> = Vec::new();
    let pipeline: Vec<Yaml> = Vec::new();
    proof {
        assert(yms(filters@) =~= Seq::<(YVal, YVal)>::empty());
        assert(yms(mixers@) =~= Seq::<(YVal, YVal)>::empty());
        assert(yms(processors@) =~= Seq::<(YVal, YVal)>::empty());
        assert(crate::yaml::yvs(pipeline@) =~= Seq::<YVal>::empty());
    }
    let root = vec![
        kv("devices", devices),
        kv("filters", Yaml::Mapping(filters)),
        kv("mixers", Yaml::Mapping(mixers)),
        kv("pipeline", Yaml::Sequence(pipeline)),
        kv("processors", Yaml::Mapping(processors)),
        kv("title", Yaml::Str("Bypass".to_string())),
        kv("description", Yaml::Str(description)),
    ];
    proof {
        lemma_yms(root@);
        assert(yms(root@) =~= seq![
            (key("devices"@), yv(devices)),
            (key("filters"@), YVal::Dict(seq![])),
            (key("mixers"@), YVal::Dict(seq![])),
            (key("pipeline"@), YVal::List(seq![])),
            (key("processors"@), YVal::Dict(seq![])),
            (key("title"@), YVal::Str("Bypass"@)),
            (key("description"@), YVal::Str(bypass_description_head() + playback_device@ + bypass_description_tail())),
        ]);
    }
    Yaml::Mapping(root)
}

} // verus!
