//! The semantic view of CamillaDSP used above the WebSocket layer: its
//! processing state, why it stopped, and its version.
use crate::text::{
    all_digits, chars_of, concat3, dec_string, is_ws, lemma_dec_string, lemma_field_len,
    lemma_parse_dec_string, parse_unsigned, parse_unsigned_chars, push_decimal, split_char,
    split_on_char, string_of, trim, trim_chars, trim_end, trim_start,
};
use vstd::prelude::*;

verus! {

/// The states the CamillaDSP process can be in, as observed through the
/// WebSocket API. Always read fresh from CamillaDSP, never invented.
#[derive(Debug, Clone, Copy, PartialEq, Eq, Hash, Structural)]
pub enum DspState {
    /// The engine is in the process of starting up.
    Starting,
    /// The engine is actively processing audio.
    Running,
    /// The engine is paused (capture stopped, DSP suspended).
    Paused,
    /// The engine stopped normally and waits for a new source.
    Inactive,
    /// The engine has stalled.
    Stalled,
    /// The engine encountered a fatal error and has stopped.
    Failed,
}

impl Default for DspState {
    fn default() -> (s: Self)
        ensures
            s == DspState::Inactive,
    {
        DspState::Inactive
    }
}

impl DspState {
    /// Whether this state is a transitional one to be waited out (`Starting`).
    pub fn is_transitional(&self) -> (b: bool)
        ensures
            b == (*self == DspState::Starting),
    {
        *self == DspState::Starting
    }

    /// Whether the engine is currently producing audio (`Running` or `Paused`).
    pub fn is_active(&self) -> (b: bool)
        ensures
            b == (*self == DspState::Running || *self == DspState::Paused),
    {
        *self == DspState::Running || *self == DspState::Paused
    }

    /// Whether the engine is settled and inactive (`Inactive`).
    pub fn is_settled_inactive(&self) -> (b: bool)
        ensures
            b == (*self == DspState::Inactive),
    {
        *self == DspState::Inactive
    }
}

/// Why CamillaDSP stopped (from `GetStopReason`).
#[derive(Debug, Clone, PartialEq, Eq)]
pub enum StopReason {
    /// The capture stream produced an error.
    CaptureError,
    /// The playback device produced an error.
    PlaybackError,
    /// The capture stream format changed.
    CaptureFormatChange,
    /// The playback stream format changed.
    PlaybackFormatChange,
    /// `stop_on_inactive` fired: the capture stream went silent.
    Done,
    /// No stop reason is recorded.
    NoReason,
    /// Any other reason string, carried as-is.
    Other(String),
}

/// The semantic version of a running CamillaDSP.
#[derive(Debug, Clone, Copy, PartialEq, Eq, PartialOrd, Ord, Structural)]
pub struct Version {
    pub major: u32,
    pub minor: u32,
    pub patch: u32,
}

/// Whether `v` supports `SubscribeState` push events: 4.2 or later.
pub open spec fn subscribes_state(v: Version) -> bool {
    v.major > 4 || (v.major == 4 && v.minor >= 2)
}

/// One version component, read the way `u32::from_str` reads it.
pub open spec fn version_component(p: Seq<char>, s: Seq<char>) -> Result<u32, Seq<char>> {
    match parse_unsigned(p, u32::MAX as nat) {
        Some(n) => Ok(n as u32),
        None => Err("invalid version component `"@ + p + "` in `"@ + s + "`"@),
    }
}

/// The version `s` denotes: `major.minor[.patch]` after trimming, with
/// missing patch 0 and further components ignored.
pub open spec fn version_of(s: Seq<char>) -> Result<Version, Seq<char>> {
    let parts = split_char(trim(s), '.');
    if parts.len() < 2 {
        Err("cannot parse version string `"@ + s + "`"@)
    } else {
        match version_component(parts[0], s) {
            Err(m) => Err(m),
            Ok(major) => match version_component(parts[1], s) {
                Err(m) => Err(m),
                Ok(minor) => if parts.len() >= 3 {
                    match version_component(parts[2], s) {
                        Err(m) => Err(m),
                        Ok(patch) => Ok(Version { major, minor, patch }),
                    }
                } else {
                    Ok(Version { major, minor, patch: 0 })
                },
            },
        }
    }
}

/// The text `major.minor.patch`.
pub open spec fn version_text(v: Version) -> Seq<char> {
    dec_string(v.major as nat) + "."@ + dec_string(v.minor as nat) + "."@ + dec_string(v.patch as nat)
}

proof fn lemma_split_at_dot(a: Seq<char>, r: Seq<char>)
    requires
        forall|i: int| 0 <= i < a.len() ==> a[i] != '.',
    ensures
        split_char(a + seq!['.'] + r, '.') == seq![a] + split_char(r, '.'),
{
    let s = a + seq!['.'] + r;
    assert forall|k: int| 0 <= k < a.len() implies s[k] != '.' by {
        assert(s[k] == a[k]);
    }
    assert(s[a.len() as int] == '.');
    lemma_field_len(s, '.', a.len() as int);
    assert(s.take(a.len() as int) =~= a);
    assert(s.skip(a.len() as int + 1) =~= r);
}

proof fn lemma_split_no_dot(a: Seq<char>)
    requires
        forall|i: int| 0 <= i < a.len() ==> a[i] != '.',
    ensures
        split_char(a, '.') == seq![a],
{
    lemma_field_len(a, '.', a.len() as int);
}

proof fn lemma_digits_plain(d: Seq<char>)
    requires
        all_digits(d),
    ensures
        forall|i: int| 0 <= i < d.len() ==> d[i] != '.' && !is_ws(#[trigger] d[i]),
{
    assert forall|i: int| 0 <= i < d.len() implies d[i] != '.' && !is_ws(#[trigger] d[i]) by {
        assert('0' <= d[i] && d[i] <= '9');
    }
}

/// The text a version is displayed as parses back to that version.
pub proof fn law_version_text_parses_back(v: Version)
    ensures
        version_of(version_text(v)) == Ok::<Version, Seq<char>>(v),
{
    reveal_strlit(".");
    let d1 = dec_string(v.major as nat);
    let d2 = dec_string(v.minor as nat);
    let d3 = dec_string(v.patch as nat);
    lemma_dec_string(v.major as nat);
    lemma_dec_string(v.minor as nat);
    lemma_dec_string(v.patch as nat);
    lemma_digits_plain(d1);
    lemma_digits_plain(d2);
    lemma_digits_plain(d3);
    let t = version_text(v);
    let rest = d2 + seq!['.'] + d3;
    assert(t =~= d1 + seq!['.'] + rest);
    assert(t[0] == d1[0]);
    assert(trim_start(t) == t);
    assert(t.last() == d3.last());
    assert(trim_end(t) == t);
    lemma_split_at_dot(d1, rest);
    lemma_split_at_dot(d2, d3);
    lemma_split_no_dot(d3);
    let parts = split_char(t, '.');
    assert(parts =~= seq![d1, d2, d3]);
    lemma_parse_dec_string(v.major as nat, u32::MAX as nat);
    lemma_parse_dec_string(v.minor as nat, u32::MAX as nat);
    lemma_parse_dec_string(v.patch as nat, u32::MAX as nat);
}

/// The view of a version-parse result.
pub open spec fn version_result(r: Result<Version, String>) -> Result<Version, Seq<char>> {
    match r {
        Ok(v) => Ok(v),
        Err(e) => Err(e@),
    }
}

fn component(p: &Vec<char>, s: &str) -> (r: Result<u32, String>)
    ensures
        version_result_u32(r) == version_component(p@, s@),
{
    match parse_unsigned_chars(p.as_slice(), 0xffff_ffff) {
        Some(n) => Ok(n as u32),
        None => {
            let head = concat3("invalid version component `", string_of(p.as_slice()).as_str(), "` in `");
            Err(concat3(head.as_str(), s, "`"))
        },
    }
}

/// The view of a component-parse result.
pub open spec fn version_result_u32(r: Result<u32, String>) -> Result<u32, Seq<char>> {
    match r {
        Ok(v) => Ok(v),
        Err(e) => Err(e@),
    }
}

impl Version {
    pub fn new(major: u32, minor: u32, patch: u32) -> (v: Self)
        ensures
            v == (Version { major, minor, patch }),
    {
        Version { major, minor, patch }
    }

    /// Whether this version supports `SubscribeState` push events (4.2+).
    pub fn supports_subscribe_state(&self) -> (b: bool)
        ensures
            b == subscribes_state(*self),
    {
        self.major > 4 || (self.major == 4 && self.minor >= 2)
    }

    /// Parse a `"major.minor[.patch]"` version string.
    pub fn parse(s: &str) -> (r: Result<Version, String>)
        ensures
            version_result(r) == version_of(s@),
    {
        let chars = chars_of(s);
        let trimmed = trim_chars(chars.as_slice());
        let parts = split_on_char(trimmed.as_slice(), '.');
        proof {
            assert(parts.deep_view() == split_char(trim(s@), '.'));
            assert(parts.len() == parts.deep_view().len());
        }
        if parts.len() < 2 {
            return Err(concat3("cannot parse version string `", s, "`"));
        }
        proof {
            assert(parts.deep_view()[0] == parts[0]@);
            assert(parts.deep_view()[1] == parts[1]@);
        }
        let major = component(&parts[0], s)?;
        let minor = component(&parts[1], s)?;
        let patch = if parts.len() >= 3 {
            proof { assert(parts.deep_view()[2] == parts[2]@); }
            component(&parts[2], s)?
        } else {
            0
        };
        Ok(Version { major, minor, patch })
    }

    /// The text `major.minor.patch`, as `Display` renders it.
    pub fn to_string(&self) -> (s: String)
        ensures
            s@ == version_text(*self),
    {
        let mut s = String::new();
        push_decimal(&mut s, self.major as u64);
        s.append(".");
        push_decimal(&mut s, self.minor as u64);
        s.append(".");
        push_decimal(&mut s, self.patch as u64);
        s
    }
}

impl std::str::FromStr for Version {
    type Err = String;

    fn from_str(s: &str) -> (r: Result<Self, Self::Err>)
        ensures
            version_result(r) == version_of(s@),
    {
        Version::parse(s)
    }
}

} // verus!
