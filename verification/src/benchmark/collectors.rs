//! Environment detection for benchmark runs: which ALSA card is the DAC,
//! which card number a control device names, and what CamillaDSP reports.
use crate::camilladsp::websocket::{chunksize_from, CamillaClient};
use crate::text::{
    chars_of, contains, contains_chars, field_len, lemma_field_len, lines, lower_chars, lower_seq, parse_unsigned, parse_unsigned_chars, slice_to_vec,
    split_char, split_lines, split_on_char, starts_with, starts_with_chars, string_of, trim, trim_chars,
};
use vstd::prelude::*;

verus! {

/// `s` with every leading repetition of `p` removed (`str::trim_start_matches`).
pub open spec fn strip_prefixes(s: Seq<char>, p: Seq<char>) -> Seq<char>
    decreases s.len(),
{
    if p.len() > 0 && starts_with(s, p) {
        strip_prefixes(s.skip(p.len() as int), p)
    } else {
        s
    }
}

/// The position of the first `c` in `s`, if any (`str::find` with a char).
pub open spec fn first_index(s: Seq<char>, c: char) -> Option<int> {
    if field_len(s, c) < s.len() {
        Some(field_len(s, c) as int)
    } else {
        None
    }
}

/// The card part of an ALSA device such as `hw:Loopback,0`: the text
/// before the first comma, after any leading `hw:`.
pub open spec fn card_part(device: Seq<char>) -> Seq<char> {
    split_char(strip_prefixes(device, "hw:"@), ',')[0]
}

/// What one line of `/proc/asound/cards` says about the DAC, given the
/// lower-case loopback card name: nothing for a blank line, a line without
/// `[`, or the loopback card; else the description after the first `:`, or
/// the lower-case card name when there is none.
pub open spec fn dac_line(line: Seq<char>, loopback: Seq<char>) -> Option<Seq<char>> {
    let t = trim(line);
    if t.len() == 0 {
        None
    } else {
        match first_index(t, '[') {
            None => None,
            Some(b) => {
                let after = t.skip(b + 1);
                let name_end = match first_index(after, ']') {
                    Some(e) => e,
                    None => after.len() as int,
                };
                let name = lower_seq(trim(after.take(name_end)));
                if starts_with(name, loopback) {
                    None
                } else {
                    match first_index(t, ':') {
                        Some(d) => Some(trim(t.skip(d + 1))),
                        None => Some(name),
                    }
                }
            },
        }
    }
}

/// The first line that names a DAC.
pub open spec fn first_dac(ls: Seq<Seq<char>>, loopback: Seq<char>) -> Option<Seq<char>>
    decreases ls.len(),
{
    if ls.len() == 0 {
        None
    } else {
        match dac_line(ls[0], loopback) {
            Some(d) => Some(d),
            None => first_dac(ls.drop_first(), loopback),
        }
    }
}

/// The DAC description `/proc/asound/cards` gives: the first card that is
/// not the loopback card of `aloop_device`, or `"unknown"`.
pub open spec fn dac_of(cards: Seq<char>, aloop_device: Seq<char>) -> Seq<char> {
    match first_dac(lines(cards), lower_seq(card_part(aloop_device))) {
        Some(d) => d,
        None => "unknown"@,
    }
}

fn strip_prefixes_chars(s: &[char], p: &[char]) -> (r: Vec<char>)
    ensures
        r@ == strip_prefixes(s@, p@),
{
    let mut i: usize = 0;
    assert(s@.skip(0) =~= s@);
    if p.len() == 0 {
        return slice_to_vec(s, 0, s.len());
    }
    loop
        invariant
            i <= s.len(),
            p.len() > 0,
            strip_prefixes(s@, p@) == strip_prefixes(s@.skip(i as int), p@),
        decreases s.len() - i,
    {
        let rest = slice_to_vec(s, i, s.len());
        assert(rest@ =~= s@.skip(i as int));
        if !starts_with_chars(rest.as_slice(), p) {
            assert(rest@ =~= s@.subrange(i as int, s.len() as int));
            return rest;
        }
        proof {
            assert(s@.skip(i as int).skip(p.len() as int) =~= s@.skip(i + p.len()));
        }
        i = i + p.len();
    }
}

fn first_index_chars(s: &[char], c: char) -> (r: Option<usize>)
    ensures
        match first_index(s@, c) {
            Some(i) => r == Some(i as usize),
            None => r is None,
        },
{
    let r = crate::text::find_char(s, c);
    proof {
        match r {
            Some(i) => crate::text::lemma_field_len(s@, c, i as int),
            None => crate::text::lemma_field_len(s@, c, s.len() as int),
        }
    }
    r
}

/// The card part of an ALSA device, as characters.
fn card_part_chars(device: &str) -> (r: Vec<char>)
    ensures
        r@ == card_part(device@),
{
    let stripped = strip_prefixes_chars(chars_of(device).as_slice(), chars_of("hw:").as_slice());
    let pieces = split_on_char(stripped.as_slice(), ',');
    proof {
        crate::text::lemma_split_char_nonempty(stripped@, ',');
        assert(pieces.deep_view()[0] == pieces[0]@);
    }
    slice_to_vec(pieces[0].as_slice(), 0, pieces[0].len())
}

fn dac_line_chars(line: &[char], loopback: &[char]) -> (r: Option<Vec<char>>)
    ensures
        match dac_line(line@, loopback@) {
            Some(d) => r matches Some(x) && x@ == d,
            None => r is None,
        },
{
    let t = trim_chars(line);
    if t.len() == 0 {
        return None;
    }
    let b = match first_index_chars(t.as_slice(), '[') {
        Some(b) => b,
        None => {
            return None;
        },
    };
    let after = slice_to_vec(t.as_slice(), b + 1, t.len());
    assert(after@ =~= t@.skip(b + 1));
    let name_end = match first_index_chars(after.as_slice(), ']') {
        Some(e) => e,
        None => after.len(),
    };
    let head = slice_to_vec(after.as_slice(), 0, name_end);
    assert(head@ =~= after@.take(name_end as int));
    let name = lower_chars(trim_chars(head.as_slice()).as_slice());
    if starts_with_chars(name.as_slice(), loopback) {
        return None;
    }
    match first_index_chars(t.as_slice(), ':') {
        Some(d) => {
            let rest = slice_to_vec(t.as_slice(), d + 1, t.len());
            assert(rest@ =~= t@.skip(d + 1));
            Some(trim_chars(rest.as_slice()))
        },
        None => Some(name),
    }
}

/// The DAC description in `/proc/asound/cards` text: the first card that
/// is not the loopback card of `aloop_device`, or `"unknown"`.
pub fn detect_dac_from_cards(cards_text: &str, aloop_device: &str) -> (r: String)
    ensures
        r@ == dac_of(cards_text@, aloop_device@),
{
    let loopback = lower_chars(card_part_chars(aloop_device).as_slice());
    let ls = split_lines(chars_of(cards_text).as_slice());
    let ghost lv = ls.deep_view();
    let mut i: usize = 0;
    proof {
        assert(lv.skip(0) =~= lv);
    }
    while i < ls.len()
        invariant
            i <= ls.len(),
            lv == ls.deep_view(),
            lv.len() == ls.len(),
            lv == lines(cards_text@),
            loopback@ == lower_seq(card_part(aloop_device@)),
            first_dac(lv, loopback@) == first_dac(lv.skip(i as int), loopback@),
        decreases ls.len() - i,
    {
        proof {
            assert(lv.skip(i as int)[0] == ls@[i as int]@);
            assert(lv.skip(i as int).drop_first() =~= lv.skip(i as int + 1));
        }
        match dac_line_chars(ls[i].as_slice(), loopback.as_slice()) {
            Some(d) => {
                return string_of(d.as_slice());
            },
            None => {},
        }
        i = i + 1;
    }
    "unknown".to_string()
}

/// The card number a line of `/proc/asound/cards` gives when its card name
/// starts with `needle`: `Some(Some(n))`, or `Some(None)` when the number is
/// malformed; `None` when the line does not decide. A non-blank line without
/// `[` ends the search without a number.
pub open spec fn card_line(line: Seq<char>, needle: Seq<char>) -> Option<Option<u32>> {
    let t = trim(line);
    if t.len() == 0 {
        None
    } else {
        match first_index(t, '[') {
            None => Some(None),
            Some(b) => {
                let num_part = trim(t.take(b));
                let name = lower_seq(trim(split_char(t.skip(b + 1), ']')[0]));
                if starts_with(name, needle) {
                    Some(
                        match parse_unsigned(num_part, u32::MAX as nat) {
                            Some(n) => Some(n as u32),
                            None => None,
                        },
                    )
                } else {
                    None
                }
            },
        }
    }
}

/// The card number the lines give for `needle`, if any.
pub open spec fn card_in_lines(ls: Seq<Seq<char>>, needle: Seq<char>) -> Option<u32>
    decreases ls.len(),
{
    if ls.len() == 0 {
        None
    } else {
        match card_line(ls[0], needle) {
            Some(r) => r,
            None => card_in_lines(ls.drop_first(), needle),
        }
    }
}

/// The ALSA card number of a control device: its card part read as a
/// number, else looked up by name (case-insensitive prefix) in the
/// `/proc/asound/cards` text, where that text could be read.
pub open spec fn card_number(device: Seq<char>, cards: Option<Seq<char>>) -> Option<u32> {
    let part = card_part(device);
    match parse_unsigned(part, u32::MAX as nat) {
        Some(n) => Some(n as u32),
        None => match cards {
            Some(t) => card_in_lines(lines(t), lower_seq(part)),
            None => None,
        },
    }
}

fn card_line_chars(line: &[char], needle: &[char]) -> (r: Option<Option<u32>>)
    ensures
        r == card_line(line@, needle@),
{
    let t = trim_chars(line);
    if t.len() == 0 {
        return None;
    }
    let b = match first_index_chars(t.as_slice(), '[') {
        Some(b) => b,
        None => {
            return Some(None);
        },
    };
    let head = slice_to_vec(t.as_slice(), 0, b);
    assert(head@ =~= t@.take(b as int));
    let num_part = trim_chars(head.as_slice());
    let after = slice_to_vec(t.as_slice(), b + 1, t.len());
    assert(after@ =~= t@.skip(b + 1));
    let pieces = split_on_char(after.as_slice(), ']');
    proof {
        crate::text::lemma_split_char_nonempty(after@, ']');
        assert(pieces.deep_view()[0] == pieces[0]@);
    }
    let name = lower_chars(trim_chars(pieces[0].as_slice()).as_slice());
    if starts_with_chars(name.as_slice(), needle) {
        Some(
            match parse_unsigned_chars(num_part.as_slice(), 0xffff_ffff) {
                Some(n) => Some(n as u32),
                None => None,
            },
        )
    } else {
        None
    }
}

/// The ALSA card number of a control device such as `hw:1,0` or
/// `hw:Loopback,0`; `cards_text` is the `/proc/asound/cards` text, where it
/// could be read, for looking a card up by name.
pub fn find_alsa_card_number(control_device: &str, cards_text: Option<&str>) -> (r: Option<u32>)
    ensures
        r == card_number(
            control_device@,
            match cards_text {
                Some(t) => Some(t@),
                None => None,
            },
        ),
{
    let part = card_part_chars(control_device);
    match parse_unsigned_chars(part.as_slice(), 0xffff_ffff) {
        Some(n) => {
            return Some(n as u32);
        },
        None => {},
    }
    let text = match cards_text {
        Some(t) => t,
        None => {
            return None;
        },
    };
    let needle = lower_chars(part.as_slice());
    let ls = split_lines(chars_of(text).as_slice());
    let ghost lv = ls.deep_view();
    let mut i: usize = 0;
    proof {
        assert(lv.skip(0) =~= lv);
    }
    let ghost goal = card_number(
        control_device@,
        match cards_text {
            Some(t) => Some(t@),
            None => None,
        },
    );
    assert(goal == card_in_lines(lv, needle@));
    while i < ls.len()
        invariant
            i <= ls.len(),
            lv == ls.deep_view(),
            lv.len() == ls.len(),
            lv == lines(text@),
            needle@ == lower_seq(part@),
            goal == card_in_lines(lv, needle@),
            goal == card_number(
                control_device@,
                match cards_text {
                    Some(t) => Some(t@),
                    None => None,
                },
            ),
            card_in_lines(lv, needle@) == card_in_lines(lv.skip(i as int), needle@),
        decreases ls.len() - i,
    {
        proof {
            assert(lv.skip(i as int)[0] == ls@[i as int]@);
            assert(lv.skip(i as int).drop_first() =~= lv.skip(i as int + 1));
        }
        match card_line_chars(ls[i].as_slice(), needle.as_slice()) {
            Some(r) => {
                return r;
            },
            None => {},
        }
        i = i + 1;
    }
    None
}

// ─── Finding the running controller ────────────────────────────────────────

/// A UTF-8 continuation byte (`10xxxxxx`).
pub open spec fn utf8_cont(b: u8) -> bool {
    0x80 <= b <= 0xBF
}

/// Whether the bytes are well-formed UTF-8: a sequence of the well-formed
/// byte sequences of the Unicode standard (no overlong forms, no surrogates,
/// nothing above U+10FFFF), by the lead byte of each.
pub open spec fn utf8_valid(s: Seq<u8>) -> bool
    decreases s.len(),
{
    if s.len() == 0 {
        true
    } else {
        let b = s[0];
        if b <= 0x7F {
            utf8_valid(s.subrange(1, s.len() as int))
        } else if 0xC2 <= b <= 0xDF {
            s.len() >= 2 && utf8_cont(s[1]) && utf8_valid(s.subrange(2, s.len() as int))
        } else if 0xE0 <= b <= 0xEF {
            let second_ok = if b == 0xE0 {
                0xA0 <= s[1] <= 0xBF
            } else if b == 0xED {
                0x80 <= s[1] <= 0x9F
            } else {
                utf8_cont(s[1])
            };
            s.len() >= 3 && second_ok && utf8_cont(s[2]) && utf8_valid(s.subrange(3, s.len() as int))
        } else if 0xF0 <= b <= 0xF4 {
            let second_ok = if b == 0xF0 {
                0x90 <= s[1] <= 0xBF
            } else if b == 0xF4 {
                0x80 <= s[1] <= 0x8F
            } else {
                utf8_cont(s[1])
            };
            s.len() >= 4 && second_ok && utf8_cont(s[2]) && utf8_cont(s[3]) && utf8_valid(
                s.subrange(4, s.len() as int),
            )
        } else {
            false
        }
    }
}

/// `std::str::from_utf8(bytes).is_ok()`: the bytes are accepted exactly
/// where they are valid UTF-8, as its documentation says.
#[verifier::external_body]
fn is_utf8(bytes: &[u8]) -> (b: bool)
    ensures
        b == utf8_valid(bytes@),
{
    std::str::from_utf8(bytes).is_ok()
}

/// Bytes read as characters one for one; for valid UTF-8 this finds the
/// ASCII texts the checks below look for exactly where `str` methods do.
pub open spec fn byte_chars(b: Seq<u8>) -> Seq<char> {
    b.map_values(|x: u8| x as char)
}

/// `s` ends with `p` (`str::ends_with`).
pub open spec fn ends_with(s: Seq<char>, p: Seq<char>) -> bool {
    p.len() <= s.len() && s.skip(s.len() - p.len()) == p
}

/// A `/proc/<pid>/cmdline` (arguments separated by NUL bytes) of a running
/// controller daemon: the program name is valid UTF-8 and ends with
/// `picoredsp-controller`, and no argument that is valid UTF-8 contains
/// `--run-benchmark` or `--make-benchmark`.
pub open spec fn daemon_cmdline(c: Seq<u8>) -> bool {
    let parts = split_char(c, 0u8);
    &&& utf8_valid(parts[0])
    &&& ends_with(byte_chars(parts[0]), "picoredsp-controller"@)
    &&& forall|i: int| 0 <= i < parts.len() ==> !#[trigger] benchmark_arg(parts[i])
}

/// An argument that is valid UTF-8 and names one of the benchmark modes.
pub open spec fn benchmark_arg(p: Seq<u8>) -> bool {
    &&& utf8_valid(p)
    &&& contains(byte_chars(p), "--run-benchmark"@) || contains(byte_chars(p), "--make-benchmark"@)
}

fn byte_text(b: &[u8]) -> (r: Vec<char>)
    ensures
        r@ == byte_chars(b@),
{
    let mut r: Vec<char> = Vec::new();
    let mut i: usize = 0;
    while i < b.len()
        invariant
            i <= b.len(),
            r@ == byte_chars(b@.take(i as int)),
        decreases b.len() - i,
    {
        r.push(b[i] as char);
        assert(byte_chars(b@.take(i + 1)) =~= byte_chars(b@.take(i as int)).push(b@[i as int] as char));
        i = i + 1;
    }
    assert(b@.take(b.len() as int) =~= b@);
    r
}

fn ends_with_chars(s: &[char], p: &[char]) -> (b: bool)
    ensures
        b == ends_with(s@, p@),
{
    if p.len() > s.len() {
        return false;
    }
    let off = s.len() - p.len();
    let mut i: usize = 0;
    while i < p.len()
        invariant
            off == s.len() - p.len(),
            i <= p.len(),
            forall|k: int| 0 <= k < i ==> s@[off + k] == p@[k],
        decreases p.len() - i,
    {
        if s[off + i] != p[i] {
            assert(s@.skip(off as int)[i as int] != p@[i as int]);
            return false;
        }
        i = i + 1;
    }
    assert(s@.skip(off as int) =~= p@);
    true
}

fn bytes_between(v: &[u8], from: usize, to: usize) -> (r: Vec<u8>)
    requires
        from <= to <= v.len(),
    ensures
        r@ == v@.subrange(from as int, to as int),
{
    let mut r: Vec<u8> = Vec::new();
    let mut i = from;
    while i < to
        invariant
            from <= i <= to <= v.len(),
            r@ == v@.subrange(from as int, i as int),
        decreases to - i,
    {
        r.push(v[i]);
        assert(v@.subrange(from as int, i + 1) =~= v@.subrange(from as int, i as int).push(v@[i as int]));
        i = i + 1;
    }
    r
}

/// The NUL-separated arguments of a command line.
fn split_nul(s: &[u8]) -> (r: Vec<Vec<u8>>)
    ensures
        r.deep_view() == split_char(s@, 0u8),
{
    let mut r: Vec<Vec<u8>> = Vec::new();
    let mut i: usize = 0;
    assert(s@.skip(0) =~= s@);
    loop
        invariant
            i <= s.len(),
            r.deep_view() + split_char(s@.skip(i as int), 0u8) == split_char(s@, 0u8),
        decreases s.len() - i,
    {
        let ghost rest = s@.skip(i as int);
        let mut b = i;
        while b < s.len() && s[b] != 0
            invariant
                i <= b <= s.len(),
                forall|k: int| i <= k < b ==> s@[k] != 0u8,
            decreases s.len() - b,
        {
            b = b + 1;
        }
        proof {
            assert forall|k: int| 0 <= k < b - i implies rest[k] != 0u8 by {
                assert(rest[k] == s@[i + k]);
            }
            if b < s.len() {
                assert(rest[b - i] == s@[b as int]);
            }
            lemma_field_len(rest, 0u8, b - i);
            assert(rest.take(b - i) =~= s@.subrange(i as int, b as int));
        }
        let w = bytes_between(s, i, b);
        let ghost old_r = r.deep_view();
        let ghost old_v = r@;
        r.push(w);
        proof {
            assert(w.deep_view() =~= w@);
            assert(r@ == old_v.push(w));
            assert(r.deep_view() =~= old_r.push(w@));
        }
        if b == s.len() {
            proof {
                assert(rest =~= s@.subrange(i as int, b as int));
                assert(split_char(rest, 0u8) == seq![rest]);
                assert(old_r.push(w@) =~= old_r + seq![rest]);
            }
            return r;
        }
        proof {
            assert(rest.skip(b - i + 1) =~= s@.skip(b as int + 1));
            assert(split_char(rest, 0u8) == seq![w@] + split_char(s@.skip(b as int + 1), 0u8));
            assert(old_r.push(w@) + split_char(s@.skip(b as int + 1), 0u8) =~= old_r + (seq![w@]
                + split_char(s@.skip(b as int + 1), 0u8)));
        }
        i = b + 1;
    }
}

/// Whether a `/proc/<pid>/cmdline` is that of a running controller daemon
/// (not one of the benchmark's own invocations).
pub fn is_controller_daemon(cmdline: &[u8]) -> (b: bool)
    ensures
        b == daemon_cmdline(cmdline@),
{
    let parts = split_nul(cmdline);
    let ghost ps = split_char(cmdline@, 0u8);
    proof {
        crate::text::lemma_split_char_nonempty(cmdline@, 0u8);
        assert(parts@.len() == ps.len());
        assert(parts@[0]@ == ps[0]);
    }
    if !is_utf8(parts[0].as_slice()) {
        return false;
    }
    let name = byte_text(parts[0].as_slice());
    let suffix = chars_of("picoredsp-controller");
    if !ends_with_chars(name.as_slice(), suffix.as_slice()) {
        return false;
    }
    let run = chars_of("--run-benchmark");
    let make = chars_of("--make-benchmark");
    let mut i: usize = 0;
    while i < parts.len()
        invariant
            i <= parts.len(),
            ps == split_char(cmdline@, 0u8),
            parts@.len() == ps.len(),
            forall|k: int| 0 <= k < parts.len() ==> #[trigger] parts@[k]@ == ps[k],
            run@ == "--run-benchmark"@,
            make@ == "--make-benchmark"@,
            forall|k: int| 0 <= k < i ==> !#[trigger] benchmark_arg(ps[k]),
        decreases parts.len() - i,
    {
        assert(parts@[i as int]@ == ps[i as int]);
        if is_utf8(parts[i].as_slice()) {
            let t = byte_text(parts[i].as_slice());
            if contains_chars(t.as_slice(), run.as_slice()) || contains_chars(t.as_slice(), make.as_slice()) {
                proof {
                    assert(benchmark_arg(ps[i as int]));
                }
                return false;
            }
        }
        i = i + 1;
    }
    true
}

/// `/proc` entry `e` (its name and its cmdline) is a controller daemon
/// other than the process `own_pid`.
pub open spec fn daemon_entry(e: (Seq<char>, Seq<u8>), own_pid: u32) -> bool {
    &&& parse_unsigned(e.0, u32::MAX as nat) matches Some(p)
    &&& p != own_pid
    &&& daemon_cmdline(e.1)
}

/// The PID of the first `/proc` entry (name and cmdline, in the order the
/// directory listed them) that is a running controller daemon other than
/// `own_pid`.
pub fn controller_pid_among(entries: &Vec<(String, Vec<u8>)>, own_pid: u32) -> (r: Option<u32>)
    ensures
        match r {
            Some(p) => exists|i: int|
                0 <= i < entries.len() && daemon_entry((entries@[i].0@, entries@[i].1@), own_pid)
                    && parse_unsigned(entries@[i].0@, u32::MAX as nat) == Some(p as nat)
                    && forall|j: int| 0 <= j < i ==> !daemon_entry((entries@[j].0@, entries@[j].1@), own_pid),
            None => forall|i: int|
                0 <= i < entries.len() ==> !daemon_entry((entries@[i].0@, entries@[i].1@), own_pid),
        },
{
    let mut i: usize = 0;
    while i < entries.len()
        invariant
            i <= entries.len(),
            forall|j: int| 0 <= j < i ==> !daemon_entry((entries@[j].0@, entries@[j].1@), own_pid),
        decreases entries.len() - i,
    {
        let name = chars_of(entries[i].0.as_str());
        match crate::text::parse_u32_chars(name.as_slice()) {
            Some(pid) => {
                if pid != own_pid && is_controller_daemon(entries[i].1.as_slice()) {
                    return Some(pid);
                }
            },
            None => {},
        }
        i = i + 1;
    }
    None
}

/// The chunk size of the config CamillaDSP runs, read with
/// `GetConfigValue("/devices/chunksize")`: `None` where the query fails or the
/// value is no unsigned integer. What comes back is the client's; nothing is
/// stated of it ([`chunksize_from`] states how a reply is read).
pub fn chunksize_from_client<C: CamillaClient>(client: &mut C) -> Option<u64> {
    match client.get_config_value("/devices/chunksize") {
        Ok(value) => chunksize_from(value),
        Err(_) => None,
    }
}

} // verus!
