//! Text parsers for `/proc` files and `aplay` output.
use crate::text::{
    chars_of, contains_chars, find_char, lower_chars, rfind_char, string_of, trim_chars, contains, lines, lower_seq, parse_u64_chars, parse_unsigned, parse_unsigned_chars,
    slice_to_vec, split_lines, split_whitespace, starts_with, starts_with_chars, tokens, trim,
};
use vstd::prelude::*;

verus! {

// ─── Specifications ────────────────────────────────────────────────────────

/// The text after `p` on the first line of `ls` that starts with `p`.
pub open spec fn field_after(ls: Seq<Seq<char>>, p: Seq<char>) -> Option<Seq<char>>
    decreases ls.len(),
{
    if ls.len() == 0 {
        None
    } else if starts_with(ls[0], p) {
        Some(ls[0].skip(p.len() as int))
    } else {
        field_after(ls.drop_first(), p)
    }
}

/// The text after `p` on the last line of `ls` that starts with `p`.
pub open spec fn last_field_after(ls: Seq<Seq<char>>, p: Seq<char>) -> Option<Seq<char>>
    decreases ls.len(),
{
    if ls.len() == 0 {
        None
    } else if starts_with(ls.last(), p) {
        Some(ls.last().skip(p.len() as int))
    } else {
        last_field_after(ls.drop_last(), p)
    }
}

/// The first whitespace-separated word of `s`, read as an unsigned number.
pub open spec fn first_word_number(s: Seq<char>, max: nat) -> Option<nat> {
    let t = tokens(s);
    if t.len() == 0 {
        None
    } else {
        parse_unsigned(t[0], max)
    }
}

/// The number that follows `p` on the first line of `text` starting with `p`.
pub open spec fn prefixed_number(text: Seq<char>, p: Seq<char>, max: nat) -> Option<nat> {
    match field_after(lines(text), p) {
        Some(rest) => first_word_number(rest, max),
        None => None,
    }
}

/// The number that follows `p` on the last line of `text` starting with `p`.
pub open spec fn last_prefixed_number(text: Seq<char>, p: Seq<char>, max: nat) -> Option<nat> {
    match last_field_after(lines(text), p) {
        Some(rest) => first_word_number(rest, max),
        None => None,
    }
}

pub open spec fn opt_nat(o: Option<u64>) -> Option<nat> {
    match o {
        Some(v) => Some(v as nat),
        None => None,
    }
}

pub open spec fn opt_nat32(o: Option<u32>) -> Option<nat> {
    match o {
        Some(v) => Some(v as nat),
        None => None,
    }
}

/// The sum of two optional counts, where a missing count contributes nothing
/// and two missing counts give no result.
pub open spec fn sum_present(a: Option<nat>, b: Option<nat>) -> Option<nat> {
    match (a, b) {
        (Some(x), Some(y)) => Some(x + y),
        (Some(x), None) => Some(x),
        (None, Some(y)) => Some(y),
        (None, None) => None,
    }
}

/// `utime` and `stime` from a `/proc/<pid>/stat` line: the 12th and 13th
/// words after the last `')'`.
pub open spec fn cpu_fields_spec(stat: Seq<char>) -> Option<(nat, nat)> {
    if exists|i: int| 0 <= i < stat.len() && stat[i] == ')' {
        let k = choose|k: int|
            0 <= k < stat.len() && stat[k] == ')' && forall|j: int| k < j < stat.len() ==> stat[j]
                != ')';
        let f = tokens(stat.skip(k + 1));
        if f.len() > 12 {
            match (parse_unsigned(f[11], u64::MAX as nat), parse_unsigned(f[12], u64::MAX as nat)) {
                (Some(u), Some(s)) => Some((u, s)),
                _ => None,
            }
        } else {
            None
        }
    } else {
        None
    }
}

/// `utime + stime` from a `/proc/<pid>/stat` line.
pub open spec fn cpu_jiffies_spec(stat: Seq<char>) -> Option<nat> {
    match cpu_fields_spec(stat) {
        Some((u, s)) => Some(u + s),
        None => None,
    }
}

/// A line that reports an XRUN: it mentions `xrun`, `overrun` or `underrun`
/// in any ASCII case.
pub open spec fn is_xrun_line(l: Seq<char>) -> bool {
    let low = lower_seq(l);
    contains(low, "xrun"@) || contains(low, "overrun"@) || contains(low, "underrun"@)
}

/// How many of `ls` report an XRUN.
pub open spec fn count_xrun_lines(ls: Seq<Seq<char>>) -> nat
    decreases ls.len(),
{
    if ls.len() == 0 {
        0
    } else {
        count_xrun_lines(ls.drop_last()) + if is_xrun_line(ls.last()) {
            1nat
        } else {
            0nat
        }
    }
}

/// The line prefixes that introduce a board model in `/proc/cpuinfo`, in the
/// order they are tried.
pub open spec fn model_prefixes() -> Seq<Seq<char>> {
    seq!["Model\t\t:"@, "Model\t:"@, "Hardware\t:"@, "Hardware:"@]
}

/// The model named by one line: the trimmed text after the first listed prefix
/// that the line starts with and whose remainder is not blank.
pub open spec fn line_model(l: Seq<char>, ps: Seq<Seq<char>>) -> Option<Seq<char>>
    decreases ps.len(),
{
    if ps.len() == 0 {
        None
    } else if starts_with(l, ps[0]) && trim(l.skip(ps[0].len() as int)).len() > 0 {
        Some(trim(l.skip(ps[0].len() as int)))
    } else {
        line_model(l, ps.drop_first())
    }
}

/// The model named by the first line of `ls` that names one.
pub open spec fn first_model(ls: Seq<Seq<char>>) -> Option<Seq<char>>
    decreases ls.len(),
{
    if ls.len() == 0 {
        None
    } else {
        match line_model(ls[0], model_prefixes()) {
            Some(m) => Some(m),
            None => first_model(ls.drop_first()),
        }
    }
}

/// The first line of `ls` that is not blank, trimmed.
pub open spec fn first_nonblank(ls: Seq<Seq<char>>) -> Option<Seq<char>>
    decreases ls.len(),
{
    if ls.len() == 0 {
        None
    } else if trim(ls[0]).len() > 0 {
        Some(trim(ls[0]))
    } else {
        first_nonblank(ls.drop_first())
    }
}

/// The text of `s` before its first `','` (all of `s` when there is none).
pub open spec fn before_comma(s: Seq<char>) -> Seq<char> {
    if exists|i: int| 0 <= i < s.len() && s[i] == ',' {
        let k = choose|k: int|
            0 <= k < s.len() && s[k] == ',' && forall|j: int| 0 <= j < k ==> s[j] != ',';
        s.take(k)
    } else {
        s
    }
}

// ─── Helpers ───────────────────────────────────────────────────────────────

proof fn lemma_field_after_split(ls: Seq<Seq<char>>, p: Seq<char>, i: int)
    requires
        0 <= i <= ls.len(),
        forall|k: int| 0 <= k < i ==> !starts_with(ls[k], p),
    ensures
        field_after(ls, p) == field_after(ls.skip(i), p),
    decreases i,
{
    if i > 0 {
        assert forall|k: int| 0 <= k < i - 1 implies !starts_with(ls.drop_first()[k], p) by {
            assert(ls.drop_first()[k] == ls[k + 1]);
        }
        lemma_field_after_split(ls.drop_first(), p, i - 1);
        assert(ls.drop_first().skip(i - 1) =~= ls.skip(i));
    } else {
        assert(ls.skip(0) =~= ls);
    }
}

proof fn lemma_last_field_after_take(ls: Seq<Seq<char>>, p: Seq<char>, i: int)
    requires
        0 <= i < ls.len(),
    ensures
        last_field_after(ls.take(i + 1), p) == if starts_with(ls[i], p) {
            Some(ls[i].skip(p.len() as int))
        } else {
            last_field_after(ls.take(i), p)
        },
{
    assert(ls.take(i + 1).last() == ls[i]);
    assert(ls.take(i + 1).drop_last() =~= ls.take(i));
}

/// The number after `p` on the first line of `text` that starts with `p`.
fn find_prefixed_number(text: &str, p: &str, max: u64) -> (r: Option<u64>)
    requires
        max >= 9,
    ensures
        opt_nat(r) == prefixed_number(text@, p@, max as nat),
{
    let chars = chars_of(text);
    let pc = chars_of(p);
    let ls = split_lines(&chars);
    let ghost all = ls.deep_view();
    let mut i: usize = 0;
    while i < ls.len()
        invariant
            all == ls.deep_view(),
            all == lines(text@),
            pc@ == p@,
            i <= ls.len(),
            max >= 9,
            forall|k: int| 0 <= k < i ==> !starts_with(all[k], p@),
        decreases ls.len() - i,
    {
        assert(ls[i as int].deep_view() =~= ls[i as int]@);
        if starts_with_chars(&ls[i], &pc) {
            proof {
                lemma_field_after_split(all, p@, i as int);
                assert(all.skip(i as int)[0] == all[i as int]);
            }
            let rest = slice_to_vec(&ls[i], pc.len(), ls[i].len());
            assert(rest@ =~= all[i as int].skip(p@.len() as int));
            let words = split_whitespace(&rest);
            if words.len() == 0 {
                return None;
            }
            assert(words[0].deep_view() =~= words[0]@);
            return parse_unsigned_chars(&words[0], max);
        }
        i = i + 1;
    }
    proof {
        lemma_field_after_split(all, p@, i as int);
    }
    None
}

/// The number after `p` on the last line of `text` that starts with `p`.
fn find_last_prefixed_number(text: &str, p: &str) -> (r: Option<u64>)
    ensures
        opt_nat(r) == last_prefixed_number(text@, p@, u64::MAX as nat),
{
    let chars = chars_of(text);
    let pc = chars_of(p);
    let ls = split_lines(&chars);
    let ghost all = ls.deep_view();
    let mut found: Option<u64> = None;
    let mut any = false;
    let mut i: usize = 0;
    assert(all.take(0) =~= Seq::<Seq<char>>::empty());
    while i < ls.len()
        invariant
            all == ls.deep_view(),
            all == lines(text@),
            pc@ == p@,
            i <= ls.len(),
            any == (last_field_after(all.take(i as int), p@) is Some),
            any ==> opt_nat(found) == first_word_number(
                last_field_after(all.take(i as int), p@)->0,
                u64::MAX as nat,
            ),
            !any ==> found is None,
        decreases ls.len() - i,
    {
        assert(ls[i as int].deep_view() =~= ls[i as int]@);
        proof {
            lemma_last_field_after_take(all, p@, i as int);
        }
        if starts_with_chars(&ls[i], &pc) {
            let rest = slice_to_vec(&ls[i], pc.len(), ls[i].len());
            assert(rest@ =~= all[i as int].skip(p@.len() as int));
            let words = split_whitespace(&rest);
            if words.len() == 0 {
                found = None;
            } else {
                assert(words[0].deep_view() =~= words[0]@);
                found = parse_u64_chars(&words[0]);
            }
            any = true;
        }
        i = i + 1;
    }
    assert(all.take(ls.len() as int) =~= all);
    found
}

// ─── Parsers ───────────────────────────────────────────────────────────────

/// Extract `VmRSS: N kB` from `/proc/<pid>/status`, returning N in KiB.
pub fn parse_rss_kib(status: &str) -> (r: Option<u64>)
    ensures
        opt_nat(r) == prefixed_number(status@, "VmRSS:"@, u64::MAX as nat),
{
    find_prefixed_number(status, "VmRSS:", u64::MAX)
}

/// The voluntary and non-voluntary context-switch counts of
/// `/proc/<pid>/status`, each taken from the last line that reports it.
pub fn context_switch_counts(status: &str) -> (r: (Option<u64>, Option<u64>))
    ensures
        opt_nat(r.0) == last_prefixed_number(status@, "voluntary_ctxt_switches:"@, u64::MAX as nat),
        opt_nat(r.1) == last_prefixed_number(status@, "nonvoluntary_ctxt_switches:"@, u64::MAX as nat),
{
    (
        find_last_prefixed_number(status, "voluntary_ctxt_switches:"),
        find_last_prefixed_number(status, "nonvoluntary_ctxt_switches:"),
    )
}

/// Sum `voluntary_ctxt_switches` + `nonvoluntary_ctxt_switches` from
/// `/proc/<pid>/status`.
pub fn parse_context_switches(status: &str) -> (r: Option<u64>)
    requires
        sum_present(
            last_prefixed_number(status@, "voluntary_ctxt_switches:"@, u64::MAX as nat),
            last_prefixed_number(status@, "nonvoluntary_ctxt_switches:"@, u64::MAX as nat),
        ) matches Some(t) ==> t <= u64::MAX,
    ensures
        opt_nat(r) == sum_present(
            last_prefixed_number(status@, "voluntary_ctxt_switches:"@, u64::MAX as nat),
            last_prefixed_number(status@, "nonvoluntary_ctxt_switches:"@, u64::MAX as nat),
        ),
{
    let (voluntary, nonvoluntary) = context_switch_counts(status);
    match (voluntary, nonvoluntary) {
        (Some(v), Some(nv)) => Some(v + nv),
        (Some(v), None) => Some(v),
        (None, Some(nv)) => Some(nv),
        (None, None) => None,
    }
}


/// `utime` and `stime` (jiffies) from `/proc/<pid>/stat` (fields 14 and 15).
///
/// The comm field may contain spaces, so the fields are counted from the last `)`.
pub fn cpu_time_fields(stat: &str) -> (r: Option<(u64, u64)>)
    ensures
        match r {
            Some((u, s)) => cpu_fields_spec(stat@) == Some((u as nat, s as nat)),
            None => cpu_fields_spec(stat@) is None,
        },
{
    let chars = chars_of(stat);
    let after_comm = match rfind_char(&chars, ')') {
        Some(k) => k,
        None => {
            return None;
        },
    };
    proof {
        let k = choose|k: int|
            0 <= k < stat@.len() && stat@[k] == ')' && forall|j: int| k < j < stat@.len()
                ==> stat@[j] != ')';
        assert(k == after_comm) by {
            if k < after_comm {
                assert(stat@[after_comm as int] == ')');
            }
            if k > after_comm {
                assert(stat@[k] == ')');
            }
        }
    }
    let rest = slice_to_vec(&chars, after_comm + 1, chars.len());
    assert(rest@ =~= stat@.skip(after_comm + 1));
    let fields = split_whitespace(&rest);
    if fields.len() <= 12 {
        return None;
    }
    assert(fields[11].deep_view() =~= fields[11]@);
    assert(fields[12].deep_view() =~= fields[12]@);
    let utime = match parse_u64_chars(&fields[11]) {
        Some(v) => v,
        None => {
            return None;
        },
    };
    let stime = match parse_u64_chars(&fields[12]) {
        Some(v) => v,
        None => {
            return None;
        },
    };
    Some((utime, stime))
}

/// Extract `utime + stime` (jiffies) from `/proc/<pid>/stat` (fields 14 and 15).
pub fn parse_cpu_jiffies(stat: &str) -> (r: Option<u64>)
    requires
        cpu_jiffies_spec(stat@) matches Some(t) ==> t <= u64::MAX,
    ensures
        opt_nat(r) == cpu_jiffies_spec(stat@),
{
    match cpu_time_fields(stat) {
        Some((utime, stime)) => Some(utime + stime),
        None => None,
    }
}

proof fn lemma_count_xrun_take(ls: Seq<Seq<char>>, i: int)
    requires
        0 <= i < ls.len(),
    ensures
        count_xrun_lines(ls.take(i + 1)) == count_xrun_lines(ls.take(i)) + if is_xrun_line(ls[i]) {
            1nat
        } else {
            0nat
        },
        count_xrun_lines(ls.take(i)) <= i,
    decreases i,
{
    assert(ls.take(i + 1).drop_last() =~= ls.take(i));
    if i > 0 {
        lemma_count_xrun_take(ls, i - 1);
    }
}

/// Count XRUN-related lines in `aplay` stderr/stdout output.
///
/// `aplay` writes lines like `aplay: xrun.c:380: ...` or just `XRUN` on
/// underrun events.
pub fn count_xruns_in_aplay_output(text: &str) -> (r: u64)
    ensures
        r == count_xrun_lines(lines(text@)),
{
    let chars = chars_of(text);
    let ls = split_lines(&chars);
    let ghost all = ls.deep_view();
    let xrun = chars_of("xrun");
    let overrun = chars_of("overrun");
    let underrun = chars_of("underrun");
    let mut count: u64 = 0;
    let mut i: usize = 0;
    assert(all.take(0) =~= Seq::<Seq<char>>::empty());
    while i < ls.len()
        invariant
            all == ls.deep_view(),
            all == lines(text@),
            xrun@ == "xrun"@,
            overrun@ == "overrun"@,
            underrun@ == "underrun"@,
            i <= ls.len(),
            count == count_xrun_lines(all.take(i as int)),
            count <= i,
        decreases ls.len() - i,
    {
        assert(ls[i as int].deep_view() =~= ls[i as int]@);
        proof {
            lemma_count_xrun_take(all, i as int);
        }
        let low = lower_chars(&ls[i]);
        if contains_chars(&low, &xrun) || contains_chars(&low, &overrun) || contains_chars(
            &low,
            &underrun,
        ) {
            count = count + 1;
        }
        i = i + 1;
    }
    assert(all.take(ls.len() as int) =~= all);
    count
}

proof fn lemma_first_model_split(ls: Seq<Seq<char>>, i: int)
    requires
        0 <= i <= ls.len(),
        forall|k: int| 0 <= k < i ==> line_model(#[trigger] ls[k], model_prefixes()) is None,
    ensures
        first_model(ls) == first_model(ls.skip(i)),
    decreases i,
{
    if i > 0 {
        assert forall|k: int| 0 <= k < i - 1 implies line_model(
            #[trigger] ls.drop_first()[k],
            model_prefixes(),
        ) is None by {
            assert(ls.drop_first()[k] == ls[k + 1]);
        }
        lemma_first_model_split(ls.drop_first(), i - 1);
        assert(ls.drop_first().skip(i - 1) =~= ls.skip(i));
    } else {
        assert(ls.skip(0) =~= ls);
    }
}

/// The model named by one `/proc/cpuinfo` line, if any.
fn model_of_line(line: &Vec<char>, prefixes: &Vec<Vec<char>>) -> (r: Option<Vec<char>>)
    requires
        prefixes.deep_view() == model_prefixes(),
    ensures
        match r {
            Some(m) => line_model(line@, model_prefixes()) == Some(m@),
            None => line_model(line@, model_prefixes()) is None,
        },
{
    let mut j: usize = 0;
    assert(model_prefixes().skip(0) =~= model_prefixes());
    while j < prefixes.len()
        invariant
            prefixes.deep_view() == model_prefixes(),
            j <= prefixes.len(),
            line_model(line@, model_prefixes()) == line_model(line@, model_prefixes().skip(j as int)),
        decreases prefixes.len() - j,
    {
        let ghost ps = model_prefixes().skip(j as int);
        assert(prefixes[j as int].deep_view() =~= prefixes[j as int]@);
        assert(ps[0] == prefixes[j as int]@);
        assert(ps.drop_first() =~= model_prefixes().skip(j + 1));
        if starts_with_chars(line, &prefixes[j]) {
            let rest = slice_to_vec(line, prefixes[j].len(), line.len());
            let val = trim_chars(&rest);
            if val.len() > 0 {
                return Some(val);
            }
        }
        j = j + 1;
    }
    assert(model_prefixes().skip(j as int) =~= Seq::<Seq<char>>::empty());
    None
}

/// Extract the Raspberry Pi hardware/model string from `/proc/cpuinfo`.
pub fn parse_pi_model(cpuinfo: &str) -> (r: String)
    ensures
        r@ == match first_model(lines(cpuinfo@)) {
            Some(m) => m,
            None => "unknown"@,
        },
{
    let prefixes: Vec<Vec<char>> = vec![
        chars_of("Model\t\t:"),
        chars_of("Model\t:"),
        chars_of("Hardware\t:"),
        chars_of("Hardware:"),
    ];
    assert(prefixes.deep_view() =~= model_prefixes()) by {
        assert(prefixes[0].deep_view() =~= prefixes[0]@);
        assert(prefixes[1].deep_view() =~= prefixes[1]@);
        assert(prefixes[2].deep_view() =~= prefixes[2]@);
        assert(prefixes[3].deep_view() =~= prefixes[3]@);
    }
    let chars = chars_of(cpuinfo);
    let ls = split_lines(&chars);
    let ghost all = ls.deep_view();
    let mut i: usize = 0;
    while i < ls.len()
        invariant
            all == ls.deep_view(),
            all == lines(cpuinfo@),
            prefixes.deep_view() == model_prefixes(),
            i <= ls.len(),
            forall|k: int| 0 <= k < i ==> line_model(#[trigger] all[k], model_prefixes()) is None,
        decreases ls.len() - i,
    {
        assert(ls[i as int].deep_view() =~= ls[i as int]@);
        match model_of_line(&ls[i], &prefixes) {
            Some(m) => {
                proof {
                    lemma_first_model_split(all, i as int);
                    assert(all.skip(i as int)[0] == all[i as int]);
                }
                return string_of(&m);
            },
            None => {},
        }
        i = i + 1;
    }
    proof {
        lemma_first_model_split(all, i as int);
        assert(all.skip(i as int) =~= Seq::<Seq<char>>::empty());
    }
    "unknown".to_string()
}

proof fn lemma_first_nonblank_split(ls: Seq<Seq<char>>, i: int)
    requires
        0 <= i <= ls.len(),
        forall|k: int| 0 <= k < i ==> trim(#[trigger] ls[k]).len() == 0,
    ensures
        first_nonblank(ls) == first_nonblank(ls.skip(i)),
    decreases i,
{
    if i > 0 {
        assert forall|k: int| 0 <= k < i - 1 implies trim(#[trigger] ls.drop_first()[k]).len()
            == 0 by {
            assert(ls.drop_first()[k] == ls[k + 1]);
        }
        lemma_first_nonblank_split(ls.drop_first(), i - 1);
        assert(ls.drop_first().skip(i - 1) =~= ls.skip(i));
    } else {
        assert(ls.skip(0) =~= ls);
    }
}

/// Trim the first non-empty line from a piCorePlayer version file.
pub fn parse_pcp_version(text: &str) -> (r: String)
    ensures
        r@ == match first_nonblank(lines(text@)) {
            Some(l) => l,
            None => "unknown"@,
        },
{
    let chars = chars_of(text);
    let ls = split_lines(&chars);
    let ghost all = ls.deep_view();
    let mut i: usize = 0;
    while i < ls.len()
        invariant
            all == ls.deep_view(),
            all == lines(text@),
            i <= ls.len(),
            forall|k: int| 0 <= k < i ==> trim(#[trigger] all[k]).len() == 0,
        decreases ls.len() - i,
    {
        assert(ls[i as int].deep_view() =~= ls[i as int]@);
        let t = trim_chars(&ls[i]);
        if t.len() > 0 {
            proof {
                lemma_first_nonblank_split(all, i as int);
                assert(all.skip(i as int)[0] == all[i as int]);
            }
            return string_of(&t);
        }
        i = i + 1;
    }
    proof {
        lemma_first_nonblank_split(all, i as int);
        assert(all.skip(i as int) =~= Seq::<Seq<char>>::empty());
    }
    "unknown".to_string()
}

/// The characters of `s` before its first `','` (`s.split(',').next()`).
pub fn before_comma_chars(s: &[char]) -> (r: Vec<char>)
    ensures
        r@ == before_comma(s@),
{
    match find_char(s, ',') {
        Some(k) => {
            proof {
                let c = choose|c: int|
                    0 <= c < s@.len() && s@[c] == ',' && forall|j: int| 0 <= j < c ==> s@[j] != ',';
                assert(c == k) by {
                    if c < k {
                        assert(s@[c] == ',');
                    }
                    if c > k {
                        assert(s@[k as int] == ',');
                    }
                }
            }
            slice_to_vec(s, 0, k)
        },
        None => {
            assert(s@.subrange(0, s.len() as int) =~= s@);
            slice_to_vec(s, 0, s.len())
        },
    }
}

/// Derive the aloop playback PCM device from the HCTL control device name.
///
/// The player writes to `hw:<card>,1,0` while the controller reads HCTL
/// events on `hw:<card>,0`.
pub fn aloop_playback_device(control_device: &str) -> (r: String)
    ensures
        r@ == before_comma(control_device@) + ",1,0"@,
{
    let chars = chars_of(control_device);
    let card = before_comma_chars(&chars);
    let mut out = string_of(&card);
    out.append(",1,0");
    out
}

/// Parse `rate: N ...` from a `/proc/asound/card*/pcm*/sub*/hw_params` file.
pub fn parse_proc_hwparams_rate(text: &str) -> (r: Option<u32>)
    ensures
        opt_nat32(r) == prefixed_number(text@, "rate:"@, u32::MAX as nat),
{
    match find_prefixed_number(text, "rate:", u32::MAX as u64) {
        Some(v) => Some(v as u32),
        None => None,
    }
}

/// Parse `period_size: N` from a `/proc/asound/card*/pcm*/sub*/hw_params` file.
pub fn parse_proc_hwparams_period_size(text: &str) -> (r: Option<u64>)
    ensures
        opt_nat(r) == prefixed_number(text@, "period_size:"@, u64::MAX as nat),
{
    find_prefixed_number(text, "period_size:", u64::MAX)
}

} // verus!
