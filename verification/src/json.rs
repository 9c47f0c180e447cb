//! A JSON document model: the values CamillaDSP's WebSocket API exchanges.
//!
//! Numbers keep the distinction JSON parsers make between non-negative
//! integers, negative integers and other numbers; the last are carried as
//! their JSON text.
use crate::text::{copy_string, push_char, push_decimal, str_eq, dec_string};
use vstd::prelude::*;

verus! {

/// A JSON number.
#[derive(Debug, PartialEq)]
pub enum JsonNumber {
    /// A non-negative integer.
    PosInt(u64),
    /// A negative integer.
    NegInt(i64),
    /// Any other number, as its JSON text.
    Float(String),
}

/// A JSON value.
#[derive(Debug, PartialEq)]
pub enum Json {
    Null,
    Bool(bool),
    Number(JsonNumber),
    Str(String),
    Array(Vec<Json>),
    /// Members in document order; keys are distinct.
    Object(Vec<(String, Json)>),
}

/// The JSON text of a non-negative integer or negative integer.
pub open spec fn int_text(n: int) -> Seq<char> {
    if n >= 0 {
        dec_string(n as nat)
    } else {
        seq!['-'] + dec_string((-n) as nat)
    }
}

/// The hex digit of `d` (lower case).
pub open spec fn hex_char(d: nat) -> char {
    if d < 10 {
        (('0' as u32) + d) as char
    } else {
        (('a' as u32) + (d - 10)) as char
    }
}

/// The JSON escape of one character inside a string literal.
pub open spec fn escape_char(c: char) -> Seq<char> {
    if c == '"' {
        seq!['\\', '"']
    } else if c == '\\' {
        seq!['\\', '\\']
    } else if c == '\n' {
        seq!['\\', 'n']
    } else if c == '\r' {
        seq!['\\', 'r']
    } else if c == '\t' {
        seq!['\\', 't']
    } else if (c as u32) == 8 {
        seq!['\\', 'b']
    } else if (c as u32) == 12 {
        seq!['\\', 'f']
    } else if (c as u32) < 32 {
        seq!['\\', 'u', '0', '0', hex_char(((c as u32) / 16) as nat), hex_char(((c as u32) % 16) as nat)]
    } else {
        seq![c]
    }
}

/// The escaped characters of a string.
pub open spec fn escape_seq(s: Seq<char>) -> Seq<char>
    decreases s.len(),
{
    if s.len() == 0 {
        seq![]
    } else {
        escape_seq(s.drop_last()) + escape_char(s.last())
    }
}

/// A quoted JSON string literal.
pub open spec fn string_text(s: Seq<char>) -> Seq<char> {
    seq!['"'] + escape_seq(s) + seq!['"']
}

/// The compact JSON text of a number.
pub open spec fn number_text(n: JsonNumber) -> Seq<char> {
    match n {
        JsonNumber::PosInt(v) => dec_string(v as nat),
        JsonNumber::NegInt(v) => int_text(v as int),
        JsonNumber::Float(t) => t@,
    }
}

/// The compact JSON text of a value, as `serde_json` writes it.
pub open spec fn json_text(j: Json) -> Seq<char>
    decreases j,
{
    match j {
        Json::Null => "null"@,
        Json::Bool(b) => if b {
            "true"@
        } else {
            "false"@
        },
        Json::Number(n) => number_text(n),
        Json::Str(s) => string_text(s@),
        Json::Array(items) => seq!['['] + items_text(items@) + seq![']'],
        Json::Object(members) => seq!['{'] + members_text(members@) + seq!['}'],
    }
}

/// Comma-separated texts of array items.
pub open spec fn items_text(items: Seq<Json>) -> Seq<char>
    decreases items,
{
    if items.len() == 0 {
        seq![]
    } else if items.len() == 1 {
        json_text(items[0])
    } else {
        json_text(items[0]) + seq![','] + items_text(items.drop_first())
    }
}

/// Comma-separated `"key":value` texts of object members.
pub open spec fn members_text(members: Seq<(String, Json)>) -> Seq<char>
    decreases members,
{
    if members.len() == 0 {
        seq![]
    } else {
        let m = string_text(members[0].0@) + seq![':'] + json_text(members[0].1);
        if members.len() == 1 {
            m
        } else {
            m + seq![','] + members_text(members.drop_first())
        }
    }
}

fn push_str(out: &mut String, s: &str)
    ensures
        final(out)@ == old(out)@ + s@,
{
    out.append(s);
}

fn hex_digit(d: u32) -> (c: char)
    requires
        d < 16,
    ensures
        c == hex_char(d as nat),
{
    if d < 10 {
        (48u8 + d as u8) as char
    } else {
        (97u8 + (d - 10) as u8) as char
    }
}

fn push_escaped_char(out: &mut String, c: char)
    ensures
        final(out)@ == old(out)@ + escape_char(c),
{
    let u = c as u32;
    if c == '"' {
        push_char(out, '\\');
        push_char(out, '"');
    } else if c == '\\' {
        push_char(out, '\\');
        push_char(out, '\\');
    } else if c == '\n' {
        push_char(out, '\\');
        push_char(out, 'n');
    } else if c == '\r' {
        push_char(out, '\\');
        push_char(out, 'r');
    } else if c == '\t' {
        push_char(out, '\\');
        push_char(out, 't');
    } else if u == 8 {
        push_char(out, '\\');
        push_char(out, 'b');
    } else if u == 12 {
        push_char(out, '\\');
        push_char(out, 'f');
    } else if u < 32 {
        push_char(out, '\\');
        push_char(out, 'u');
        push_char(out, '0');
        push_char(out, '0');
        push_char(out, hex_digit(u / 16));
        push_char(out, hex_digit(u % 16));
    } else {
        push_char(out, c);
    }
    assert(final(out)@ =~= old(out)@ + escape_char(c));
}

/// Append a quoted, escaped JSON string literal.
pub fn push_string_literal(out: &mut String, s: &str)
    ensures
        final(out)@ == old(out)@ + string_text(s@),
{
    let chars = crate::text::chars_of(s);
    let ghost start = out@;
    push_char(out, '"');
    let mut i: usize = 0;
    while i < chars.len()
        invariant
            chars@ == s@,
            i <= chars.len(),
            out@ == start + seq!['"'] + escape_seq(s@.take(i as int)),
        decreases chars.len() - i,
    {
        push_escaped_char(out, chars[i]);
        assert(s@.take(i + 1).drop_last() =~= s@.take(i as int));
        i = i + 1;
    }
    assert(s@.take(chars.len() as int) =~= s@);
    push_char(out, '"');
    assert(out@ =~= start + string_text(s@));
}

fn push_number(out: &mut String, n: &JsonNumber)
    ensures
        final(out)@ == old(out)@ + number_text(*n),
{
    match n {
        JsonNumber::PosInt(v) => push_decimal(out, *v),
        JsonNumber::NegInt(v) => {
            if *v >= 0 {
                push_decimal(out, *v as u64);
            } else {
                push_char(out, '-');
                let m: u64 = if *v == i64::MIN {
                    9_223_372_036_854_775_808u64
                } else {
                    (-*v) as u64
                };
                push_decimal(out, m);
                assert(out@ =~= old(out)@ + number_text(*n));
            }
        },
        JsonNumber::Float(t) => out.append(t.as_str()),
    }
}

/// Append the compact JSON text of `j`.
pub fn write_json(out: &mut String, j: &Json)
    ensures
        final(out)@ == old(out)@ + json_text(*j),
    decreases j,
{
    match j {
        Json::Null => push_str(out, "null"),
        Json::Bool(b) => {
            if *b {
                push_str(out, "true");
            } else {
                push_str(out, "false");
            }
        },
        Json::Number(n) => push_number(out, n),
        Json::Str(s) => push_string_literal(out, s.as_str()),
        Json::Array(items) => {
            let ghost start = out@;
            push_char(out, '[');
            let mut i: usize = 0;
            assert(items@.take(0) =~= Seq::<Json>::empty());
            while i < items.len()
                invariant
                    *j == Json::Array(*items),
                    i <= items.len(),
                    out@ == start + seq!['['] + items_text(items@.take(i as int)),
                decreases items.len() - i,
            {
                let ghost before = out@;
                if i > 0 {
                    push_char(out, ',');
                }
                assert(decreases_to!(*j => (*j)->Array_0));
                assert(decreases_to!((*j)->Array_0 => (*j)->Array_0@));
                assert(decreases_to!((*j)->Array_0@ => (*j)->Array_0@[i as int]));
                write_json(out, &items[i]);
                proof {
                    lemma_items_text_push(items@.take(i as int), items@[i as int]);
                    assert(items@.take(i + 1) =~= items@.take(i as int).push(items@[i as int]));
                }
                i = i + 1;
            }
            assert(items@.take(items.len() as int) =~= items@);
            push_char(out, ']');
            assert(out@ =~= start + json_text(*j));
        },
        Json::Object(members) => {
            let ghost start = out@;
            push_char(out, '{');
            let mut i: usize = 0;
            assert(members@.take(0) =~= Seq::<(String, Json)>::empty());
            while i < members.len()
                invariant
                    *j == Json::Object(*members),
                    i <= members.len(),
                    out@ == start + seq!['{'] + members_text(members@.take(i as int)),
                decreases members.len() - i,
            {
                if i > 0 {
                    push_char(out, ',');
                }
                let (k, v) = &members[i];
                push_string_literal(out, k.as_str());
                push_char(out, ':');
                assert(decreases_to!(*j => (*j)->Object_0));
                assert(decreases_to!((*j)->Object_0 => (*j)->Object_0@));
                assert(decreases_to!((*j)->Object_0@ => (*j)->Object_0@[i as int]));
                assert(decreases_to!((*j)->Object_0@[i as int] => (*j)->Object_0@[i as int].1));
                write_json(out, v);
                proof {
                    lemma_members_text_push(members@.take(i as int), members@[i as int]);
                    assert(members@.take(i + 1) =~= members@.take(i as int).push(members@[i as int]));
                }
                i = i + 1;
            }
            assert(members@.take(members.len() as int) =~= members@);
            push_char(out, '}');
            assert(out@ =~= start + json_text(*j));
        },
    }
}

proof fn lemma_items_text_push(items: Seq<Json>, x: Json)
    ensures
        items_text(items.push(x)) == if items.len() == 0 {
            json_text(x)
        } else {
            items_text(items) + seq![','] + json_text(x)
        },
    decreases items.len(),
{
    if items.len() == 0 {
    } else if items.len() == 1 {
        assert(items.push(x).drop_first() =~= seq![x]);
        assert(items_text(seq![x]) == json_text(seq![x][0]));
    } else {
        assert(items.push(x).drop_first() =~= items.drop_first().push(x));
        lemma_items_text_push(items.drop_first(), x);
    }
}

proof fn lemma_members_text_push(members: Seq<(String, Json)>, x: (String, Json))
    ensures
        members_text(members.push(x)) == if members.len() == 0 {
            string_text(x.0@) + seq![':'] + json_text(x.1)
        } else {
            members_text(members) + seq![','] + (string_text(x.0@) + seq![':'] + json_text(x.1))
        },
    decreases members.len(),
{
    if members.len() == 0 {
    } else if members.len() == 1 {
        assert(members.push(x).drop_first() =~= seq![x]);
        assert(members_text(seq![x]) == string_text(seq![x][0].0@) + seq![':'] + json_text(seq![x][0].1));
    } else {
        assert(members.push(x).drop_first() =~= members.drop_first().push(x));
        lemma_members_text_push(members.drop_first(), x);
    }
}

/// The compact JSON text of `j` (`Value::to_string`).
pub fn json_to_string(j: &Json) -> (s: String)
    ensures
        s@ == json_text(*j),
{
    let mut s = String::new();
    write_json(&mut s, j);
    assert(Seq::<char>::empty() + json_text(*j) =~= json_text(*j));
    s
}

/// The value of member `key` of an object: the first member with that key.
pub open spec fn member(members: Seq<(String, Json)>, key: Seq<char>) -> Option<Json>
    decreases members.len(),
{
    if members.len() == 0 {
        None
    } else if members[0].0@ == key {
        Some(members[0].1)
    } else {
        member(members.drop_first(), key)
    }
}

/// `Value::get(key)`: the member `key` of an object, `None` for other values.
pub open spec fn get_key(j: Json, key: Seq<char>) -> Option<Json> {
    match j {
        Json::Object(members) => member(members@, key),
        _ => None,
    }
}

proof fn lemma_member_skip(members: Seq<(String, Json)>, key: Seq<char>, i: int)
    requires
        0 <= i <= members.len(),
        forall|k: int| 0 <= k < i ==> (#[trigger] members[k]).0@ != key,
    ensures
        member(members, key) == member(members.skip(i), key),
    decreases i,
{
    if i > 0 {
        assert forall|k: int| 0 <= k < i - 1 implies (#[trigger] members.drop_first()[k]).0@ != key by {
            assert(members.drop_first()[k] == members[k + 1]);
        }
        lemma_member_skip(members.drop_first(), key, i - 1);
        assert(members.drop_first().skip(i - 1) =~= members.skip(i));
    } else {
        assert(members.skip(0) =~= members);
    }
}

/// `Value::get(key)` on an object.
pub fn get<'a>(j: &'a Json, key: &str) -> (r: Option<&'a Json>)
    ensures
        match r {
            Some(v) => get_key(*j, key@) == Some(*v),
            None => get_key(*j, key@) is None,
        },
{
    match j {
        Json::Object(members) => {
            let mut i: usize = 0;
            while i < members.len()
                invariant
                    *j == Json::Object(*members),
                    i <= members.len(),
                    forall|k: int| 0 <= k < i ==> (#[trigger] members@[k]).0@ != key@,
                decreases members.len() - i,
            {
                if str_eq(members[i].0.as_str(), key) {
                    proof {
                        lemma_member_skip(members@, key@, i as int);
                        assert(members@.skip(i as int)[0] == members@[i as int]);
                    }
                    return Some(&members[i].1);
                }
                i = i + 1;
            }
            proof {
                lemma_member_skip(members@, key@, i as int);
                assert(members@.skip(i as int) =~= Seq::<(String, Json)>::empty());
            }
            None
        },
        _ => None,
    }
}

/// `Value::as_str`: the text of a string value.
pub open spec fn as_str_spec(j: Json) -> Option<Seq<char>> {
    match j {
        Json::Str(s) => Some(s@),
        _ => None,
    }
}

/// `Value::as_u64`: the value of a non-negative integer.
pub open spec fn as_u64_spec(j: Json) -> Option<u64> {
    match j {
        Json::Number(JsonNumber::PosInt(v)) => Some(v),
        _ => None,
    }
}

} // verus!
