//! A YAML document tree: the values a CamillaDSP config file holds, and
//! the mapping operations the controller performs on them.
//!
//! Mappings keep their entries in document order; inserting an existing key
//! replaces its value where it stands, inserting a new key appends it.
use crate::json::JsonNumber;
use crate::text::{contains, contains_chars, chars_of, str_eq};
use vstd::prelude::*;

verus! {

/// A YAML value.
#[derive(Debug, PartialEq)]
pub enum Yaml {
    Null,
    Bool(bool),
    Number(JsonNumber),
    Str(String),
    Sequence(Vec<Yaml>),
    /// Entries in document order; keys are distinct.
    Mapping(Vec<(Yaml, Yaml)>),
    /// A value with a YAML tag.
    Tagged(String, Box<Yaml>),
}

/// The mathematical value of a number.
pub enum NumV {
    PosInt(u64),
    NegInt(i64),
    Float(Seq<char>),
}

/// The mathematical value of a YAML value.
pub enum YVal {
    Null,
    Bool(bool),
    Num(NumV),
    Str(Seq<char>),
    List(Seq<YVal>),
    Dict(Seq<(YVal, YVal)>),
    Tagged(Seq<char>, Box<YVal>),
}

/// The view of a number.
pub open spec fn numv(n: JsonNumber) -> NumV {
    match n {
        JsonNumber::PosInt(v) => NumV::PosInt(v),
        JsonNumber::NegInt(v) => NumV::NegInt(v),
        JsonNumber::Float(t) => NumV::Float(t@),
    }
}

/// The view of a YAML value.
pub open spec fn yv(y: Yaml) -> YVal
    decreases y,
{
    match y {
        Yaml::Null => YVal::Null,
        Yaml::Bool(b) => YVal::Bool(b),
        Yaml::Number(n) => YVal::Num(numv(n)),
        Yaml::Str(s) => YVal::Str(s@),
        Yaml::Sequence(items) => YVal::List(yvs(items@)),
        Yaml::Mapping(entries) => YVal::Dict(yms(entries@)),
        Yaml::Tagged(t, b) => YVal::Tagged(t@, Box::new(yv(*b))),
    }
}

/// The views of a list of values.
pub open spec fn yvs(s: Seq<Yaml>) -> Seq<YVal>
    decreases s,
{
    if s.len() == 0 {
        seq![]
    } else {
        seq![yv(s[0])] + yvs(s.drop_first())
    }
}

/// The views of a list of entries.
pub open spec fn yms(s: Seq<(Yaml, Yaml)>) -> Seq<(YVal, YVal)>
    decreases s,
{
    if s.len() == 0 {
        seq![]
    } else {
        seq![(yv(s[0].0), yv(s[0].1))] + yms(s.drop_first())
    }
}

pub proof fn lemma_yvs(s: Seq<Yaml>)
    ensures
        yvs(s).len() == s.len(),
        forall|i: int| 0 <= i < s.len() ==> #[trigger] yvs(s)[i] == yv(s[i]),
    decreases s.len(),
{
    if s.len() > 0 {
        lemma_yvs(s.drop_first());
        assert forall|i: int| 0 <= i < s.len() implies #[trigger] yvs(s)[i] == yv(s[i]) by {
            if i > 0 {
                assert(s.drop_first()[i - 1] == s[i]);
            }
        }
    }
}

pub proof fn lemma_yms(s: Seq<(Yaml, Yaml)>)
    ensures
        yms(s).len() == s.len(),
        forall|i: int| 0 <= i < s.len() ==> #[trigger] yms(s)[i] == (yv(s[i].0), yv(s[i].1)),
    decreases s.len(),
{
    if s.len() > 0 {
        lemma_yms(s.drop_first());
        assert forall|i: int| 0 <= i < s.len() implies #[trigger] yms(s)[i] == (yv(s[i].0), yv(s[i].1)) by {
            if i > 0 {
                assert(s.drop_first()[i - 1] == s[i]);
            }
        }
    }
}

/// Sequences with the same views element by element have the same views.
pub proof fn lemma_yvs_ext(a: Seq<Yaml>, b: Seq<Yaml>)
    requires
        a.len() == b.len(),
        forall|i: int| 0 <= i < a.len() ==> yv(#[trigger] a[i]) == yv(b[i]),
    ensures
        yvs(a) == yvs(b),
{
    lemma_yvs(a);
    lemma_yvs(b);
    assert(yvs(a) =~= yvs(b));
}

/// Entry lists with the same views entry by entry have the same views.
pub proof fn lemma_yms_ext(a: Seq<(Yaml, Yaml)>, b: Seq<(Yaml, Yaml)>)
    requires
        a.len() == b.len(),
        forall|i: int| 0 <= i < a.len() ==> yv(#[trigger] a[i].0) == yv(b[i].0) && yv(a[i].1) == yv(b[i].1),
    ensures
        yms(a) == yms(b),
{
    lemma_yms(a);
    lemma_yms(b);
    assert forall|i: int| 0 <= i < a.len() implies yms(a)[i] == yms(b)[i] by {
        assert(yv(a[i].0) == yv(b[i].0));
    }
    assert(yms(a) =~= yms(b));
}

/// A copy of a number.
pub fn clone_number(n: &JsonNumber) -> (r: JsonNumber)
    ensures
        numv(r) == numv(*n),
{
    match n {
        JsonNumber::PosInt(v) => JsonNumber::PosInt(*v),
        JsonNumber::NegInt(v) => JsonNumber::NegInt(*v),
        JsonNumber::Float(t) => JsonNumber::Float(t.clone()),
    }
}

/// A deep copy of a value.
pub fn clone_yaml(y: &Yaml) -> (r: Yaml)
    ensures
        yv(r) == yv(*y),
    decreases y,
{
    match y {
        Yaml::Null => Yaml::Null,
        Yaml::Bool(b) => Yaml::Bool(*b),
        Yaml::Number(n) => Yaml::Number(clone_number(n)),
        Yaml::Str(s) => Yaml::Str(s.clone()),
        Yaml::Sequence(items) => {
            let mut out: Vec<Yaml> = Vec::new();
            let mut i: usize = 0;
            while i < items.len()
                invariant
                    *y == Yaml::Sequence(*items),
                    i <= items.len(),
                    out.len() == i,
                    forall|k: int| 0 <= k < i ==> yv(#[trigger] out@[k]) == yv(items@[k]),
                decreases items.len() - i,
            {
                proof {
                    assert(decreases_to!(*y => (*y)->Sequence_0));
                    assert(decreases_to!(*items => items@));
                    assert(decreases_to!(items@ => items@[i as int]));
                }
                let c = clone_yaml(&items[i]);
                out.push(c);
                i = i + 1;
            }
            proof {
                lemma_yvs_ext(out@, items@);
            }
            Yaml::Sequence(out)
        },
        Yaml::Mapping(entries) => {
            let mut out: Vec<(Yaml, Yaml)> = Vec::new();
            let mut i: usize = 0;
            while i < entries.len()
                invariant
                    *y == Yaml::Mapping(*entries),
                    i <= entries.len(),
                    out.len() == i,
                    forall|k: int|
                        0 <= k < i ==> yv(#[trigger] out@[k].0) == yv(entries@[k].0) && yv(out@[k].1)
                            == yv(entries@[k].1),
                decreases entries.len() - i,
            {
                proof {
                    assert(decreases_to!(*y => (*y)->Mapping_0));
                    assert(decreases_to!(*entries => entries@));
                    assert(decreases_to!(entries@ => entries@[i as int]));
                    assert(decreases_to!(entries@[i as int] => entries@[i as int].0));
                    assert(decreases_to!(entries@[i as int] => entries@[i as int].1));
                }
                let k = clone_yaml(&entries[i].0);
                let v = clone_yaml(&entries[i].1);
                out.push((k, v));
                i = i + 1;
            }
            proof {
                lemma_yms_ext(out@, entries@);
            }
            Yaml::Mapping(out)
        },
        Yaml::Tagged(t, b) => {
            let inner = clone_yaml(&**b);
            Yaml::Tagged(t.clone(), Box::new(inner))
        },
    }
}

/// The value of the first entry of `m` whose key is `k`.
pub open spec fn dict_get(m: Seq<(YVal, YVal)>, k: YVal) -> Option<YVal>
    decreases m.len(),
{
    if m.len() == 0 {
        None
    } else if m[0].0 == k {
        Some(m[0].1)
    } else {
        dict_get(m.drop_first(), k)
    }
}

/// The index of the first entry of `m` whose key is `k`, if any.
pub open spec fn dict_index(m: Seq<(YVal, YVal)>, k: YVal) -> Option<int>
    decreases m.len(),
{
    if m.len() == 0 {
        None
    } else if m[0].0 == k {
        Some(0)
    } else {
        match dict_index(m.drop_first(), k) {
            Some(i) => Some(i + 1),
            None => None,
        }
    }
}

/// `m` with `k` set to `v`: replaced where the key stands, else appended.
pub open spec fn dict_insert(m: Seq<(YVal, YVal)>, k: YVal, v: YVal) -> Seq<(YVal, YVal)> {
    match dict_index(m, k) {
        Some(i) => m.update(i, (k, v)),
        None => m.push((k, v)),
    }
}

/// The member `key` of a mapping, `None` for other values (`Value::get`).
pub open spec fn get_member(v: YVal, key: Seq<char>) -> Option<YVal> {
    match v {
        YVal::Dict(m) => dict_get(m, YVal::Str(key)),
        _ => None,
    }
}

pub proof fn lemma_dict_index(m: Seq<(YVal, YVal)>, k: YVal, i: int)
    requires
        0 <= i <= m.len(),
        forall|j: int| 0 <= j < i ==> (#[trigger] m[j]).0 != k,
        i == m.len() || m[i].0 == k,
    ensures
        dict_index(m, k) == (if i == m.len() {
            None
        } else {
            Some(i)
        }),
        dict_get(m, k) == (if i == m.len() {
            None
        } else {
            Some(m[i].1)
        }),
    decreases m.len(),
{
    if m.len() == 0 {
    } else if m[0].0 == k {
    } else {
        assert forall|j: int| 0 <= j < i - 1 implies (#[trigger] m.drop_first()[j]).0 != k by {
            assert(m.drop_first()[j] == m[j + 1]);
        }
        lemma_dict_index(m.drop_first(), k, i - 1);
    }
}

pub proof fn lemma_dict_index_hit(m: Seq<(YVal, YVal)>, k: YVal)
    ensures
        dict_index(m, k) matches Some(i) ==> 0 <= i < m.len() && m[i].0 == k && dict_get(m, k) == Some(
            m[i].1,
        ),
        dict_index(m, k) is None ==> dict_get(m, k) is None,
    decreases m.len(),
{
    if m.len() > 0 && m[0].0 != k {
        lemma_dict_index_hit(m.drop_first(), k);
    }
}

proof fn lemma_get_update(m: Seq<(YVal, YVal)>, i: int, k: YVal, v: YVal, k2: YVal)
    requires
        0 <= i < m.len(),
        m[i].0 == k,
        dict_index(m, k) == Some(i),
    ensures
        dict_get(m.update(i, (k, v)), k2) == if k2 == k {
            Some(v)
        } else {
            dict_get(m, k2)
        },
    decreases m.len(),
{
    let u = m.update(i, (k, v));
    if i == 0 {
        assert(u.drop_first() =~= m.drop_first());
    } else {
        assert(m[0].0 != k);
        if m[0].0 != k2 {
            assert(u.drop_first() =~= m.drop_first().update(i - 1, (k, v)));
            assert(m.drop_first()[i - 1] == m[i]);
            lemma_get_update(m.drop_first(), i - 1, k, v, k2);
        }
    }
}

proof fn lemma_get_push(m: Seq<(YVal, YVal)>, k: YVal, v: YVal, k2: YVal)
    requires
        dict_index(m, k) is None,
    ensures
        dict_get(m.push((k, v)), k2) == if k2 == k {
            Some(v)
        } else {
            dict_get(m, k2)
        },
    decreases m.len(),
{
    if m.len() == 0 {
        assert(m.push((k, v)).drop_first() =~= Seq::<(YVal, YVal)>::empty());
    } else {
        assert(m.push((k, v)).drop_first() =~= m.drop_first().push((k, v)));
        if m[0].0 != k2 {
            lemma_get_push(m.drop_first(), k, v, k2);
        }
    }
}

/// Reading back after [`dict_insert`]: the key inserted gives the value
/// inserted, every other key what it gave before.
pub proof fn lemma_dict_insert_get(m: Seq<(YVal, YVal)>, k: YVal, v: YVal, k2: YVal)
    ensures
        dict_get(dict_insert(m, k, v), k2) == if k2 == k {
            Some(v)
        } else {
            dict_get(m, k2)
        },
{
    lemma_dict_index_hit(m, k);
    match dict_index(m, k) {
        Some(i) => lemma_get_update(m, i, k, v, k2),
        None => lemma_get_push(m, k, v, k2),
    }
}

/// The index of the entry of `entries` whose key is the string `key`.
pub fn find_key(entries: &Vec<(Yaml, Yaml)>, key: &str) -> (r: Option<usize>)
    ensures
        ({
            let m = yms(entries@);
            &&& dict_index(m, YVal::Str(key@)) == match r {
                Some(i) => Some(i as int),
                None => None::<int>,
            }
            &&& r matches Some(i) ==> i < entries.len() && dict_get(m, YVal::Str(key@)) == Some(
                yv(entries@[i as int].1),
            )
            &&& r is None ==> dict_get(m, YVal::Str(key@)) is None
        }),
{
    let ghost m = yms(entries@);
    proof {
        lemma_yms(entries@);
    }
    let mut i: usize = 0;
    while i < entries.len()
        invariant
            i <= entries.len(),
            m == yms(entries@),
            m.len() == entries.len(),
            forall|j: int| 0 <= j < i ==> (#[trigger] m[j]).0 != YVal::Str(key@),
            forall|j: int| 0 <= j < entries.len() ==> #[trigger] m[j] == (yv(entries@[j].0), yv(entries@[j].1)),
        decreases entries.len() - i,
    {
        let hit = match &entries[i].0 {
            Yaml::Str(s) => str_eq(s.as_str(), key),
            _ => false,
        };
        if hit {
            proof {
                lemma_dict_index(m, YVal::Str(key@), i as int);
            }
            return Some(i);
        }
        i = i + 1;
    }
    proof {
        lemma_dict_index(m, YVal::Str(key@), i as int);
    }
    None
}

/// The member `key` of a mapping (`Value::get` with a string key).
pub fn get_str<'a>(v: &'a Yaml, key: &str) -> (r: Option<&'a Yaml>)
    ensures
        match r {
            Some(x) => get_member(yv(*v), key@) == Some(yv(*x)),
            None => get_member(yv(*v), key@) is None,
        },
{
    match v {
        Yaml::Mapping(entries) => match find_key(entries, key) {
            Some(i) => Some(&entries[i].1),
            None => None,
        },
        _ => None,
    }
}

/// Set the entry `key` of the mapping `entries` to `value`, in place where
/// it stands or appended.
pub fn insert_str(entries: &mut Vec<(Yaml, Yaml)>, key: &str, value: Yaml)
    ensures
        yms(final(entries)@) == dict_insert(yms(old(entries)@), YVal::Str(key@), yv(value)),
{
    let ghost old_m = yms(entries@);
    proof {
        lemma_yms(entries@);
    }
    match find_key(entries, key) {
        Some(i) => {
            let ghost before = entries@;
            let k = Yaml::Str(key.to_string());
            entries.set(i, (k, value));
            proof {
                lemma_yms(entries@);
                assert(yms(entries@) =~= old_m.update(i as int, (YVal::Str(key@), yv(value))));
            }
        },
        None => {
            let ghost before = entries@;
            entries.push((Yaml::Str(key.to_string()), value));
            proof {
                lemma_yms(entries@);
                assert(yms(entries@) =~= old_m.push((YVal::Str(key@), yv(value))));
            }
        },
    }
}

/// The kind of a value, as the config error messages name it.
pub open spec fn kind_name(v: YVal) -> Seq<char> {
    match v {
        YVal::Null => "null"@,
        YVal::Bool(_) => "bool"@,
        YVal::Num(_) => "number"@,
        YVal::Str(_) => "string"@,
        YVal::List(_) => "array"@,
        YVal::Dict(_) => "object"@,
        YVal::Tagged(_, _) => "tagged"@,
    }
}

/// The kind of a value.
pub fn kind_str(v: &Yaml) -> (s: &'static str)
    ensures
        s@ == kind_name(yv(*v)),
{
    match v {
        Yaml::Null => "null",
        Yaml::Bool(_) => "bool",
        Yaml::Number(_) => "number",
        Yaml::Str(_) => "string",
        Yaml::Sequence(_) => "array",
        Yaml::Mapping(_) => "object",
        Yaml::Tagged(_, _) => "tagged",
    }
}

/// Whether some string in `v` (mapping values, list items and tagged
/// values searched; mapping keys not) contains `p`.
pub open spec fn has_text(v: YVal, p: Seq<char>) -> bool
    decreases v,
{
    match v {
        YVal::Str(s) => contains(s, p),
        YVal::List(items) => list_has_text(items, p),
        YVal::Dict(m) => dict_has_text(m, p),
        YVal::Tagged(_, b) => has_text(*b, p),
        _ => false,
    }
}

/// Whether some item of `s` has a string containing `p`.
pub open spec fn list_has_text(s: Seq<YVal>, p: Seq<char>) -> bool
    decreases s,
{
    if s.len() == 0 {
        false
    } else {
        has_text(s[0], p) || list_has_text(s.drop_first(), p)
    }
}

/// Whether some value of `m` has a string containing `p`.
pub open spec fn dict_has_text(m: Seq<(YVal, YVal)>, p: Seq<char>) -> bool
    decreases m,
{
    if m.len() == 0 {
        false
    } else {
        has_text(m[0].1, p) || dict_has_text(m.drop_first(), p)
    }
}

/// Whether some string in `v` contains `p`.
pub fn contains_text(v: &Yaml, p: &str) -> (b: bool)
    ensures
        b == has_text(yv(*v), p@),
    decreases v,
{
    match v {
        Yaml::Str(s) => {
            let sc = chars_of(s.as_str());
            let pc = chars_of(p);
            contains_chars(sc.as_slice(), pc.as_slice())
        },
        Yaml::Sequence(items) => {
            let mut i: usize = items.len();
            let mut found = false;
            proof {
                assert(items@.skip(i as int) =~= Seq::<Yaml>::empty());
            }
            while i > 0
                invariant
                    *v == Yaml::Sequence(*items),
                    i <= items.len(),
                    found == list_has_text(yvs(items@.skip(i as int)), p@),
                decreases i,
            {
                proof {
                    assert(decreases_to!(*v => (*v)->Sequence_0));
                    assert(decreases_to!(*items => items@));
                    assert(decreases_to!(items@ => items@[i - 1]));
                }
                let here = contains_text(&items[i - 1], p);
                proof {
                    let t = items@.skip(i - 1);
                    assert(t.drop_first() =~= items@.skip(i as int));
                    assert(t[0] == items@[i - 1]);
                    assert(yvs(t) == seq![yv(t[0])] + yvs(t.drop_first()));
                    assert(yvs(t)[0] == yv(t[0]));
                    assert(yvs(t).drop_first() =~= yvs(t.drop_first()));
                }
                found = here || found;
                i = i - 1;
            }
            proof {
                assert(items@.skip(0) =~= items@);
            }
            found
        },
        Yaml::Mapping(entries) => {
            let mut i: usize = entries.len();
            let mut found = false;
            proof {
                assert(entries@.skip(i as int) =~= Seq::<(Yaml, Yaml)>::empty());
            }
            while i > 0
                invariant
                    *v == Yaml::Mapping(*entries),
                    i <= entries.len(),
                    found == dict_has_text(yms(entries@.skip(i as int)), p@),
                decreases i,
            {
                proof {
                    assert(decreases_to!(*v => (*v)->Mapping_0));
                    assert(decreases_to!(*entries => entries@));
                    assert(decreases_to!(entries@ => entries@[i - 1]));
                    assert(decreases_to!(entries@[i - 1] => entries@[i - 1].1));
                }
                let here = contains_text(&entries[i - 1].1, p);
                proof {
                    let t = entries@.skip(i - 1);
                    assert(t.drop_first() =~= entries@.skip(i as int));
                    assert(t[0] == entries@[i - 1]);
                    assert(yms(t) == seq![(yv(t[0].0), yv(t[0].1))] + yms(t.drop_first()));
                    assert(yms(t)[0] == (yv(t[0].0), yv(t[0].1)));
                    assert(yms(t).drop_first() =~= yms(t.drop_first()));
                }
                found = here || found;
                i = i - 1;
            }
            proof {
                assert(entries@.skip(0) =~= entries@);
            }
            found
        },
        Yaml::Tagged(_, b) => contains_text(&**b, p),
        _ => false,
    }
}

} // verus!
