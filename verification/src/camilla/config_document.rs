//! A schema-light CamillaDSP config document.
//!
//! The document is the config's YAML tree. The controller only reads the
//! few `devices.*` paths it needs and patches the one rate field that must
//! change; everything else is carried through untouched. A config that uses
//! the `$samplerate$` token is never patched.
use crate::text::{chars_of, concat2, concat3, split_char, split_on_char, string_of};
use crate::yaml::{
    clone_yaml, contains_text, dict_get, dict_index, dict_insert, find_key, get_member, get_str,
    has_text, insert_str, kind_name, kind_str, lemma_dict_index_hit, lemma_dict_insert_get, lemma_yms, yms, yv,
    YVal, Yaml,
};
use vstd::prelude::*;

verus! {

/// A schema-light CamillaDSP config document: a YAML tree whose top level
/// is a mapping.
#[derive(Debug)]
pub struct ConfigDocument {
    inner: Yaml,
}

impl View for ConfigDocument {
    type V = YVal;

    closed spec fn view(&self) -> YVal {
        yv(self.inner)
    }
}

/// Why a document could not be built or patched.
#[derive(Debug, Clone)]
pub struct ConfigDocumentError(pub String);

impl ConfigDocumentError {
    /// The message, as `Display` renders it.
    pub fn to_string(&self) -> (s: String)
        ensures
            s@ == "ConfigDocument error: "@ + self.0@,
    {
        concat2("ConfigDocument error: ", self.0.as_str())
    }
}

/// The value at the key path `keys` below `v`, if every key is present.
pub open spec fn path_get(v: YVal, keys: Seq<Seq<char>>) -> Option<YVal>
    decreases keys.len(),
{
    if keys.len() == 0 {
        Some(v)
    } else {
        match get_member(v, keys[0]) {
            Some(c) => path_get(c, keys.drop_first()),
            None => None,
        }
    }
}

/// The value at a dotted path such as `"devices.samplerate"`.
pub open spec fn dotted_get(v: YVal, path: Seq<char>) -> Option<YVal> {
    path_get(v, split_char(path, '.'))
}

/// `v` with the value at the key path `keys` set to `value`: every key but
/// the last must name an existing member, and the last is set in the
/// mapping reached. The error says which key failed.
pub open spec fn path_set(v: YVal, keys: Seq<Seq<char>>, value: YVal) -> Result<YVal, Seq<char>>
    decreases keys.len(),
{
    if keys.len() == 0 {
        Ok(value)
    } else {
        let key = keys[0];
        match v {
            YVal::Dict(m) => if keys.len() == 1 {
                Ok(YVal::Dict(dict_insert(m, YVal::Str(key), value)))
            } else {
                match dict_get(m, YVal::Str(key)) {
                    None => Err("path component `"@ + key + "` not found in config"@),
                    Some(child) => match path_set(child, keys.drop_first(), value) {
                        Ok(c2) => Ok(YVal::Dict(dict_insert(m, YVal::Str(key), c2))),
                        Err(e) => Err(e),
                    },
                }
            },
            other => Err("expected an object at `"@ + key + "`, found "@ + kind_name(other)),
        }
    }
}

proof fn lemma_path_set_get(v: YVal, keys: Seq<Seq<char>>, x: YVal)
    requires
        path_set(v, keys, x) is Ok,
    ensures
        path_get(path_set(v, keys, x)->Ok_0, keys) == Some(x),
    decreases keys.len(),
{
    if keys.len() > 0 {
        let key = keys[0];
        if let YVal::Dict(m) = v {
            if keys.len() == 1 {
                lemma_dict_insert_get(m, YVal::Str(key), x, YVal::Str(key));
                let t = YVal::Dict(dict_insert(m, YVal::Str(key), x));
                assert(get_member(t, key) == Some(x));
                assert(path_get(x, keys.drop_first()) == Some(x));
            } else {
                let child = dict_get(m, YVal::Str(key))->0;
                lemma_path_set_get(child, keys.drop_first(), x);
                let c2 = path_set(child, keys.drop_first(), x)->Ok_0;
                lemma_dict_insert_get(m, YVal::Str(key), c2, YVal::Str(key));
                let t = YVal::Dict(dict_insert(m, YVal::Str(key), c2));
                assert(get_member(t, key) == Some(c2));
            }
        }
    }
}

/// Two key paths branch apart: at some position both have a key, and the
/// keys differ.
pub open spec fn branch_apart(a: Seq<Seq<char>>, b: Seq<Seq<char>>) -> bool {
    exists|i: int| 0 <= i < a.len() && i < b.len() && a[i] != b[i]
}

proof fn lemma_path_set_other(v: YVal, keys: Seq<Seq<char>>, x: YVal, other: Seq<Seq<char>>)
    requires
        path_set(v, keys, x) is Ok,
        branch_apart(keys, other),
    ensures
        path_get(path_set(v, keys, x)->Ok_0, other) == path_get(v, other),
    decreases keys.len(),
{
    let i = choose|i: int| 0 <= i < keys.len() && i < other.len() && keys[i] != other[i];
    let key = keys[0];
    if let YVal::Dict(m) = v {
        if keys[0] != other[0] {
            if keys.len() == 1 {
                lemma_dict_insert_get(m, YVal::Str(key), x, YVal::Str(other[0]));
            } else {
                let c2 = path_set(dict_get(m, YVal::Str(key))->0, keys.drop_first(), x)->Ok_0;
                lemma_dict_insert_get(m, YVal::Str(key), c2, YVal::Str(other[0]));
            }
        } else {
            assert(i > 0);
            let child = dict_get(m, YVal::Str(key))->0;
            assert(keys.drop_first()[i - 1] != other.drop_first()[i - 1]);
            lemma_path_set_other(child, keys.drop_first(), x, other.drop_first());
            let c2 = path_set(child, keys.drop_first(), x)->Ok_0;
            lemma_dict_insert_get(m, YVal::Str(key), c2, YVal::Str(key));
        }
    }
}

/// Reading a dotted path back after setting it gives the value that was set.
pub proof fn law_document_reads_back_what_was_set(doc: YVal, path: Seq<char>, value: YVal)
    requires
        path_set(doc, split_char(path, '.'), value) is Ok,
    ensures
        dotted_get(path_set(doc, split_char(path, '.'), value)->Ok_0, path) == Some(value),
{
    lemma_path_set_get(doc, split_char(path, '.'), value);
}

/// Setting a dotted path leaves every path that branches apart from it as
/// it was: a patch changes nothing but the field it names.
pub proof fn law_document_set_keeps_other_paths(doc: YVal, path: Seq<char>, value: YVal, other: Seq<char>)
    requires
        path_set(doc, split_char(path, '.'), value) is Ok,
        branch_apart(split_char(path, '.'), split_char(other, '.')),
    ensures
        dotted_get(path_set(doc, split_char(path, '.'), value)->Ok_0, other) == dotted_get(doc, other),
{
    lemma_path_set_other(doc, split_char(path, '.'), value, split_char(other, '.'));
}

/// The message when a config holds the `$samplerate$` token.
pub open spec fn token_message() -> Seq<char> {
    "$samplerate$ token detected in config; cannot safely patch the rate field — use a fixed DSP rate + resampler or separate per-rate configs as alternatives"@
}

/// Whether the config has a resampler: `devices.resampler` is present and not null.
pub open spec fn resampler_present(v: YVal) -> bool {
    match dotted_get(v, "devices.resampler"@) {
        Some(YVal::Null) => false,
        None => false,
        Some(_) => true,
    }
}

/// Set the value at `keys[k..]` below `root`; consumes the tree.
fn set_path(root: Yaml, keys: &Vec<Vec<char>>, k: usize, value: Yaml) -> (r: Result<Yaml, String>)
    requires
        k < keys.len(),
    ensures
        match path_set(yv(root), keys.deep_view().skip(k as int), yv(value)) {
            Ok(t) => r matches Ok(y) && yv(y) == t,
            Err(m) => r matches Err(e) && e@ == m,
        },
    decreases keys.len() - k,
{
    let ghost ks = keys.deep_view().skip(k as int);
    proof {
        assert(ks[0] == keys@[k as int]@);
        assert(ks.drop_first() =~= keys.deep_view().skip(k as int + 1));
    }
    let key = string_of(keys[k].as_slice());
    match root {
        Yaml::Mapping(mut entries) => {
            let ghost m = yms(entries@);
            if k + 1 == keys.len() {
                insert_str(&mut entries, key.as_str(), value);
                Ok(Yaml::Mapping(entries))
            } else {
                match find_key(&entries, key.as_str()) {
                    None => {
                        let head = concat3("path component `", key.as_str(), "` not found in config");
                        Err(head)
                    },
                    Some(i) => {
                        proof {
                            lemma_dict_index_hit(m, YVal::Str(key@));
                            lemma_yms(entries@);
                        }
                        let (ek, child) = entries.remove(i);
                        let c2 = set_path(child, keys, k + 1, value)?;
                        let ghost c2v = yv(c2);
                        entries.insert(i, (ek, c2));
                        proof {
                            lemma_yms(entries@);
                            assert(yms(entries@) =~= m.update(i as int, (YVal::Str(key@), c2v)));
                        }
                        Ok(Yaml::Mapping(entries))
                    },
                }
            }
        },
        other => {
            let head = concat3("expected an object at `", key.as_str(), "`, found ");
            Err(concat2(head.as_str(), kind_str(&other)))
        },
    }
}

impl ConfigDocument {
    /// A document from a parsed YAML tree, which must be a mapping at the top level.
    pub fn from_tree(tree: Yaml) -> (r: Result<ConfigDocument, ConfigDocumentError>)
        ensures
            match r {
                Ok(d) => d@ == yv(tree) && yv(tree) is Dict,
                Err(e) => !(yv(tree) is Dict) && e.0@ == "config must be a YAML mapping at the top level"@,
            },
    {
        match tree {
            Yaml::Mapping(_) => Ok(ConfigDocument { inner: tree }),
            _ => Err(ConfigDocumentError("config must be a YAML mapping at the top level".to_string())),
        }
    }

    /// The YAML tree, for serialising the document.
    pub fn tree(&self) -> (t: &Yaml)
        ensures
            yv(*t) == self@,
    {
        &self.inner
    }

    /// The value at a dotted path (e.g. `"devices.samplerate"`), `None` if
    /// any component is absent.
    pub fn get(&self, path: &str) -> (r: Option<&Yaml>)
        ensures
            match r {
                Some(v) => dotted_get(self@, path@) == Some(yv(*v)),
                None => dotted_get(self@, path@) is None,
            },
    {
        let keys = split_on_char(chars_of(path).as_slice(), '.');
        let ghost ks = keys.deep_view();
        let mut current: &Yaml = &self.inner;
        let mut i: usize = 0;
        proof {
            assert(ks.skip(0) =~= ks);
        }
        while i < keys.len()
            invariant
                i <= keys.len(),
                ks == keys.deep_view(),
                ks.len() == keys.len(),
                ks == split_char(path@, '.'),
                path_get(self@, ks) == path_get(yv(*current), ks.skip(i as int)),
            decreases keys.len() - i,
        {
            proof {
                assert(ks.skip(i as int)[0] == keys@[i as int]@);
                assert(ks.skip(i as int).drop_first() =~= ks.skip(i as int + 1));
            }
            let key = string_of(keys[i].as_slice());
            match get_str(current, key.as_str()) {
                Some(c) => {
                    current = c;
                },
                None => {
                    return None;
                },
            }
            i = i + 1;
        }
        proof {
            assert(ks.skip(i as int) =~= Seq::<Seq<char>>::empty());
        }
        Some(current)
    }

    /// A copy of the document with the value at `path` set to `value`.
    /// Refused for a document holding the `$samplerate$` token, and where an
    /// intermediate path component is missing or not a mapping.
    pub fn with_path_value(&self, path: &str, value: Yaml) -> (r: Result<ConfigDocument, ConfigDocumentError>)
        ensures
            has_text(self@, "$samplerate$"@) ==> (r matches Err(e) && e.0@ == token_message()),
            !has_text(self@, "$samplerate$"@) ==> match path_set(
                self@,
                split_char(path@, '.'),
                yv(value),
            ) {
                Ok(t) => r matches Ok(d) && d@ == t,
                Err(m) => r matches Err(e) && e.0@ == m,
            },
    {
        if self.has_samplerate_token() {
            return Err(
                ConfigDocumentError(
                    "$samplerate$ token detected in config; cannot safely patch the rate field — use a fixed DSP rate + resampler or separate per-rate configs as alternatives".to_string(),
                ),
            );
        }
        let keys = split_on_char(chars_of(path).as_slice(), '.');
        proof {
            assert(keys.deep_view().skip(0) =~= keys.deep_view());
            assert(keys.deep_view().len() == keys.len());
        }
        let cloned = clone_yaml(&self.inner);
        match set_path(cloned, &keys, 0, value) {
            Ok(t) => Ok(ConfigDocument { inner: t }),
            Err(m) => Err(ConfigDocumentError(m)),
        }
    }

    /// Whether a resampler is configured: `devices.resampler` is a non-null value.
    pub fn has_resampler(&self) -> (b: bool)
        ensures
            b == resampler_present(self@),
    {
        match self.get("devices.resampler") {
            Some(Yaml::Null) => false,
            None => false,
            Some(_) => true,
        }
    }

    /// The rate field to patch for a source-rate change: the capture rate
    /// when a resampler is configured, else the DSP rate.
    pub fn rate_field_path(&self) -> (p: &'static str)
        ensures
            p@ == if resampler_present(self@) {
                "devices.capture_samplerate"@
            } else {
                "devices.samplerate"@
            },
    {
        if self.has_resampler() {
            "devices.capture_samplerate"
        } else {
            "devices.samplerate"
        }
    }

    /// Whether any string value in the document contains `$samplerate$`.
    pub fn has_samplerate_token(&self) -> (b: bool)
        ensures
            b == has_text(self@, "$samplerate$"@),
    {
        contains_text(&self.inner, "$samplerate$")
    }
}

} // verus!
