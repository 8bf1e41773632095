//! A plain JSON value type that the library's logic reads and builds,
//! together with its mathematical model. Objects keep their entries as a
//! list of key/value pairs; well-formed values have distinct keys in
//! every object. Numbers are integers: the credential formats this
//! library produces and checks carry no fractional values.

use vstd::prelude::*;
use crate::strutil::eq_str;

verus! {

/// The mathematical shape of a JSON value, used by every contract.
#[verifier::ext_equal]
pub enum JsonModel {
    Null,
    Bool(bool),
    Int(int),
    Str(Seq<char>),
    Array(Seq<JsonModel>),
    Object(Seq<(Seq<char>, JsonModel)>),
}

/// The value the entry list holds under `key`: the first match.
pub open spec fn entries_get(entries: Seq<(Seq<char>, JsonModel)>, key: Seq<char>) -> JsonModel
    decreases entries.len(),
{
    if entries.len() == 0 {
        JsonModel::Null
    } else if entries[0].0 == key {
        entries[0].1
    } else {
        entries_get(entries.drop_first(), key)
    }
}

impl JsonModel {
    /// Every object in the value has pairwise-distinct keys.
    pub open spec fn wf(self) -> bool
        decreases self,
    {
        match self {
            JsonModel::Null => true,
            JsonModel::Bool(_) => true,
            JsonModel::Int(_) => true,
            JsonModel::Str(_) => true,
            JsonModel::Array(items) => forall|i: int|
                0 <= i < items.len() ==> (#[trigger] items[i]).wf(),
            JsonModel::Object(entries) => {
                &&& forall|i: int, j: int|
                    0 <= i < j < entries.len() ==> (#[trigger] entries[i]).0 != (
                    #[trigger] entries[j]).0
                &&& forall|i: int| 0 <= i < entries.len() ==> (#[trigger] entries[i]).1.wf()
            },
        }
    }

    /// Whether an object holds an entry under `key`; false for non-objects.
    pub open spec fn has_key(self, key: Seq<char>) -> bool {
        match self {
            JsonModel::Object(entries) => exists|i: int|
                0 <= i < entries.len() && (#[trigger] entries[i]).0 == key,
            _ => false,
        }
    }

    /// The value an object holds under `key` (the first match).
    pub open spec fn get_key(self, key: Seq<char>) -> JsonModel
        recommends
            self.has_key(key),
    {
        match self {
            JsonModel::Object(entries) => entries_get(entries, key),
            _ => JsonModel::Null,
        }
    }
}

/// One key/value entry of an executable JSON object.
#[derive(Debug)]
pub struct JsonEntry {
    pub key: String,
    pub value: JsonValue,
}

/// An executable JSON value.
#[derive(Debug)]
pub enum JsonValue {
    Null,
    Bool(bool),
    Int(i64),
    Str(String),
    Array(Vec<JsonValue>),
    Object(Vec<JsonEntry>),
}

/// The model of an executable JSON value.
pub open spec fn jm_of(v: JsonValue) -> JsonModel
    decreases v,
{
    match v {
        JsonValue::Null => JsonModel::Null,
        JsonValue::Bool(b) => JsonModel::Bool(b),
        JsonValue::Int(n) => JsonModel::Int(n as int),
        JsonValue::Str(s) => JsonModel::Str(s@),
        JsonValue::Array(items) => JsonModel::Array(jm_of_seq(items@)),
        JsonValue::Object(entries) => JsonModel::Object(jm_of_entries(entries@)),
    }
}

/// The models of a sequence of values, element by element.
pub open spec fn jm_of_seq(items: Seq<JsonValue>) -> Seq<JsonModel>
    decreases items,
{
    if items.len() == 0 {
        Seq::empty()
    } else {
        seq![jm_of(items[0])] + jm_of_seq(items.drop_first())
    }
}

/// The models of a list of object entries, entry by entry.
pub open spec fn jm_of_entries(entries: Seq<JsonEntry>) -> Seq<(Seq<char>, JsonModel)>
    decreases entries,
{
    if entries.len() == 0 {
        Seq::empty()
    } else {
        seq![(entries[0].key@, jm_of(entries[0].value))] + jm_of_entries(entries.drop_first())
    }
}

pub broadcast proof fn lemma_jm_of_seq_index(items: Seq<JsonValue>)
    ensures
        (#[trigger] jm_of_seq(items)).len() == items.len(),
        forall|i: int| 0 <= i < items.len() ==> jm_of_seq(items)[i] == jm_of(items[i]),
    decreases items,
{
    if items.len() > 0 {
        lemma_jm_of_seq_index(items.drop_first());
    }
}

pub broadcast proof fn lemma_jm_of_entries_index(entries: Seq<JsonEntry>)
    ensures
        (#[trigger] jm_of_entries(entries)).len() == entries.len(),
        forall|i: int|
            0 <= i < entries.len() ==> jm_of_entries(entries)[i] == (
            entries[i].key@,
            jm_of(entries[i].value),
            ),
    decreases entries,
{
    if entries.len() > 0 {
        lemma_jm_of_entries_index(entries.drop_first());
    }
}

impl View for JsonValue {
    type V = JsonModel;

    open spec fn view(&self) -> JsonModel {
        jm_of(*self)
    }
}

impl DeepView for JsonValue {
    type V = JsonModel;

    open spec fn deep_view(&self) -> JsonModel {
        jm_of(*self)
    }
}

impl Clone for JsonValue {
    #[verifier::loop_isolation(false)]
    fn clone(&self) -> (res: Self)
        ensures
            res@ == self@,
        decreases *self,
    {
        match self {
            JsonValue::Null => JsonValue::Null,
            JsonValue::Bool(b) => JsonValue::Bool(*b),
            JsonValue::Int(n) => JsonValue::Int(*n),
            JsonValue::Str(s) => JsonValue::Str(s.clone()),
            JsonValue::Array(items) => {
                let mut out: Vec<JsonValue> = Vec::new();
                let n = items.len();
                let mut i: usize = 0;
                while i < n
                    invariant
                        i <= n,
                        out@.len() == i,
                        forall|j: int| 0 <= j < i ==> (#[trigger] out@[j])@ == items@[j]@,
                    decreases n - i,
                {
                    proof {
                        assert(decreases_to!(*self => self->Array_0));
                        assert(decreases_to!(self->Array_0 => self->Array_0@[i as int]));
                        assert(self->Array_0@[i as int] == items@[i as int]);
                    }
                    out.push(items[i].clone());
                    i = i + 1;
                }
                proof {
                    lemma_jm_of_seq_index(items@);
                    lemma_jm_of_seq_index(out@);
                    assert(jm_of_seq(out@) =~= jm_of_seq(items@));
                }
                JsonValue::Array(out)
            },
            JsonValue::Object(entries) => {
                let mut out: Vec<JsonEntry> = Vec::new();
                let n = entries.len();
                let mut i: usize = 0;
                while i < n
                    invariant
                        i <= n,
                        out@.len() == i,
                        forall|j: int|
                            0 <= j < i ==> (#[trigger] out@[j]).key@ == entries@[j].key@
                                && out@[j].value@ == entries@[j].value@,
                    decreases n - i,
                {
                    proof {
                        assert(decreases_to!(*self => self->Object_0));
                        assert(decreases_to!(self->Object_0 => self->Object_0@[i as int]));
                        assert(decreases_to!(self->Object_0@[i as int] => self->Object_0@[i as int].value));
                        assert(self->Object_0@[i as int] == entries@[i as int]);
                    }
                    let key = entries[i].key.clone();
                    let value = entries[i].value.clone();
                    out.push(JsonEntry { key, value });
                    i = i + 1;
                }
                proof {
                    lemma_jm_of_entries_index(entries@);
                    lemma_jm_of_entries_index(out@);
                    assert(jm_of_entries(out@) =~= jm_of_entries(entries@));
                }
                JsonValue::Object(out)
            },
        }
    }
}

/// Under a prefix that holds no match, the first match lies in the rest.
proof fn lemma_entries_get_skip(entries: Seq<(Seq<char>, JsonModel)>, key: Seq<char>, i: int)
    requires
        0 <= i <= entries.len(),
        forall|j: int| 0 <= j < i ==> (#[trigger] entries[j]).0 != key,
    ensures
        entries_get(entries, key) == entries_get(entries.skip(i), key),
    decreases i,
{
    if i > 0 {
        lemma_entries_get_skip(entries.drop_first(), key, i - 1);
        assert(entries.drop_first().skip(i - 1) =~= entries.skip(i));
    } else {
        assert(entries.skip(0) =~= entries);
    }
}

/// The first match decides: an entry whose key matches, with no match
/// before it, is what the lookup returns.
pub proof fn lemma_entries_get_at(entries: Seq<(Seq<char>, JsonModel)>, key: Seq<char>, i: int)
    requires
        0 <= i < entries.len(),
        entries[i].0 == key,
        forall|j: int| 0 <= j < i ==> (#[trigger] entries[j]).0 != key,
    ensures
        entries_get(entries, key) == entries[i].1,
{
    lemma_entries_get_skip(entries, key, i);
    assert(entries.skip(i)[0] == entries[i]);
}

impl JsonValue {
    /// Look an entry up by key; `None` for non-objects and absent keys.
    #[verifier::loop_isolation(false)]
    pub fn get<'a>(&'a self, key: &str) -> (r: Option<&'a JsonValue>)
        ensures
            match r {
                Some(v) => self@.has_key(key@) && v@ == self@.get_key(key@),
                None => !self@.has_key(key@),
            },
    {
        match self {
            JsonValue::Object(entries) => {
                proof {
                    lemma_jm_of_entries_index(entries@);
                }
                let n = entries.len();
                let mut i: usize = 0;
                while i < n
                    invariant
                        i <= n,
                        forall|j: int| 0 <= j < i ==> (#[trigger] entries@[j]).key@ != key@,
                    decreases n - i,
                {
                    if eq_str(entries[i].key.as_str(), key) {
                        proof {
                            lemma_entries_get_skip(jm_of_entries(entries@), key@, i as int);
                            assert(jm_of_entries(entries@).skip(i as int)[0] == (
                            entries@[i as int].key@,
                            jm_of(entries@[i as int].value),
                            ));
                        }
                        return Some(&entries[i].value);
                    }
                    i = i + 1;
                }
                None
            },
            _ => None,
        }
    }

    /// Whether an object holds an entry under `key`.
    pub fn has_key(&self, key: &str) -> (r: bool)
        ensures
            r == self@.has_key(key@),
    {
        self.get(key).is_some()
    }
}

} // verus!
