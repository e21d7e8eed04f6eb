//! JSON values: the type that event payloads, tool arguments and model messages are made of.
//!
//! [`Json`] is the executable type and [`JsonView`] its model. Text is read and written by
//! `serde_json`; everything else here is proved.

use crate::text::same;
use vstd::prelude::*;

verus! {

broadcast use vstd::string::group_string_axioms;

/// A JSON value. A number is a natural number, a negative integer or, where it is neither, the
/// text of the number. An object is its entries in order; a key is looked up from the front.
#[derive(Debug, PartialEq)]
pub enum Json {
    Null,
    Bool(bool),
    PosInt(u64),
    NegInt(i64),
    Float(String),
    Str(String),
    Arr(Vec<Json>),
    Obj(Vec<(String, Json)>),
}

/// The model of a [`Json`].
pub ghost enum JsonView {
    Null,
    Bool(bool),
    PosInt(u64),
    NegInt(i64),
    Float(Seq<char>),
    Str(Seq<char>),
    Arr(Seq<JsonView>),
    Obj(Seq<(Seq<char>, JsonView)>),
}

/// The model of `json`.
pub open spec fn json_view(json: Json) -> JsonView
    decreases json,
{
    match json {
        Json::Null => JsonView::Null,
        Json::Bool(b) => JsonView::Bool(b),
        Json::PosInt(n) => JsonView::PosInt(n),
        Json::NegInt(n) => JsonView::NegInt(n),
        Json::Float(t) => JsonView::Float(t@),
        Json::Str(s) => JsonView::Str(s@),
        Json::Arr(v) => JsonView::Arr(
            Seq::new(
                v@.len(),
                |i: int|
                    if 0 <= i < v@.len() {
                        json_view(v@[i])
                    } else {
                        JsonView::Null
                    },
            ),
        ),
        Json::Obj(v) => JsonView::Obj(
            Seq::new(
                v@.len(),
                |i: int|
                    if 0 <= i < v@.len() {
                        (v@[i].0@, json_view(v@[i].1))
                    } else {
                        (Seq::empty(), JsonView::Null)
                    },
            ),
        ),
    }
}

impl View for Json {
    type V = JsonView;

    open spec fn view(&self) -> JsonView {
        json_view(*self)
    }
}

/// The models of a list of values.
pub open spec fn json_views(v: Seq<Json>) -> Seq<JsonView> {
    v.map_values(|j: Json| j@)
}

/// The value that the first entry with the key `key` holds.
pub open spec fn lookup(entries: Seq<(Seq<char>, JsonView)>, key: Seq<char>) -> Option<JsonView>
    decreases entries.len(),
{
    if entries.len() == 0 {
        None
    } else if entries[0].0 == key {
        Some(entries[0].1)
    } else {
        lookup(entries.skip(1), key)
    }
}

/// The entries with the value under the key: in place of the first entry with it, else at the
/// end.
pub open spec fn set_entry(
    entries: Seq<(Seq<char>, JsonView)>,
    key: Seq<char>,
    value: JsonView,
) -> Seq<(Seq<char>, JsonView)>
    decreases entries.len(),
{
    if entries.len() == 0 {
        seq![(key, value)]
    } else if entries[0].0 == key {
        seq![(key, value)] + entries.skip(1)
    } else {
        seq![entries[0]] + set_entry(entries.skip(1), key, value)
    }
}

impl JsonView {
    /// The member `key` of an object.
    pub open spec fn get(self, key: Seq<char>) -> Option<JsonView> {
        match self {
            JsonView::Obj(entries) => lookup(entries, key),
            _ => None,
        }
    }

    /// The member `key` of an object, null where there is none.
    pub open spec fn at(self, key: Seq<char>) -> JsonView {
        match self.get(key) {
            Some(v) => v,
            None => JsonView::Null,
        }
    }

    /// The text of a string.
    pub open spec fn as_str(self) -> Option<Seq<char>> {
        match self {
            JsonView::Str(s) => Some(s),
            _ => None,
        }
    }

    /// An integer that fits in 64 signed bits.
    pub open spec fn as_i64(self) -> Option<i64> {
        match self {
            JsonView::PosInt(n) => if n <= i64::MAX {
                Some(n as i64)
            } else {
                None
            },
            JsonView::NegInt(n) => Some(n),
            _ => None,
        }
    }

    /// A natural number that fits in 64 bits.
    pub open spec fn as_u64(self) -> Option<u64> {
        match self {
            JsonView::PosInt(n) => Some(n),
            _ => None,
        }
    }

    /// A truth value.
    pub open spec fn as_bool(self) -> Option<bool> {
        match self {
            JsonView::Bool(b) => Some(b),
            _ => None,
        }
    }

    /// The items of an array.
    pub open spec fn as_array(self) -> Option<Seq<JsonView>> {
        match self {
            JsonView::Arr(items) => Some(items),
            _ => None,
        }
    }

    /// The text of the member `key`, where that member is a string.
    pub open spec fn str_at(self, key: Seq<char>) -> Option<Seq<char>> {
        self.at(key).as_str()
    }

    /// The empty object.
    pub open spec fn object() -> JsonView {
        JsonView::Obj(Seq::empty())
    }

    /// An object with one more entry behind the others.
    pub open spec fn with(self, key: Seq<char>, value: JsonView) -> JsonView {
        match self {
            JsonView::Obj(entries) => JsonView::Obj(entries.push((key, value))),
            _ => self,
        }
    }

    /// An object with the entry added where the key is not there yet.
    pub open spec fn with_default(self, key: Seq<char>, value: JsonView) -> JsonView {
        if self.get(key) is None {
            self.with(key, value)
        } else {
            self
        }
    }

    /// An object whose first entry with the key has the value, and where there is none has one
    /// more entry.
    pub open spec fn set(self, key: Seq<char>, value: JsonView) -> JsonView {
        match self {
            JsonView::Obj(entries) => JsonView::Obj(set_entry(entries, key, value)),
            _ => self,
        }
    }

    /// The item at place `i` of an array, null where there is none.
    pub open spec fn item(self, i: int) -> JsonView {
        match self {
            JsonView::Arr(items) => if 0 <= i < items.len() {
                items[i]
            } else {
                JsonView::Null
            },
            _ => JsonView::Null,
        }
    }

    /// The integer `n` as a value.
    pub open spec fn integer(n: int) -> JsonView {
        if n < 0 {
            JsonView::NegInt(n as i64)
        } else {
            JsonView::PosInt(n as u64)
        }
    }
}

/// What `serde_json` reads from a text: the value, or what it says of a text that is not JSON.
pub uninterp spec fn json_parsed(text: Seq<char>) -> Result<JsonView, Seq<char>>;

/// The value that `serde_json` reads from a text, none where the text is not JSON.
pub open spec fn json_read(text: Seq<char>) -> Option<JsonView> {
    match json_parsed(text) {
        Ok(v) => Some(v),
        Err(_) => None,
    }
}

/// The compact text that `serde_json` writes for a value.
pub uninterp spec fn json_written(value: JsonView) -> Seq<char>;

/// Whether a value is an object of texts, truth values and nulls in which no key occurs twice.
pub open spec fn is_flat(value: JsonView) -> bool {
    match value {
        JsonView::Obj(entries) => {
            &&& forall|i: int, j: int|
                #![trigger entries[i], entries[j]]
                0 <= i < j < entries.len() ==> entries[i].0 != entries[j].0
            &&& forall|i: int|
                0 <= i < entries.len() ==> ((#[trigger] entries[i]).1 is Str || entries[i].1 is Bool
                    || entries[i].1 is Null)
        },
        _ => false,
    }
}

/// Whether two values have the same members.
pub open spec fn same_members(a: JsonView, b: JsonView) -> bool {
    forall|key: Seq<char>| #[trigger] a.get(key) == b.get(key)
}

/// `serde_json::Value`, which the reader and the writer hand over.
#[verifier::external_type_specification]
#[verifier::external_body]
pub struct ExValue(serde_json::Value);

/// Turns a `serde_json::Value` into a [`Json`], variant for variant.
#[verifier::external_body]
fn json_from_value(value: serde_json::Value) -> Json {
    match value {
        serde_json::Value::Null => Json::Null,
        serde_json::Value::Bool(b) => Json::Bool(b),
        serde_json::Value::Number(n) => match (n.as_u64(), n.as_i64()) {
            (Some(u), _) => Json::PosInt(u),
            (None, Some(i)) => Json::NegInt(i),
            (None, None) => Json::Float(n.to_string()),
        },
        serde_json::Value::String(s) => Json::Str(s),
        serde_json::Value::Array(a) => Json::Arr(a.into_iter().map(json_from_value).collect()),
        serde_json::Value::Object(m) =>
            Json::Obj(m.into_iter().map(|(k, v)| (k, json_from_value(v))).collect()),
    }
}

/// Turns a [`Json`] into a `serde_json::Value`, variant for variant. A number that is kept as text
/// is read by `serde_json::from_str`; one that it does not take becomes null.
#[verifier::external_body]
fn json_to_value(json: &Json) -> serde_json::Value {
    match json {
        Json::Null => serde_json::Value::Null,
        Json::Bool(b) => serde_json::Value::Bool(*b),
        Json::PosInt(n) => serde_json::Value::from(*n),
        Json::NegInt(n) => serde_json::Value::from(*n),
        Json::Float(t) => serde_json::from_str(t).unwrap_or_default(),
        Json::Str(s) => serde_json::Value::String(s.clone()),
        Json::Arr(a) => serde_json::Value::Array(a.iter().map(json_to_value).collect()),
        Json::Obj(m) => serde_json::Value::Object(
            m.iter().map(|(k, v)| (k.clone(), json_to_value(v))).collect()),
    }
}

/// `serde_json::from_str` into a `serde_json::Value`. The result is a function of the text and is
/// named [`json_parsed`]; of a text that is refused it is what the error says by `Display`.
#[verifier::external_body]
fn read_json(text: &str) -> (r: Result<Json, String>)
    ensures
        match r {
            Ok(j) => json_parsed(text@) == Ok::<JsonView, Seq<char>>(j@),
            Err(e) => json_parsed(text@) == Err::<JsonView, Seq<char>>(e@),
        },
{
    match serde_json::from_str::<serde_json::Value>(text) {
        Ok(value) => Ok(json_from_value(value)),
        Err(e) => Err(e.to_string()),
    }
}

/// The compact form that `serde_json::Value` has by `Display`. It is a function of the value and
/// is named [`json_written`]. `serde_json` reads it back: stated of flat objects, whose members come
/// back as they were. Of other values nothing is stated: a number in an object may come back as
/// another float, and what is nested too deep is not read.
#[verifier::external_body]
fn write_json(json: &Json) -> (r: String)
    ensures
        r@ == json_written(json@),
        is_flat(json@) ==> json_read(r@) is Some && same_members(json_read(r@)->0, json@),
{
    json_to_value(json).to_string()
}

impl Clone for Json {
    fn clone(&self) -> (r: Self)
        ensures
            r@ == self@,
        decreases self,
    {
        match self {
            Json::Null => Json::Null,
            Json::Bool(b) => Json::Bool(*b),
            Json::PosInt(n) => Json::PosInt(*n),
            Json::NegInt(n) => Json::NegInt(*n),
            Json::Float(t) => Json::Float(t.clone()),
            Json::Str(s) => Json::Str(s.clone()),
            Json::Arr(v) => {
                let mut out: Vec<Json> = Vec::new();
                let mut i: usize = 0;
                while i < v.len()
                    invariant
                        i <= v@.len(),
                        self matches Json::Arr(w) && w == v,
                        out@.len() == i,
                        forall|k: int| 0 <= k < i ==> (#[trigger] out@[k])@ == v@[k]@,
                    decreases v@.len() - i,
                {
                    let item = v[i].clone();
                    out.push(item);
                    i = i + 1;
                }
                let r = Json::Arr(out);
                assert(r@->Arr_0 =~= self@->Arr_0);
                r
            },
            Json::Obj(v) => {
                let mut out: Vec<(String, Json)> = Vec::new();
                let mut i: usize = 0;
                while i < v.len()
                    invariant
                        i <= v@.len(),
                        self matches Json::Obj(w) && w == v,
                        out@.len() == i,
                        forall|k: int|
                            0 <= k < i ==> (#[trigger] out@[k]).0@ == v@[k].0@ && out@[k].1@
                                == v@[k].1@,
                    decreases v@.len() - i,
                {
                    let key = v[i].0.clone();
                    let item = v[i].1.clone();
                    out.push((key, item));
                    i = i + 1;
                }
                let r = Json::Obj(out);
                assert(r@->Obj_0 =~= self@->Obj_0);
                r
            },
        }
    }
}

impl Json {
    /// Reads a JSON text. None where `serde_json` refuses it.
    pub fn parse(text: &str) -> (r: Option<Json>)
        ensures
            match r {
                Some(j) => json_read(text@) == Some(j@),
                None => json_read(text@) is None,
            },
    {
        match read_json(text) {
            Ok(j) => Some(j),
            Err(_) => None,
        }
    }

    /// Reads a JSON text, or tells what `serde_json` says of it.
    pub fn parse_or_reason(text: &str) -> (r: Result<Json, String>)
        ensures
            match r {
                Ok(j) => json_parsed(text@) == Ok::<JsonView, Seq<char>>(j@),
                Err(e) => json_parsed(text@) == Err::<JsonView, Seq<char>>(e@),
            },
    {
        read_json(text)
    }

    /// The compact JSON text of the value. A flat object reads back with the members that it has.
    pub fn text(&self) -> (r: String)
        ensures
            r@ == json_written(self@),
            is_flat(self@) ==> json_read(r@) is Some && same_members(json_read(r@)->0, self@),
    {
        write_json(self)
    }

    /// The empty object.
    pub fn object() -> (r: Json)
        ensures
            r@ == JsonView::object(),
    {
        let r = Json::Obj(Vec::new());
        assert(r@->Obj_0 =~= Seq::empty());
        r
    }

    /// Adds an entry behind the others of an object.
    pub fn with(self, key: &str, value: Json) -> (r: Json)
        ensures
            r@ == self@.with(key@, value@),
    {
        match self {
            Json::Obj(v) => {
                let ghost before = Json::Obj(v)@->Obj_0;
                let mut entries = v;
                entries.push((key.to_owned(), value));
                let r = Json::Obj(entries);
                assert(r@->Obj_0 =~= before.push((key@, value@)));
                r
            },
            other => other,
        }
    }

    /// Adds an entry where the key is not there yet.
    pub fn with_default(self, key: &str, value: Json) -> (r: Json)
        ensures
            r@ == self@.with_default(key@, value@),
    {
        let absent = self.get(key).is_none();
        if absent {
            self.with(key, value)
        } else {
            self
        }
    }

    /// Sets the member `key` of an object.
    pub fn set(self, key: &str, value: Json) -> (r: Json)
        ensures
            r@ == self@.set(key@, value@),
    {
        match self {
            Json::Obj(v) => {
                let ghost entries = Json::Obj(v)@->Obj_0;
                let mut out = v;
                let mut i: usize = 0;
                assert(entries.skip(0) =~= entries);
                assert(entries.take(0) + set_entry(entries, key@, value@) =~= set_entry(
                    entries,
                    key@,
                    value@,
                ));
                while i < out.len()
                    invariant
                        i <= out@.len(),
                        self@ == JsonView::Obj(entries),
                        entries == Json::Obj(out)@->Obj_0,
                        set_entry(entries, key@, value@) == entries.take(i as int) + set_entry(
                            entries.skip(i as int),
                            key@,
                            value@,
                        ),
                    decreases out@.len() - i,
                {
                    let ghost rest = entries.skip(i as int);
                    assert(rest[0] == entries[i as int]);
                    assert(rest.skip(1) =~= entries.skip(i + 1));
                    if same(out[i].0.as_str(), key) {
                        out.set(i, (key.to_owned(), value));
                        let r = Json::Obj(out);
                        assert(r@->Obj_0 =~= entries.take(i as int) + (seq![(key@, value@)]
                            + entries.skip(i + 1)));
                        return r;
                    }
                    assert(entries.take(i as int) + (seq![rest[0]] + set_entry(
                        rest.skip(1),
                        key@,
                        value@,
                    )) =~= entries.take(i + 1) + set_entry(entries.skip(i + 1), key@, value@));
                    i = i + 1;
                }
                assert(entries.skip(i as int) =~= Seq::empty());
                out.push((key.to_owned(), value));
                let r = Json::Obj(out);
                assert(r@->Obj_0 =~= entries.take(i as int) + seq![(key@, value@)]);
                r
            },
            other => other,
        }
    }

    /// The item at place `i` of an array.
    pub fn item(&self, i: usize) -> (r: Option<&Json>)
        ensures
            match r {
                Some(j) => self@.item(i as int) == j@,
                None => self@.item(i as int) == JsonView::Null,
            },
    {
        match self {
            Json::Arr(v) => {
                if i < v.len() {
                    Some(&v[i])
                } else {
                    None
                }
            },
            _ => None,
        }
    }

    /// A string value.
    pub fn str(s: &str) -> (r: Json)
        ensures
            r@ == JsonView::Str(s@),
    {
        Json::Str(s.to_owned())
    }

    /// An integer value.
    pub fn integer(n: i64) -> (r: Json)
        ensures
            r@ == JsonView::integer(n as int),
    {
        if n < 0 {
            Json::NegInt(n)
        } else {
            Json::PosInt(n as u64)
        }
    }

    /// An array of the given items.
    pub fn array(items: Vec<Json>) -> (r: Json)
        ensures
            r@ == JsonView::Arr(json_views(items@)),
    {
        let r = Json::Arr(items);
        assert(r@->Arr_0 =~= json_views(items@));
        r
    }

    /// The member `key` of an object.
    pub fn get(&self, key: &str) -> (r: Option<&Json>)
        ensures
            match r {
                Some(j) => self@.get(key@) == Some(j@),
                None => self@.get(key@) is None,
            },
    {
        match self {
            Json::Obj(v) => {
                let ghost entries = self@->Obj_0;
                let mut i: usize = 0;
                assert(entries.skip(0) =~= entries);
                while i < v.len()
                    invariant
                        i <= v@.len(),
                        self matches Json::Obj(w) && w == v,
                        entries == self@->Obj_0,
                        lookup(entries, key@) == lookup(entries.skip(i as int), key@),
                    decreases v@.len() - i,
                {
                    assert(entries.skip(i as int)[0] == entries[i as int]);
                    assert(entries.skip(i as int).skip(1) =~= entries.skip(i + 1));
                    if same(v[i].0.as_str(), key) {
                        return Some(&v[i].1);
                    }
                    i = i + 1;
                }
                None
            },
            _ => None,
        }
    }

    /// The text of a string.
    pub fn as_str(&self) -> (r: Option<&str>)
        ensures
            match r {
                Some(s) => self@.as_str() == Some(s@),
                None => self@.as_str() is None,
            },
    {
        match self {
            Json::Str(s) => Some(s.as_str()),
            _ => None,
        }
    }

    /// An integer that fits in 64 signed bits.
    pub fn as_i64(&self) -> (r: Option<i64>)
        ensures
            r == self@.as_i64(),
    {
        match self {
            Json::PosInt(n) => {
                if *n <= 9_223_372_036_854_775_807u64 {
                    Some(*n as i64)
                } else {
                    None
                }
            },
            Json::NegInt(n) => Some(*n),
            _ => None,
        }
    }

    /// A natural number that fits in 64 bits.
    pub fn as_u64(&self) -> (r: Option<u64>)
        ensures
            r == self@.as_u64(),
    {
        match self {
            Json::PosInt(n) => Some(*n),
            _ => None,
        }
    }

    /// A truth value.
    pub fn as_bool(&self) -> (r: Option<bool>)
        ensures
            r == self@.as_bool(),
    {
        match self {
            Json::Bool(b) => Some(*b),
            _ => None,
        }
    }

    /// The items of an array.
    pub fn as_array(&self) -> (r: Option<&Vec<Json>>)
        ensures
            match r {
                Some(v) => self@.as_array() == Some(json_views(v@)),
                None => self@.as_array() is None,
            },
    {
        match self {
            Json::Arr(v) => {
                assert(self@->Arr_0 =~= json_views(v@));
                Some(v)
            },
            _ => None,
        }
    }

    /// The text of the member `key`, where that member is a string.
    pub fn str_at(&self, key: &str) -> (r: Option<&str>)
        ensures
            match r {
                Some(s) => self@.str_at(key@) == Some(s@),
                None => self@.str_at(key@) is None,
            },
    {
        match self.get(key) {
            Some(v) => v.as_str(),
            None => None,
        }
    }
}

/// A key that an object does not have yet is found once it has been added, and the entries that
/// were there are found as before.
pub proof fn get_after_with(object: JsonView, key: Seq<char>, value: JsonView, other: Seq<char>)
    requires
        object is Obj,
        object.get(key) is None,
    ensures
        object.with(key, value).get(key) == Some(value),
        other != key ==> object.with(key, value).get(other) == object.get(other),
{
    lemma_lookup_push(object->Obj_0, key, value, key);
    lemma_lookup_push(object->Obj_0, key, value, other);
}

/// The members of an object behind which an entry has been put: the ones that were there, and the
/// new one where its key was not.
pub broadcast proof fn member_after_with(
    object: JsonView,
    key: Seq<char>,
    value: JsonView,
    other: Seq<char>,
)
    requires
        object is Obj,
    ensures
        (#[trigger] object.with(key, value).get(other)) == match object.get(other) {
            Some(v) => Some(v),
            None => if other == key {
                Some(value)
            } else {
                None
            },
        },
{
    lemma_lookup_push(object->Obj_0, key, value, other);
}

/// What is set under a key is found under it, and the other members are as before.
pub proof fn get_after_set(object: JsonView, key: Seq<char>, value: JsonView, other: Seq<char>)
    requires
        object is Obj,
    ensures
        object.set(key, value).get(key) == Some(value),
        other != key ==> object.set(key, value).get(other) == object.get(other),
{
    lemma_lookup_set(object->Obj_0, key, value, key);
    lemma_lookup_set(object->Obj_0, key, value, other);
}

proof fn lemma_lookup_set(
    entries: Seq<(Seq<char>, JsonView)>,
    key: Seq<char>,
    value: JsonView,
    other: Seq<char>,
)
    ensures
        lookup(set_entry(entries, key, value), other) == if other == key {
            Some(value)
        } else {
            lookup(entries, other)
        },
    decreases entries.len(),
{
    let after = set_entry(entries, key, value);
    if entries.len() == 0 {
        assert(after.skip(1) =~= entries);
    } else if entries[0].0 == key {
        assert(after.skip(1) =~= entries.skip(1));
    } else {
        assert(after.skip(1) =~= set_entry(entries.skip(1), key, value));
        lemma_lookup_set(entries.skip(1), key, value, other);
    }
}

proof fn lemma_lookup_push(
    entries: Seq<(Seq<char>, JsonView)>,
    key: Seq<char>,
    value: JsonView,
    other: Seq<char>,
)
    ensures
        lookup(entries.push((key, value)), other) == (match lookup(entries, other) {
            Some(v) => Some(v),
            None => if other == key {
                Some(value)
            } else {
                None
            },
        }),
    decreases entries.len(),
{
    let pushed = entries.push((key, value));
    if entries.len() == 0 {
        assert(pushed.skip(1) =~= entries);
        assert(lookup(entries, other) is None);
    } else {
        assert(pushed[0] == entries[0]);
        assert(pushed.skip(1) =~= entries.skip(1).push((key, value)));
        lemma_lookup_push(entries.skip(1), key, value, other);
    }
}

} // verus!
