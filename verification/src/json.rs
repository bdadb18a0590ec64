//! JSON documents as plain trees.
//!
//! [`JsonValue`] is the mathematical document, [`Json`] the one held in memory.
//! Reading and writing JSON text is left to `serde_json`; everything else in this
//! module is proved.

use crate::assoc::{lemma_lookup_skip, lookup};
use vstd::prelude::*;
use vstd::string::StringExecFns;

verus! {

/// A JSON document as a mathematical value.
///
/// A number is kept only when it is an unsigned 64-bit integer; `Number(None)`
/// stands for every other number. The members of an object are listed in order
/// and looked up by the first name that matches.
pub enum JsonValue {
    Null,
    Bool(bool),
    Number(Option<u64>),
    Text(Seq<char>),
    Array(Seq<JsonValue>),
    Object(Seq<(Seq<char>, JsonValue)>),
}

impl JsonValue {
    /// The member `key` of an object; `None` for a missing member and for a
    /// document that is no object.
    pub open spec fn member(self, key: Seq<char>) -> Option<JsonValue> {
        match self {
            JsonValue::Object(fields) => lookup(fields, key),
            _ => None,
        }
    }

    /// The member `key`, or `Null` where there is none.
    pub open spec fn field(self, key: Seq<char>) -> JsonValue {
        match self.member(key) {
            Some(v) => v,
            None => JsonValue::Null,
        }
    }

    /// The elements of an array.
    pub open spec fn items(self) -> Option<Seq<JsonValue>> {
        match self {
            JsonValue::Array(items) => Some(items),
            _ => None,
        }
    }

    /// The elements of an array, or no elements for any other document.
    pub open spec fn items_or_empty(self) -> Seq<JsonValue> {
        match self {
            JsonValue::Array(items) => items,
            _ => Seq::empty(),
        }
    }

    /// Element `i` of an array, or `Null` where there is none.
    pub open spec fn item(self, i: int) -> JsonValue {
        if 0 <= i < self.items_or_empty().len() {
            self.items_or_empty()[i]
        } else {
            JsonValue::Null
        }
    }

    /// The characters of a string.
    pub open spec fn text(self) -> Option<Seq<char>> {
        match self {
            JsonValue::Text(s) => Some(s),
            _ => None,
        }
    }

    /// The value of an unsigned integer.
    pub open spec fn unsigned(self) -> Option<u64> {
        match self {
            JsonValue::Number(n) => n,
            _ => None,
        }
    }

    /// The value of a boolean.
    pub open spec fn flag(self) -> Option<bool> {
        match self {
            JsonValue::Bool(b) => Some(b),
            _ => None,
        }
    }
}

/// A JSON document held in memory. Its view is a [`JsonValue`].
#[derive(Debug, PartialEq, Eq)]
pub enum Json {
    Null,
    Bool(bool),
    Number(Option<u64>),
    Text(String),
    Array(Vec<Json>),
    Object(Vec<(String, Json)>),
}

/// The document that `doc` holds.
pub open spec fn tree_of(doc: Json) -> JsonValue
    decreases doc,
{
    match doc {
        Json::Null => JsonValue::Null,
        Json::Bool(b) => JsonValue::Bool(b),
        Json::Number(n) => JsonValue::Number(n),
        Json::Text(s) => JsonValue::Text(s@),
        Json::Array(items) => JsonValue::Array(
            Seq::new(
                items@.len(),
                |i: int|
                    if 0 <= i < items@.len() {
                        tree_of(items@[i])
                    } else {
                        JsonValue::Null
                    },
            ),
        ),
        Json::Object(fields) => JsonValue::Object(
            Seq::new(
                fields@.len(),
                |i: int|
                    if 0 <= i < fields@.len() {
                        (fields@[i].0@, tree_of(fields@[i].1))
                    } else {
                        (Seq::empty(), JsonValue::Null)
                    },
            ),
        ),
    }
}

impl View for Json {
    type V = JsonValue;

    open spec fn view(&self) -> JsonValue {
        tree_of(*self)
    }
}

impl Json {
    /// The view of an array lists the views of its elements.
    pub proof fn lemma_array_view(self)
        requires
            self is Array,
        ensures
            self@ is Array,
            self@->Array_0.len() == self->Array_0@.len(),
            forall|i: int|
                0 <= i < self->Array_0@.len() ==> #[trigger] self@->Array_0[i]
                    == self->Array_0@[i]@,
    {
    }

    /// The view of an object lists its members by the views of name and value.
    pub proof fn lemma_object_view(self)
        requires
            self is Object,
        ensures
            self@ is Object,
            self@->Object_0.len() == self->Object_0@.len(),
            forall|i: int|
                0 <= i < self->Object_0@.len() ==> #[trigger] self@->Object_0[i] == (
                    self->Object_0@[i].0@,
                    self->Object_0@[i].1@,
                ),
    {
    }
}

/// The document behind an optional reference: `Null` where there is none.
pub open spec fn value_of(doc: Option<&Json>) -> JsonValue {
    match doc {
        Some(d) => d@,
        None => JsonValue::Null,
    }
}

/// The documents that a sequence of trees holds, one for one.
pub open spec fn views(items: Seq<Json>) -> Seq<JsonValue> {
    Seq::new(items.len(), |i: int| items[i]@)
}

impl Json {
    /// The member `key` of an object: the first one of that name.
    pub fn get<'a>(&'a self, key: &str) -> (res: Option<&'a Json>)
        ensures
            match res {
                Some(doc) => self@.member(key@) == Some(doc@),
                None => self@.member(key@) is None,
            },
    {
        match self {
            Json::Object(fields) => {
                let name = String::from_str(key);
                let ghost pairs = self@->Object_0;
                proof {
                    self.lemma_object_view();
                }
                let mut i: usize = 0;
                while i < fields.len()
                    invariant
                        0 <= i <= fields.len(),
                        name@ == key@,
                        self@ == JsonValue::Object(pairs),
                        pairs.len() == fields@.len(),
                        forall|j: int|
                            0 <= j < fields@.len() ==> #[trigger] pairs[j] == (
                                fields@[j].0@,
                                fields@[j].1@,
                            ),
                        forall|j: int| 0 <= j < i ==> pairs[j].0 != key@,
                    decreases fields.len() - i,
                {
                    if fields[i].0 == name {
                        proof {
                            lemma_lookup_skip(pairs, key@, i as int);
                        }
                        return Some(&fields[i].1);
                    }
                    i += 1;
                }
                proof {
                    lemma_lookup_skip(pairs, key@, i as int);
                }
                None
            },
            _ => None,
        }
    }

    /// The elements of an array.
    pub fn items<'a>(&'a self) -> (res: Option<&'a Vec<Json>>)
        ensures
            match res {
                Some(v) => self@.items() == Some(views(v@)),
                None => self@.items() is None,
            },
    {
        match self {
            Json::Array(v) => {
                proof {
                    self.lemma_array_view();
                    assert(self@->Array_0 =~= views(v@));
                }
                Some(v)
            },
            _ => None,
        }
    }

    /// Element `i` of an array.
    pub fn at<'a>(&'a self, i: usize) -> (res: Option<&'a Json>)
        ensures
            match res {
                Some(doc) => self@.items() is Some && i < self@.items_or_empty().len() && doc@
                    == self@.item(i as int),
                None => !(self@.items() is Some && i < self@.items_or_empty().len()),
            },
    {
        match self {
            Json::Array(v) => {
                proof {
                    self.lemma_array_view();
                }
                if i < v.len() {
                    Some(&v[i])
                } else {
                    None
                }
            },
            _ => None,
        }
    }

    /// The characters of a string.
    pub fn as_text<'a>(&'a self) -> (res: Option<&'a String>)
        ensures
            match res {
                Some(s) => self@.text() == Some(s@),
                None => self@.text() is None,
            },
    {
        match self {
            Json::Text(s) => Some(s),
            _ => None,
        }
    }

    /// The value of an unsigned integer.
    pub fn as_u64(&self) -> (res: Option<u64>)
        ensures
            res == self@.unsigned(),
    {
        match self {
            Json::Number(n) => *n,
            _ => None,
        }
    }

    /// A copy of the document.
    pub fn deep_clone(&self) -> (copy: Json)
        ensures
            copy@ == self@,
        decreases self,
    {
        match self {
            Json::Null => Json::Null,
            Json::Bool(b) => Json::Bool(*b),
            Json::Number(n) => Json::Number(*n),
            Json::Text(s) => Json::Text(s.clone()),
            Json::Array(items) => {
                let mut copies: Vec<Json> = Vec::new();
                let mut i: usize = 0;
                while i < items.len()
                    invariant
                        0 <= i <= items@.len(),
                        copies@.len() == i,
                        self == Json::Array(*items),
                        forall|j: int| 0 <= j < i ==> (#[trigger] copies@[j])@ == items@[j]@,
                    decreases items@.len() - i,
                {
                    assert(decreases_to!(*self => items@[i as int])) by {
                        assert(decreases_to!(*self => self->Array_0));
                        assert(decreases_to!(*items => items@));
                        assert(decreases_to!(items@ => items@[i as int]));
                    }
                    let item = items[i].deep_clone();
                    copies.push(item);
                    i += 1;
                }
                let copy = Json::Array(copies);
                proof {
                    self.lemma_array_view();
                    copy.lemma_array_view();
                    assert(copy@->Array_0 =~= self@->Array_0);
                }
                copy
            },
            Json::Object(fields) => {
                let mut copies: Vec<(String, Json)> = Vec::new();
                let mut i: usize = 0;
                while i < fields.len()
                    invariant
                        0 <= i <= fields@.len(),
                        copies@.len() == i,
                        self == Json::Object(*fields),
                        forall|j: int|
                            0 <= j < i ==> (#[trigger] copies@[j]).0@ == fields@[j].0@
                                && copies@[j].1@ == fields@[j].1@,
                    decreases fields@.len() - i,
                {
                    let name = fields[i].0.clone();
                    assert(decreases_to!(*self => fields@[i as int].1)) by {
                        assert(decreases_to!(*self => self->Object_0));
                        assert(decreases_to!(*fields => fields@));
                        assert(decreases_to!(fields@ => fields@[i as int]));
                        assert(decreases_to!(fields@[i as int] => fields@[i as int].1));
                    }
                    let value = fields[i].1.deep_clone();
                    copies.push((name, value));
                    i += 1;
                }
                let copy = Json::Object(copies);
                proof {
                    self.lemma_object_view();
                    copy.lemma_object_view();
                    assert(copy@->Object_0 =~= self@->Object_0);
                }
                copy
            },
        }
    }

    /// The value of a boolean.
    pub fn as_bool(&self) -> (res: Option<bool>)
        ensures
            res == self@.flag(),
    {
        match self {
            Json::Bool(b) => Some(*b),
            _ => None,
        }
    }
}

/// The member `key` of `doc`, where `doc` is there and has one.
pub fn field_of<'a>(doc: Option<&'a Json>, key: &str) -> (res: Option<&'a Json>)
    ensures
        value_of(res) == value_of(doc).field(key@),
        res is Some ==> value_of(doc).member(key@) is Some,
{
    match doc {
        Some(d) => d.get(key),
        None => None,
    }
}

/// Element `i` of `doc`, where `doc` is there and has one.
pub fn item_of<'a>(doc: Option<&'a Json>, i: usize) -> (res: Option<&'a Json>)
    ensures
        value_of(res) == value_of(doc).item(i as int),
{
    match doc {
        Some(d) => d.at(i),
        None => None,
    }
}

/// The elements of `doc`, where `doc` is there and is an array.
pub fn items_of<'a>(doc: Option<&'a Json>) -> (res: Option<&'a Vec<Json>>)
    ensures
        match res {
            Some(v) => value_of(doc).items() == Some(views(v@)),
            None => value_of(doc).items() is None,
        },
{
    match doc {
        Some(d) => d.items(),
        None => None,
    }
}

/// A type that one JSON document can stand for.
pub trait FromJson: Sized {
    /// The mathematical value of `Self`.
    type Model;

    /// The mathematical value of `self`.
    spec fn model(&self) -> Self::Model;

    /// What `doc` stands for, or `None` where it stands for no value of `Self`.
    spec fn decoded(doc: JsonValue) -> Option<Self::Model>;

    /// Reads a value of `Self` off `doc`.
    fn from_json(doc: &Json) -> (res: Option<Self>)
        ensures
            match res {
                Some(v) => Self::decoded(doc@) == Some(v.model()),
                None => Self::decoded(doc@) is None,
            },
    ;
}

impl FromJson for String {
    type Model = Seq<char>;

    open spec fn model(&self) -> Seq<char> {
        self@
    }

    open spec fn decoded(doc: JsonValue) -> Option<Seq<char>> {
        doc.text()
    }

    fn from_json(doc: &Json) -> (res: Option<String>) {
        match doc.as_text() {
            Some(s) => Some(s.clone()),
            None => None,
        }
    }
}

impl FromJson for u64 {
    type Model = u64;

    open spec fn model(&self) -> u64 {
        *self
    }

    open spec fn decoded(doc: JsonValue) -> Option<u64> {
        doc.unsigned()
    }

    fn from_json(doc: &Json) -> (res: Option<u64>) {
        doc.as_u64()
    }
}

impl FromJson for bool {
    type Model = bool;

    open spec fn model(&self) -> bool {
        *self
    }

    open spec fn decoded(doc: JsonValue) -> Option<bool> {
        doc.flag()
    }

    fn from_json(doc: &Json) -> (res: Option<bool>) {
        doc.as_bool()
    }
}

/// Tolerant decoding: the value that `json` stands for, or `fallback` where it
/// stands for none. It never fails.
pub fn get_value<T: FromJson>(json: &Json, fallback: T) -> (res: T)
    ensures
        res.model() == match T::decoded(json@) {
            Some(m) => m,
            None => fallback.model(),
        },
{
    match T::from_json(json) {
        Some(v) => v,
        None => fallback,
    }
}

/// Tolerant decoding at the end of a path: as [`get_value`], and `fallback` where
/// the path led nowhere.
pub fn get_value_at<T: FromJson>(doc: Option<&Json>, fallback: T) -> (res: T)
    ensures
        res.model() == match doc {
            Some(d) => match T::decoded(d@) {
                Some(m) => m,
                None => fallback.model(),
            },
            None => fallback.model(),
        },
{
    match doc {
        Some(d) => get_value(d, fallback),
        None => fallback,
    }
}

/// `serde_json::Value`, carried as it is: nothing inside it is read but through
/// the functions below.
#[verifier::external_type_specification]
#[verifier::external_body]
pub struct ExValue(serde_json::Value);

/// The document that a `serde_json::Value` holds: the same tree, with each
/// number kept as `Number::as_u64` gives it, and the members of an object in the
/// order in which the value's map walks them.
pub uninterp spec fn value_tree(v: serde_json::Value) -> JsonValue;

/// The document that `serde_json::from_slice` reads from a text, seen through
/// [`value_tree`]; `None` where it reports an error.
pub uninterp spec fn parsed(text: Seq<u8>) -> Option<JsonValue>;

/// The text that `serde_json::to_string` writes for a `serde_json::Value`.
pub uninterp spec fn value_text(v: serde_json::Value) -> Seq<char>;

/// The text that `serde_json::to_string` writes for a document: each
/// `Number(None)` as `null`, and of two members with one name the later one only.
pub uninterp spec fn json_text(doc: JsonValue) -> Seq<char>;

/// `serde_json::from_slice` at the type `serde_json::Value`. The value it
/// returns is named by [`parsed`]; an error becomes `None`.
#[verifier::external_body]
fn parse(text: &[u8]) -> (res: Option<serde_json::Value>)
    ensures
        match res {
            Some(v) => parsed(text@) == Some(value_tree(v)),
            None => parsed(text@) is None,
        },
{
    serde_json::from_slice::<serde_json::Value>(text).ok()
}

/// Copies a `serde_json::Value` into a tree of this library, variant by variant;
/// a number goes through `Number::as_u64`. The result is what [`value_tree`]
/// names.
#[verifier::external_body]
fn lift(v: &serde_json::Value) -> (doc: Json)
    ensures
        doc@ == value_tree(*v),
{
    match v {
        serde_json::Value::Null => Json::Null,
        serde_json::Value::Bool(b) => Json::Bool(*b),
        serde_json::Value::Number(n) => Json::Number(n.as_u64()),
        serde_json::Value::String(s) => Json::Text(s.clone()),
        serde_json::Value::Array(a) => Json::Array(a.iter().map(lift).collect()),
        serde_json::Value::Object(m) => Json::Object(
            m.iter().map(|(k, c)| (k.clone(), lift(c))).collect(),
        ),
    }
}

/// Copies a tree of this library into a `serde_json::Value`, variant by variant;
/// a number goes through `Value::from` on an `Option<u64>`. What
/// `serde_json::to_string` writes for the result is named by [`json_text`].
#[verifier::external_body]
fn lower(doc: &Json) -> (v: serde_json::Value)
    ensures
        value_text(v) == json_text(doc@),
{
    match doc {
        Json::Null => serde_json::Value::Null,
        Json::Bool(b) => serde_json::Value::Bool(*b),
        Json::Number(n) => serde_json::Value::from(*n),
        Json::Text(s) => serde_json::Value::String(s.clone()),
        Json::Array(a) => serde_json::Value::Array(a.iter().map(lower).collect()),
        Json::Object(m) => serde_json::Value::Object(
            m.iter().map(|(k, c)| (k.clone(), lower(c))).collect(),
        ),
    }
}

/// `serde_json::to_string` on a `serde_json::Value`. The text it returns is
/// named by [`value_text`].
#[verifier::external_body]
fn print(v: &serde_json::Value) -> (text: String)
    ensures
        text@ == value_text(*v),
{
    match serde_json::to_string(v) {
        Ok(s) => s,
        Err(_) => String::new(),
    }
}

/// The document that a text stands for: the one that is read from it, or `Null`
/// where the text is no JSON text.
pub open spec fn document_of(text: Seq<u8>) -> JsonValue {
    match parsed(text) {
        Some(doc) => doc,
        None => JsonValue::Null,
    }
}

impl Json {
    /// Reads a JSON text, tolerantly: a text that is no JSON text gives `Null`.
    pub fn read(text: &[u8]) -> (doc: Json)
        ensures
            doc@ == document_of(text@),
    {
        match Json::decode(text) {
            Some(doc) => doc,
            None => Json::Null,
        }
    }

    /// Reads a JSON text. The document is the one that `serde_json` reads.
    pub fn decode(text: &[u8]) -> (res: Option<Json>)
        ensures
            match res {
                Some(doc) => parsed(text@) == Some(doc@),
                None => parsed(text@) is None,
            },
    {
        match parse(text) {
            Some(v) => Some(lift(&v)),
            None => None,
        }
    }

    /// Writes the document as JSON text, as `serde_json` writes it.
    pub fn encode(&self) -> (text: String)
        ensures
            text@ == json_text(self@),
    {
        let v = lower(self);
        print(&v)
    }
}

} // verus!
