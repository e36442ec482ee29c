//! JSON documents as plain data.
//!
//! Text is parsed by `serde_json`; its value is then copied, node by node,
//! into [`Json`], a tree that verified code can read. Everything assumed of
//! `serde_json` is declared in this file.

use crate::text::same_text;
use vstd::prelude::*;

verus! {

/// A JSON document as a mathematical tree.
///
/// A number carries its value when that is an integer in the range of
/// `i64`, and nothing otherwise: fractions and larger magnitudes are told
/// apart from other kinds of node, but not from each other.
pub ghost enum JsonTree {
    Null,
    Bool(bool),
    Number(Option<i64>),
    Text(Seq<char>),
    Array(Seq<JsonTree>),
    Object(Seq<(Seq<char>, JsonTree)>),
}

/// The value of the first entry of `entries` whose key is `key`.
pub open spec fn find(entries: Seq<(Seq<char>, JsonTree)>, key: Seq<char>) -> Option<JsonTree>
    decreases entries.len(),
{
    if entries.len() == 0 {
        None
    } else if entries[0].0 == key {
        Some(entries[0].1)
    } else {
        find(entries.drop_first(), key)
    }
}

/// An entry under another key changes nothing of what is found under `key`,
/// wherever among the entries it stands.
pub proof fn lemma_find_skips_other_keys(
    entries: Seq<(Seq<char>, JsonTree)>,
    i: int,
    extra: (Seq<char>, JsonTree),
    key: Seq<char>,
)
    requires
        0 <= i <= entries.len(),
        extra.0 != key,
    ensures
        find(entries.insert(i, extra), key) == find(entries, key),
    decreases entries.len(),
{
    let longer = entries.insert(i, extra);
    if i == 0 {
        assert(longer.drop_first() =~= entries);
    } else {
        assert(longer[0] == entries[0]);
        assert(longer.drop_first() =~= entries.drop_first().insert(i - 1, extra));
        lemma_find_skips_other_keys(entries.drop_first(), i - 1, extra, key);
    }
}

impl JsonTree {
    /// The value under `key`, where this node is an object that has the key.
    pub open spec fn member(self, key: Seq<char>) -> Option<JsonTree> {
        match self {
            JsonTree::Object(entries) => find(entries, key),
            _ => None,
        }
    }

    /// The value under `key` unless it is missing or null.
    pub open spec fn optional(self, key: Seq<char>) -> Option<JsonTree> {
        match self.member(key) {
            Some(JsonTree::Null) => None,
            other => other,
        }
    }

    /// The text under `key`, where the member is there and is text.
    pub open spec fn text(self, key: Seq<char>) -> Option<Seq<char>> {
        match self.member(key) {
            Some(JsonTree::Text(s)) => Some(s),
            _ => None,
        }
    }

    /// The integer under `key`, where the member is there and is an integer
    /// in the range of `i64`.
    pub open spec fn integer(self, key: Seq<char>) -> Option<i64> {
        match self.member(key) {
            Some(JsonTree::Number(Some(n))) => Some(n),
            _ => None,
        }
    }

    /// The truth value under `key`, where the member is there and is one.
    pub open spec fn flag(self, key: Seq<char>) -> Option<bool> {
        match self.member(key) {
            Some(JsonTree::Bool(b)) => Some(b),
            _ => None,
        }
    }

    /// The text under `key` where the member may be left out: `Some(None)`
    /// when it is missing or null, `Some(Some(s))` when it is the text `s`,
    /// and `None` when it is anything else.
    pub open spec fn optional_text(self, key: Seq<char>) -> Option<Option<Seq<char>>> {
        match self.optional(key) {
            None => Some(None),
            Some(JsonTree::Text(s)) => Some(Some(s)),
            Some(_) => None,
        }
    }

    /// This node unless it is null.
    pub open spec fn unless_null(self) -> Option<JsonTree> {
        match self {
            JsonTree::Null => None,
            other => Some(other),
        }
    }

    /// The items of the array under `key`, each unless it is null; `None`
    /// where the member is missing or is not an array.
    pub open spec fn nullable_items(self, key: Seq<char>) -> Option<Seq<Option<JsonTree>>> {
        match self.member(key) {
            Some(JsonTree::Array(items)) => Some(
                Seq::new(items.len(), |i: int| items[i].unless_null()),
            ),
            _ => None,
        }
    }
}

/// A JSON document held in memory. Its view is the [`JsonTree`] of the same
/// shape.
#[derive(Debug, PartialEq, Eq)]
pub enum Json {
    Null,
    Bool(bool),
    /// The value of an integer in the range of `i64`; `None` for any other
    /// number.
    Number(Option<i64>),
    Text(String),
    Array(Vec<Json>),
    /// The entries in the order in which they are stored.
    Object(Vec<(String, Json)>),
}

/// The tree of the same shape as `j`.
pub open spec fn tree_of(j: Json) -> JsonTree
    decreases j,
{
    match j {
        Json::Null => JsonTree::Null,
        Json::Bool(b) => JsonTree::Bool(b),
        Json::Number(n) => JsonTree::Number(n),
        Json::Text(s) => JsonTree::Text(s@),
        Json::Array(items) => JsonTree::Array(
            Seq::new(
                items@.len(),
                |i: int|
                    if 0 <= i < items@.len() {
                        tree_of(items@[i])
                    } else {
                        JsonTree::Null
                    },
            ),
        ),
        Json::Object(entries) => JsonTree::Object(
            Seq::new(
                entries@.len(),
                |i: int|
                    if 0 <= i < entries@.len() {
                        (entries@[i].0@, tree_of(entries@[i].1))
                    } else {
                        (Seq::empty(), JsonTree::Null)
                    },
            ),
        ),
    }
}

impl View for Json {
    type V = JsonTree;

    open spec fn view(&self) -> JsonTree {
        tree_of(*self)
    }
}

impl DeepView for Json {
    type V = JsonTree;

    open spec fn deep_view(&self) -> JsonTree {
        self@
    }
}

/// `serde_json::Value`, opaque to the verifier.
#[verifier::external_type_specification]
#[verifier::external_body]
pub struct ExValue(serde_json::Value);

/// `serde_json::Error`, opaque to the verifier.
#[verifier::external_type_specification]
#[verifier::external_body]
pub struct ExError(serde_json::Error);

/// `serde_json::Map`, opaque to the verifier.
#[verifier::external_type_specification]
#[verifier::external_body]
#[verifier::reject_recursive_types(K)]
#[verifier::reject_recursive_types(V)]
pub struct ExMap<K, V>(serde_json::Map<K, V>);

/// The tree that a `serde_json::Value` holds.
pub uninterp spec fn value_tree(v: serde_json::Value) -> JsonTree;

/// The entries that a `serde_json::Map` holds, in the order in which its
/// iterator yields them.
pub uninterp spec fn object_entries(m: serde_json::Map<String, serde_json::Value>) -> Seq<
    (Seq<char>, JsonTree),
>;

/// What `serde_json::from_str` makes of a text when asked for a
/// `serde_json::Value`: the tree of the document, or `None` where it returns
/// an error, as it does for a text that is not one JSON document and for one
/// that nests deeper than the parser goes.
pub uninterp spec fn json_text(text: Seq<char>) -> Option<JsonTree>;

/// `Value::as_bool` returns the payload of a `Bool` and `None` for every
/// other variant.
pub assume_specification[ serde_json::Value::as_bool ](v: &serde_json::Value) -> (r: Option<bool>)
    ensures
        r == (match value_tree(*v) {
            JsonTree::Bool(b) => Some(b),
            _ => None,
        }),
;

/// `Value::is_number` tells whether the value is the `Number` variant.
pub assume_specification[ serde_json::Value::is_number ](v: &serde_json::Value) -> (r: bool)
    ensures
        r == (value_tree(*v) is Number),
;

/// `Value::as_i64` returns the number where the value is an integer that
/// fits `i64`, and `None` for fractions, larger integers and every other
/// variant. This is what the payload of `JsonTree::Number` stands for.
pub assume_specification[ serde_json::Value::as_i64 ](v: &serde_json::Value) -> (r: Option<i64>)
    ensures
        r == (match value_tree(*v) {
            JsonTree::Number(n) => n,
            _ => None,
        }),
;

/// `Value::as_str` returns the payload of a `String` and `None` for every
/// other variant.
pub assume_specification<'a>[ serde_json::Value::as_str ](v: &'a serde_json::Value) -> (r: Option<
    &'a str,
>)
    ensures
        match r {
            Some(s) => value_tree(*v) == JsonTree::Text(s@),
            None => !(value_tree(*v) is Text),
        },
;

/// `Value::as_array` returns the vector of an `Array` and `None` for every
/// other variant.
pub assume_specification<'a>[ serde_json::Value::as_array ](v: &'a serde_json::Value) -> (r: Option<
    &'a Vec<serde_json::Value>,
>)
    ensures
        match r {
            Some(items) => value_tree(*v) == JsonTree::Array(
                items@.map_values(|x: serde_json::Value| value_tree(x)),
            ),
            None => !(value_tree(*v) is Array),
        },
;

/// `Value::as_object` returns the map of an `Object` and `None` for every
/// other variant.
pub assume_specification<'a>[ serde_json::Value::as_object ](v: &'a serde_json::Value) -> (r:
    Option<&'a serde_json::Map<String, serde_json::Value>>)
    ensures
        match r {
            Some(m) => value_tree(*v) == JsonTree::Object(object_entries(*m)),
            None => !(value_tree(*v) is Object),
        },
;

/// `Map::iter` yields each entry of the map once, as a reference to its key
/// and one to its value; collected, they are the entries in that order.
#[verifier::external_body]
fn entries_of<'a>(m: &'a serde_json::Map<String, serde_json::Value>) -> (r: Vec<
    (&'a String, &'a serde_json::Value),
>)
    ensures
        r@.len() == object_entries(*m).len(),
        forall|i: int|
            0 <= i < r@.len() ==> #[trigger] object_entries(*m)[i] == (
                r@[i].0@,
                value_tree(*r@[i].1),
            ),
{
    m.iter().collect()
}

/// `serde_json::from_str`, asked for a `serde_json::Value`, returns the
/// document that the whole text spells, or an error. Assumed here: it
/// returns, and what it returns depends on the text alone.
#[verifier::external_body]
fn value_of_text(text: &str) -> (r: Result<serde_json::Value, serde_json::Error>)
    ensures
        match r {
            Ok(v) => json_text(text@) == Some(value_tree(v)),
            Err(_) => json_text(text@) is None,
        },
{
    serde_json::from_str::<serde_json::Value>(text)
}

impl Json {
    /// Copies a `serde_json::Value` into a tree of this crate.
    pub fn from_value(v: &serde_json::Value) -> (j: Json)
        ensures
            j@ == value_tree(*v),
        decreases value_tree(*v),
    {
        match v.as_bool() {
            Some(b) => {
                return Json::Bool(b);
            },
            None => {},
        }
        if v.is_number() {
            return Json::Number(v.as_i64());
        }
        match v.as_str() {
            Some(s) => {
                return Json::Text(String::from_str(s));
            },
            None => {},
        }
        match v.as_array() {
            Some(items) => {
                let ghost trees = items@.map_values(|x: serde_json::Value| value_tree(x));
                let mut copy: Vec<Json> = Vec::new();
                let mut i: usize = 0;
                while i < items.len()
                    invariant
                        i <= items@.len(),
                        copy@.len() == i,
                        trees == items@.map_values(|x: serde_json::Value| value_tree(x)),
                        value_tree(*v) == JsonTree::Array(trees),
                        forall|k: int| 0 <= k < i ==> (#[trigger] copy@[k])@ == trees[k],
                    decreases items@.len() - i,
                {
                    assert(trees[i as int] == value_tree(items@[i as int]));
                    assert(decreases_to!(value_tree(*v) => value_tree(*v)->Array_0));
                    assert(decreases_to!(trees => trees[i as int]));
                    let item = Json::from_value(&items[i]);
                    copy.push(item);
                    i += 1;
                }
                let j = Json::Array(copy);
                assert(j@ == value_tree(*v)) by {
                    assert(j@->Array_0 =~= trees);
                }
                return j;
            },
            None => {},
        }
        match v.as_object() {
            Some(m) => {
                let entries = entries_of(m);
                let ghost trees = object_entries(*m);
                let mut copy: Vec<(String, Json)> = Vec::new();
                let mut i: usize = 0;
                while i < entries.len()
                    invariant
                        i <= entries@.len(),
                        copy@.len() == i,
                        trees == object_entries(*m),
                        trees.len() == entries@.len(),
                        value_tree(*v) == JsonTree::Object(trees),
                        forall|k: int|
                            0 <= k < entries@.len() ==> #[trigger] trees[k] == (
                                entries@[k].0@,
                                value_tree(*entries@[k].1),
                            ),
                        forall|k: int|
                            0 <= k < i ==> ((#[trigger] copy@[k]).0@, copy@[k].1@) == trees[k],
                    decreases entries@.len() - i,
                {
                    assert(trees[i as int].1 == value_tree(*entries@[i as int].1));
                    assert(decreases_to!(value_tree(*v) => value_tree(*v)->Object_0));
                    assert(decreases_to!(trees => trees[i as int]));
                    assert(decreases_to!(trees[i as int] => trees[i as int].1));
                    let key = entries[i].0.clone();
                    let value = Json::from_value(entries[i].1);
                    copy.push((key, value));
                    i += 1;
                }
                let j = Json::Object(copy);
                assert(j@ == value_tree(*v)) by {
                    assert(j@->Object_0 =~= trees);
                }
                return j;
            },
            None => {},
        }
        Json::Null
    }

    /// Parses one JSON document; `None` where the parser refuses `text`.
    pub fn parse(text: &str) -> (r: Option<Json>)
        ensures
            r.deep_view() == json_text(text@),
    {
        match value_of_text(text) {
            Ok(v) => Some(Json::from_value(&v)),
            Err(_) => None,
        }
    }

    /// The member stored under `key`: the first entry with that key, where
    /// this is an object that has one.
    pub fn get(&self, key: &str) -> (r: Option<&Json>)
        ensures
            r.deep_view() == self@.member(key@),
    {
        match self {
            Json::Object(entries) => {
                let mut i: usize = 0;
                assert(self@->Object_0.skip(0) =~= self@->Object_0);
                while i < entries.len()
                    invariant
                        i <= entries@.len(),
                        self@ is Object,
                        self@->Object_0.len() == entries@.len(),
                        forall|k: int|
                            0 <= k < entries@.len() ==> #[trigger] self@->Object_0[k] == (
                                entries@[k].0@,
                                entries@[k].1@,
                            ),
                        find(self@->Object_0, key@) == find(self@->Object_0.skip(i as int), key@),
                    decreases entries@.len() - i,
                {
                    let ghost rest = self@->Object_0.skip(i as int);
                    assert(rest[0] == self@->Object_0[i as int]);
                    assert(rest.drop_first() =~= self@->Object_0.skip(i + 1));
                    if same_text(entries[i].0.as_str(), key) {
                        return Some(&entries[i].1);
                    }
                    i += 1;
                }
                None
            },
            _ => None,
        }
    }

    /// The member under `key` unless it is missing or null.
    pub fn optional(&self, key: &str) -> (r: Option<&Json>)
        ensures
            r.deep_view() == self@.optional(key@),
    {
        match self.get(key) {
            Some(Json::Null) => None,
            other => other,
        }
    }

    /// The text under `key`.
    pub fn text(&self, key: &str) -> (r: Option<String>)
        ensures
            r.deep_view() == self@.text(key@),
    {
        match self.get(key) {
            Some(Json::Text(s)) => Some(s.clone()),
            _ => None,
        }
    }

    /// The integer under `key`.
    pub fn integer(&self, key: &str) -> (r: Option<i64>)
        ensures
            r == self@.integer(key@),
    {
        match self.get(key) {
            Some(Json::Number(Some(n))) => Some(*n),
            _ => None,
        }
    }

    /// The truth value under `key`.
    pub fn flag(&self, key: &str) -> (r: Option<bool>)
        ensures
            r == self@.flag(key@),
    {
        match self.get(key) {
            Some(Json::Bool(b)) => Some(*b),
            _ => None,
        }
    }

    /// The text under `key` where the member may be left out; `None` where
    /// it is there, is not null and is not text.
    pub fn optional_text(&self, key: &str) -> (r: Option<Option<String>>)
        ensures
            r.deep_view() == self@.optional_text(key@),
    {
        match self.optional(key) {
            None => Some(None),
            Some(Json::Text(s)) => Some(Some(s.clone())),
            Some(_) => None,
        }
    }

    /// A copy of this node unless it is null.
    pub fn unless_null(&self) -> (r: Option<Json>)
        ensures
            r.deep_view() == self@.unless_null(),
    {
        match self {
            Json::Null => None,
            other => Some(other.clone()),
        }
    }

    /// Whether this node is an object.
    pub fn is_object(&self) -> (r: bool)
        ensures
            r == (self@ is Object),
    {
        match self {
            Json::Object(_) => true,
            _ => false,
        }
    }

    /// A copy of the member under `key` unless it is missing or null.
    pub fn optional_copy(&self, key: &str) -> (r: Option<Json>)
        ensures
            r.deep_view() == self@.optional(key@),
    {
        match self.optional(key) {
            Some(j) => Some(j.clone()),
            None => None,
        }
    }

    /// Copies of the items of the array under `key`, each unless it is
    /// null; `None` where the member is missing or is not an array.
    pub fn nullable_items(&self, key: &str) -> (r: Option<Vec<Option<Json>>>)
        ensures
            r.deep_view() == self@.nullable_items(key@),
    {
        match self.get(key) {
            Some(Json::Array(items)) => {
                let ghost trees = self@.member(key@)->0->Array_0;
                let mut copy: Vec<Option<Json>> = Vec::new();
                let mut i: usize = 0;
                while i < items.len()
                    invariant
                        i <= items@.len(),
                        copy@.len() == i,
                        trees.len() == items@.len(),
                        forall|k: int| 0 <= k < items@.len() ==> trees[k] == (#[trigger] items@[k])@,
                        forall|k: int|
                            0 <= k < i ==> (#[trigger] copy@[k]).deep_view()
                                == trees[k].unless_null(),
                    decreases items@.len() - i,
                {
                    let item = items[i].unless_null();
                    copy.push(item);
                    i += 1;
                }
                assert(copy.deep_view() =~= self@.nullable_items(key@)->0);
                Some(copy)
            },
            _ => None,
        }
    }
}

impl Clone for Json {
    fn clone(&self) -> (r: Json)
        ensures
            r@ == self@,
        decreases self,
    {
        match self {
            Json::Null => Json::Null,
            Json::Bool(b) => Json::Bool(*b),
            Json::Number(n) => Json::Number(*n),
            Json::Text(s) => Json::Text(s.clone()),
            Json::Array(items) => {
                let mut copy: Vec<Json> = Vec::new();
                let mut i: usize = 0;
                while i < items.len()
                    invariant
                        i <= items@.len(),
                        copy@.len() == i,
                        *self == Json::Array(*items),
                        forall|k: int| 0 <= k < i ==> (#[trigger] copy@[k])@ == items@[k]@,
                    decreases items@.len() - i,
                {
                    assert(decreases_to!(*self => self->Array_0));
                    assert(decreases_to!(items => items[i as int]));
                    let item = items[i].clone();
                    copy.push(item);
                    i += 1;
                }
                let r = Json::Array(copy);
                assert(r@->Array_0 =~= self@->Array_0);
                r
            },
            Json::Object(entries) => {
                let mut copy: Vec<(String, Json)> = Vec::new();
                let mut i: usize = 0;
                while i < entries.len()
                    invariant
                        i <= entries@.len(),
                        copy@.len() == i,
                        *self == Json::Object(*entries),
                        forall|k: int|
                            0 <= k < i ==> (#[trigger] copy@[k]).0@ == entries@[k].0@ && copy@[k].1@
                                == entries@[k].1@,
                    decreases entries@.len() - i,
                {
                    assert(decreases_to!(*self => self->Object_0));
                    assert(decreases_to!(entries => entries[i as int]));
                    assert(decreases_to!(entries[i as int] => entries[i as int].1));
                    let key = entries[i].0.clone();
                    let value = entries[i].1.clone();
                    copy.push((key, value));
                    i += 1;
                }
                let r = Json::Object(copy);
                assert(r@->Object_0 =~= self@->Object_0);
                r
            },
        }
    }
}

} // verus!
