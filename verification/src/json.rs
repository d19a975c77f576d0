//! JSON documents as plain values.
use crate::text::same_text;
use vstd::prelude::*;

verus! {

/// A JSON number as the parser classifies it.
#[derive(Clone, Copy, Debug, PartialEq, Eq, Structural)]
pub enum JsonNumber {
    /// A non-negative integer.
    PosInt(u64),
    /// A negative integer.
    NegInt(i64),
    /// Any other number, by the bits of its double precision value.
    Float(u64),
}

/// A JSON document. The fields of an object stand in the order in which they are listed.
#[derive(Debug)]
pub enum Json {
    Null,
    Bool(bool),
    Number(JsonNumber),
    Text(String),
    Array(Vec<Json>),
    Object(Vec<(String, Json)>),
}

/// The mathematical counterpart of [`Json`].
pub enum JsonTree {
    Null,
    Bool(bool),
    Number(JsonNumber),
    Text(Seq<char>),
    Array(Seq<JsonTree>),
    Object(Seq<(Seq<char>, JsonTree)>),
}

impl Json {
    pub open spec fn tree(self) -> JsonTree
        decreases self,
    {
        match self {
            Json::Null => JsonTree::Null,
            Json::Bool(b) => JsonTree::Bool(b),
            Json::Number(n) => JsonTree::Number(n),
            Json::Text(s) => JsonTree::Text(s@),
            Json::Array(items) => JsonTree::Array(
                Seq::new(
                    items@.len(),
                    |i: int|
                        if 0 <= i < items@.len() {
                            items@[i].tree()
                        } else {
                            JsonTree::Null
                        },
                ),
            ),
            Json::Object(fields) => JsonTree::Object(
                Seq::new(
                    fields@.len(),
                    |i: int|
                        if 0 <= i < fields@.len() {
                            (fields@[i].0@, fields@[i].1.tree())
                        } else {
                            (seq![], JsonTree::Null)
                        },
                ),
            ),
        }
    }
}

impl View for Json {
    type V = JsonTree;

    open spec fn view(&self) -> JsonTree {
        self.tree()
    }
}

/// The first field named `key`.
pub open spec fn lookup(fields: Seq<(Seq<char>, JsonTree)>, key: Seq<char>) -> Option<JsonTree>
    decreases fields.len(),
{
    if fields.len() == 0 {
        None
    } else if fields[0].0 == key {
        Some(fields[0].1)
    } else {
        lookup(fields.drop_first(), key)
    }
}

impl JsonTree {
    /// The field `key` of an object; other documents have no fields.
    pub open spec fn get(self, key: Seq<char>) -> Option<JsonTree> {
        match self {
            JsonTree::Object(fields) => lookup(fields, key),
            _ => None,
        }
    }

    /// The first of two fields that is there.
    pub open spec fn get2(self, a: Seq<char>, b: Seq<char>) -> Option<JsonTree> {
        match self.get(a) {
            Some(field) => Some(field),
            None => self.get(b),
        }
    }

    /// The first of three fields that is there.
    pub open spec fn get3(self, a: Seq<char>, b: Seq<char>, c: Seq<char>) -> Option<JsonTree> {
        match self.get(a) {
            Some(field) => Some(field),
            None => self.get2(b, c),
        }
    }

    /// The first of four fields that is there.
    pub open spec fn get4(
        self,
        a: Seq<char>,
        b: Seq<char>,
        c: Seq<char>,
        d: Seq<char>,
    ) -> Option<JsonTree> {
        match self.get(a) {
            Some(field) => Some(field),
            None => self.get3(b, c, d),
        }
    }

    pub open spec fn as_str(self) -> Option<Seq<char>> {
        match self {
            JsonTree::Text(s) => Some(s),
            _ => None,
        }
    }

    pub open spec fn as_bool(self) -> Option<bool> {
        match self {
            JsonTree::Bool(b) => Some(b),
            _ => None,
        }
    }

    /// The value of an integer that fits 64 signed bits.
    pub open spec fn as_i64(self) -> Option<i64> {
        match self {
            JsonTree::Number(JsonNumber::PosInt(n)) => if n <= i64::MAX {
                Some(n as i64)
            } else {
                None
            },
            JsonTree::Number(JsonNumber::NegInt(n)) => Some(n),
            _ => None,
        }
    }

    pub open spec fn as_array(self) -> Option<Seq<JsonTree>> {
        match self {
            JsonTree::Array(items) => Some(items),
            _ => None,
        }
    }

    pub open spec fn as_object(self) -> Option<Seq<(Seq<char>, JsonTree)>> {
        match self {
            JsonTree::Object(fields) => Some(fields),
            _ => None,
        }
    }
}

/// The document behind an optional reference.
pub open spec fn tree_of(value: Option<&Json>) -> Option<JsonTree> {
    match value {
        Some(v) => Some(v@),
        None => None,
    }
}

impl Json {
    /// The field `key` of an object.
    pub fn get(&self, key: &str) -> (r: Option<&Json>)
        ensures
            tree_of(r) == self@.get(key@),
    {
        match self {
            Json::Object(fields) => {
                let ghost all = self@.as_object()->0;
                let mut i: usize = 0;
                assert(all.skip(0) =~= all);
                while i < fields.len()
                    invariant
                        self matches Json::Object(f) && f == fields,
                        all == self@.as_object()->0,
                        i <= fields.len(),
                        lookup(all, key@) == lookup(all.skip(i as int), key@),
                    decreases fields.len() - i,
                {
                    assert(all.skip(i as int).drop_first() =~= all.skip(i + 1));
                    if same_text(fields[i].0.as_str(), key) {
                        return Some(&fields[i].1);
                    }
                    i += 1;
                }
                None
            },
            _ => None,
        }
    }

    /// The first of two fields that is there.
    pub fn get2(&self, a: &str, b: &str) -> (r: Option<&Json>)
        ensures
            tree_of(r) == self@.get2(a@, b@),
    {
        match self.get(a) {
            Some(field) => Some(field),
            None => self.get(b),
        }
    }

    /// The first of three fields that is there.
    pub fn get3(&self, a: &str, b: &str, c: &str) -> (r: Option<&Json>)
        ensures
            tree_of(r) == self@.get3(a@, b@, c@),
    {
        match self.get(a) {
            Some(field) => Some(field),
            None => self.get2(b, c),
        }
    }

    /// The first of four fields that is there.
    pub fn get4(&self, a: &str, b: &str, c: &str, d: &str) -> (r: Option<&Json>)
        ensures
            tree_of(r) == self@.get4(a@, b@, c@, d@),
    {
        match self.get(a) {
            Some(field) => Some(field),
            None => self.get3(b, c, d),
        }
    }

    /// The text of a string.
    pub fn as_str(&self) -> (r: Option<&str>)
        ensures
            r is Some == self@.as_str() is Some,
            r is Some ==> r->0@ == self@.as_str()->0,
    {
        match self {
            Json::Text(s) => Some(s.as_str()),
            _ => None,
        }
    }

    /// The value of a boolean.
    pub fn as_bool(&self) -> (r: Option<bool>)
        ensures
            r == self@.as_bool(),
    {
        match self {
            Json::Bool(b) => Some(*b),
            _ => None,
        }
    }

    /// The value of an integer that fits 64 signed bits.
    pub fn as_i64(&self) -> (r: Option<i64>)
        ensures
            r == self@.as_i64(),
    {
        match self {
            Json::Number(JsonNumber::PosInt(n)) => {
                if *n <= i64::MAX as u64 {
                    Some(*n as i64)
                } else {
                    None
                }
            },
            Json::Number(JsonNumber::NegInt(n)) => Some(*n),
            _ => None,
        }
    }

    /// The items of an array.
    pub fn as_array(&self) -> (r: Option<&Vec<Json>>)
        ensures
            r is Some == self@.as_array() is Some,
            r is Some ==> trees(r->0@) == self@.as_array()->0,
    {
        match self {
            Json::Array(items) => {
                assert(trees(items@) =~= self@.as_array()->0);
                Some(items)
            },
            _ => None,
        }
    }

    /// The fields of an object.
    pub fn as_object(&self) -> (r: Option<&Vec<(String, Json)>>)
        ensures
            r is Some == self@.as_object() is Some,
            r is Some ==> field_trees(r->0@) == self@.as_object()->0,
    {
        match self {
            Json::Object(fields) => {
                assert(field_trees(fields@) =~= self@.as_object()->0);
                Some(fields)
            },
            _ => None,
        }
    }
}

/// The documents of a list.
pub open spec fn trees(items: Seq<Json>) -> Seq<JsonTree> {
    items.map_values(|j: Json| j@)
}

/// The names and documents of a list of fields.
pub open spec fn field_trees(fields: Seq<(String, Json)>) -> Seq<(Seq<char>, JsonTree)> {
    fields.map_values(|f: (String, Json)| (f.0@, f.1@))
}

impl Clone for Json {
    /// An equal document.
    fn clone(&self) -> (r: Self)
        ensures
            r@ == self@,
        decreases self,
    {
        match self {
            Json::Null => Json::Null,
            Json::Bool(b) => Json::Bool(*b),
            Json::Number(n) => Json::Number(*n),
            Json::Text(s) => Json::Text(s.clone()),
            Json::Array(items) => {
                let mut out: Vec<Json> = Vec::new();
                let mut i: usize = 0;
                while i < items.len()
                    invariant
                        decreases_to!(self => items@),
                        i <= items.len(),
                        out@.len() == i,
                        forall|k: int| 0 <= k < i ==> (#[trigger] out@[k])@ == items@[k]@,
                    decreases items.len() - i,
                {
                    assert(decreases_to!(items@ => items@[i as int]));
                    out.push(items[i].clone());
                    i += 1;
                }
                let r = Json::Array(out);
                assert(r@.as_array()->0 =~= self@.as_array()->0);
                r
            },
            Json::Object(fields) => {
                let mut out: Vec<(String, Json)> = Vec::new();
                let mut i: usize = 0;
                while i < fields.len()
                    invariant
                        decreases_to!(self => fields@),
                        i <= fields.len(),
                        out@.len() == i,
                        forall|k: int| 0 <= k < i ==> (#[trigger] out@[k]).0@ == fields@[k].0@
                            && out@[k].1@ == fields@[k].1@,
                    decreases fields.len() - i,
                {
                    assert(decreases_to!(fields@ => fields@[i as int]));
                    assert(decreases_to!(fields@[i as int] => fields@[i as int].1));
                    out.push((fields[i].0.clone(), fields[i].1.clone()));
                    i += 1;
                }
                let r = Json::Object(out);
                assert(r@.as_object()->0 =~= self@.as_object()->0);
                r
            },
        }
    }
}

/// The document that is an integer.
pub open spec fn whole(n: int) -> JsonTree {
    if n >= 0 {
        JsonTree::Number(JsonNumber::PosInt(n as u64))
    } else {
        JsonTree::Number(JsonNumber::NegInt(n as i64))
    }
}

/// Law: an object gives under a name the first of its fields that has the name.
pub proof fn law_get_gives_first_field(fields: Seq<(Seq<char>, JsonTree)>, i: int)
    requires
        0 <= i < fields.len(),
        forall|k: int| 0 <= k < i ==> (#[trigger] fields[k]).0 != fields[i].0,
    ensures
        JsonTree::Object(fields).get(fields[i].0) == Some(fields[i].1),
    decreases i,
{
    if i > 0 {
        let rest = fields.drop_first();
        assert(fields[0].0 != fields[i].0);
        assert forall|k: int| 0 <= k < i - 1 implies (#[trigger] rest[k]).0 != rest[i - 1].0 by {
            assert(fields[k + 1].0 != fields[i].0);
        }
        law_get_gives_first_field(rest, i - 1);
    }
}

/// Law: an object gives nothing under a name that none of its fields has.
pub proof fn law_get_of_missing_field(fields: Seq<(Seq<char>, JsonTree)>, key: Seq<char>)
    requires
        forall|k: int| 0 <= k < fields.len() ==> (#[trigger] fields[k]).0 != key,
    ensures
        JsonTree::Object(fields).get(key) is None,
    decreases fields.len(),
{
    if fields.len() > 0 {
        let rest = fields.drop_first();
        assert(fields[0].0 != key);
        assert forall|k: int| 0 <= k < rest.len() implies (#[trigger] rest[k]).0 != key by {
            assert(fields[k + 1].0 != key);
        }
        law_get_of_missing_field(rest, key);
    }
}

/// Law: only objects have fields.
pub proof fn law_fields_of_objects_alone(tree: JsonTree, key: Seq<char>)
    requires
        !(tree is Object),
    ensures
        tree.get(key) is None,
{
}

/// Law: each accessor gives back what a document of its kind was made of, and nothing of other kinds.
pub proof fn law_accessors(tree: JsonTree, n: i64, s: Seq<char>, b: bool, list: Seq<JsonTree>)
    ensures
        tree.as_i64() == Some(n) <==> tree == whole(n as int) || tree == JsonTree::Number(
            JsonNumber::NegInt(n),
        ),
        tree.as_str() == Some(s) <==> tree == JsonTree::Text(s),
        tree.as_bool() == Some(b) <==> tree == JsonTree::Bool(b),
        tree.as_array() == Some(list) <==> tree == JsonTree::Array(list),
{
}

} // verus!
