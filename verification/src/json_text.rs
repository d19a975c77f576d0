//! Between JSON documents and their text form, by way of `serde_json`.
use crate::json::{Json, JsonNumber, JsonTree};
use crate::text;
use serde_json::Value;
use vstd::prelude::*;

verus! {

/// `serde_json::Value`.
#[verifier::external_type_specification]
#[verifier::external_body]
pub struct ExValue(serde_json::Value);

/// `serde_json::Error`.
#[verifier::external_type_specification]
#[verifier::external_body]
pub struct ExJsonError(serde_json::Error);

/// What a `serde_json::Value` holds.
pub uninterp spec fn value_tree(value: Value) -> JsonTree;

/// What `serde_json::from_str::<Value>` makes of a text; nothing where the text is no document.
pub uninterp spec fn parsed_tree(text: Seq<char>) -> Option<JsonTree>;

/// What `to_string` makes of a `serde_json::Value`: the document without white space.
pub uninterp spec fn compact_text(tree: JsonTree) -> Seq<char>;

/// No two fields of the list have the same name.
pub open spec fn distinct_names<T>(fields: Seq<(Seq<char>, T)>) -> bool {
    forall|i: int, j: int|
        0 <= i < j < fields.len() ==> (#[trigger] fields[i]).0 != (#[trigger] fields[j]).0
}

impl JsonTree {
    /// Every object has each name once, and a negative integer is below zero.
    pub open spec fn well_formed(self) -> bool
        decreases self,
    {
        match self {
            JsonTree::Number(JsonNumber::NegInt(n)) => n < 0,
            JsonTree::Array(items) => forall|i: int|
                0 <= i < items.len() ==> (#[trigger] items[i]).well_formed(),
            JsonTree::Object(fields) => {
                &&& distinct_names(fields)
                &&& forall|i: int|
                    0 <= i < fields.len() ==> (#[trigger] fields[i]).1.well_formed()
            },
            _ => true,
        }
    }
}

/// The outermost level of a `serde_json::Value`.
pub enum Node<'a> {
    Null,
    Bool(bool),
    Number(JsonNumber),
    Text(&'a String),
    Array(&'a Vec<Value>),
    Object(Vec<(&'a String, &'a Value)>),
}

/// The names and documents of a list of fields.
pub open spec fn value_fields(fields: Seq<(&String, &Value)>) -> Seq<(Seq<char>, JsonTree)> {
    fields.map_values(|f: (&String, &Value)| (f.0@, value_tree(*f.1)))
}

impl<'a> Node<'a> {
    pub open spec fn tree(self) -> JsonTree {
        match self {
            Node::Null => JsonTree::Null,
            Node::Bool(b) => JsonTree::Bool(b),
            Node::Number(n) => JsonTree::Number(n),
            Node::Text(s) => JsonTree::Text(s@),
            Node::Array(items) => JsonTree::Array(items@.map_values(|v: Value| value_tree(v))),
            Node::Object(fields) => JsonTree::Object(value_fields(fields@)),
        }
    }

    /// The names of an object differ, and a negative integer is below zero.
    pub open spec fn well_formed(self) -> bool {
        match self {
            Node::Number(JsonNumber::NegInt(n)) => n < 0,
            Node::Object(fields) => distinct_names(value_fields(fields@)),
            _ => true,
        }
    }
}

/// Takes a `serde_json::Value` apart: its variant and what the variant holds, an object as the
/// list of its entries, which have different names.
#[verifier::external_body]
fn open_value<'a>(value: &'a Value) -> (r: Node<'a>)
    ensures
        value_tree(*value) == r.tree(),
        r.well_formed(),
{
    match value {
        Value::Null => Node::Null,
        Value::Bool(b) => Node::Bool(*b),
        Value::Number(n) => Node::Number(match (n.as_u64(), n.as_i64(), n.as_f64()) {
            (Some(u), _, _) => JsonNumber::PosInt(u),
            (_, Some(i), _) => JsonNumber::NegInt(i),
            (_, _, x) => JsonNumber::Float(x.unwrap_or_default().to_bits()),
        }),
        Value::String(s) => Node::Text(s),
        Value::Array(items) => Node::Array(items),
        Value::Object(map) => Node::Object(map.iter().collect()),
    }
}

/// `serde_json::from_str::<Value>`: the document that the text is, named by `parsed_tree`, or an
/// error where it is none.
#[verifier::external_body]
fn parse_value(text: &str) -> (r: Result<Value, serde_json::Error>)
    ensures
        match r {
            Ok(value) => parsed_tree(text@) == Some(value_tree(value)),
            Err(_) => parsed_tree(text@) is None,
        },
{
    serde_json::from_str::<Value>(text)
}

/// `Value::to_string`: the document without white space, named by `compact_text`.
#[verifier::external_body]
pub(crate) fn render_value(value: &Value) -> (r: String)
    ensures
        r@ == compact_text(value_tree(*value)),
{
    value.to_string()
}

/// `Value::get`: the field of that name, where the value is an object that has one.
#[verifier::external_body]
fn value_field<'a>(value: &'a Value, key: &str) -> (r: Option<&'a Value>)
    ensures
        match r {
            Some(field) => value_tree(*value).get(key@) == Some(value_tree(*field)),
            None => value_tree(*value).get(key@) is None,
        },
{
    value.get(key)
}

/// Copies what a `serde_json::Value` holds.
fn to_json(value: &Value) -> (r: Json)
    ensures
        r@ == value_tree(*value),
        r@.well_formed(),
    decreases value_tree(*value),
{
    match open_value(value) {
        Node::Null => Json::Null,
        Node::Bool(b) => Json::Bool(b),
        Node::Number(n) => Json::Number(n),
        Node::Text(s) => Json::Text(s.clone()),
        Node::Array(items) => {
            let ghost all = value_tree(*value)->Array_0;
            let mut out: Vec<Json> = Vec::new();
            let mut i: usize = 0;
            while i < items.len()
                invariant
                    decreases_to!(value_tree(*value) => all),
                    all == items@.map_values(|v: Value| value_tree(v)),
                    i <= items.len(),
                    out@.len() == i,
                    forall|k: int|
                        0 <= k < i ==> (#[trigger] out@[k])@ == all[k] && out@[k]@.well_formed(),
                decreases items.len() - i,
            {
                assert(decreases_to!(all => all[i as int]));
                out.push(to_json(&items[i]));
                i += 1;
            }
            let r = Json::Array(out);
            assert(r@.as_array()->0 =~= all);
            r
        },
        Node::Object(fields) => {
            let ghost all = value_tree(*value)->Object_0;
            let mut out: Vec<(String, Json)> = Vec::new();
            let mut i: usize = 0;
            while i < fields.len()
                invariant
                    decreases_to!(value_tree(*value) => all),
                    all == value_fields(fields@),
                    i <= fields.len(),
                    out@.len() == i,
                    forall|k: int|
                        0 <= k < i ==> ((#[trigger] out@[k]).0@, out@[k].1@) == all[k]
                            && out@[k].1@.well_formed(),
                decreases fields.len() - i,
            {
                assert(decreases_to!(all => all[i as int]));
                assert(decreases_to!(all[i as int] => all[i as int].1));
                let (name, field) = fields[i];
                out.push((name.clone(), to_json(field)));
                i += 1;
            }
            let r = Json::Object(out);
            assert(r@.as_object()->0 =~= all);
            r
        },
    }
}

/// The document that a text is, and nothing where it is none.
pub fn parse_json(text: &str) -> (r: Option<Json>)
    ensures
        r is Some == parsed_tree(text@) is Some,
        r is Some ==> r->0@ == parsed_tree(text@)->0 && r->0@.well_formed(),
{
    match parse_value(text) {
        Ok(value) => Some(to_json(&value)),
        Err(_) => None,
    }
}

/// The text of the field `key` of a document, without white space.
pub open spec fn field_text(tree: JsonTree, key: Seq<char>) -> Option<Seq<char>> {
    match tree.get(key) {
        Some(field) => Some(compact_text(field)),
        None => None,
    }
}

/// The document that a text is, together with the text of its field `key`.
pub fn parse_with_field(text: &str, key: &str) -> (r: Option<(Json, Option<String>)>)
    ensures
        r is Some == parsed_tree(text@) is Some,
        r matches Some((json, field)) ==> {
            &&& json@ == parsed_tree(text@)->0
            &&& json@.well_formed()
            &&& text::opt_view(field) == field_text(json@, key@)
        },
{
    match parse_value(text) {
        Ok(value) => {
            let field = match value_field(&value, key) {
                Some(field) => Some(render_value(field)),
                None => None,
            };
            Some((to_json(&value), field))
        },
        Err(_) => None,
    }
}

/// `Value::from` on a text.
#[verifier::external_body]
pub(crate) fn text_value(s: &str) -> (r: Value)
    ensures
        value_tree(r) == JsonTree::Text(s@),
{
    Value::from(s)
}

/// `Value::from` on an unsigned integer.
#[verifier::external_body]
pub(crate) fn integer_value(n: u64) -> (r: Value)
    ensures
        value_tree(r) == JsonTree::Number(JsonNumber::PosInt(n)),
{
    Value::from(n)
}

/// `Value::from` on a boolean.
#[verifier::external_body]
pub(crate) fn bool_value(b: bool) -> (r: Value)
    ensures
        value_tree(r) == JsonTree::Bool(b),
{
    Value::from(b)
}

/// The names of the fields ascend.
pub open spec fn ascending_names<T>(fields: Seq<(Seq<char>, T)>) -> bool {
    forall|i: int, j: int|
        0 <= i < j < fields.len() ==> text::text_before(
            (#[trigger] fields[i]).0,
            (#[trigger] fields[j]).0,
        )
}

/// `Value::from_iter` on fields whose names ascend: the object with these fields in this order.
#[verifier::external_body]
pub(crate) fn object_value(fields: Vec<(String, Value)>) -> (r: Value)
    requires
        ascending_names(owned_fields(fields@)),
    ensures
        value_tree(r) == JsonTree::Object(owned_fields(fields@)),
{
    Value::from_iter(fields)
}

/// The names and documents of a list of fields.
pub open spec fn owned_fields(fields: Seq<(String, Value)>) -> Seq<(Seq<char>, JsonTree)> {
    fields.map_values(|f: (String, Value)| (f.0@, value_tree(f.1)))
}

} // verus!
