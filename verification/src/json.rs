//! The JSON documents that configurations are stored as, and the boundary to
//! `serde_json`, which reads and writes their text.

use vstd::prelude::*;

verus! {

/// Why a text was not accepted as a configuration, or as a part of one.
#[derive(Debug, Clone, Copy, PartialEq, Eq, Structural)]
pub enum ParseError {
    /// The text is not a well-formed JSON document.
    Syntax,
    /// An object lacks a field that the format requires.
    MissingField,
    /// A value is of another kind than the format has at its place, or a
    /// number is no unsigned 32-bit integer.
    Mismatch,
    /// An operation is named that is none of `overwrite`, `update`, `upsert`.
    UnknownOperation,
}

/// A JSON document as a tree of plain values.
///
/// The fields of an object are kept in the order in which they are written.
#[derive(Debug, PartialEq, Eq)]
pub enum Json {
    Null,
    Bool(bool),
    /// A number: its value where it is an integer from 0 to 2^64 - 1, and
    /// `None` for every other number (negative, fractional or larger).
    Number(Option<u64>),
    String(String),
    Array(Vec<Json>),
    Object(Vec<(String, Json)>),
}

/// The mathematical value of a [`Json`] tree.
pub enum JsonView {
    Null,
    Bool(bool),
    Number(Option<u64>),
    String(Seq<char>),
    Array(Seq<JsonView>),
    Object(Seq<(Seq<char>, JsonView)>),
}

/// The value of each document, document by document.
pub open spec fn item_views(items: Seq<Json>) -> Seq<JsonView>
    decreases items, 1nat,
{
    Seq::new(items.len(), |i: int| item_view(items, i))
}

/// The value of the document at position `i`.
pub open spec fn item_view(items: Seq<Json>, i: int) -> JsonView
    decreases items, 0nat,
{
    if 0 <= i < items.len() {
        items[i].view()
    } else {
        JsonView::Null
    }
}

/// The name and the value of each field, field by field.
pub open spec fn field_views(fields: Seq<(String, Json)>) -> Seq<(Seq<char>, JsonView)>
    decreases fields, 1nat,
{
    Seq::new(fields.len(), |i: int| field_view(fields, i))
}

/// The name and the value of the field at position `i`.
pub open spec fn field_view(fields: Seq<(String, Json)>, i: int) -> (Seq<char>, JsonView)
    decreases fields, 0nat,
{
    if 0 <= i < fields.len() {
        (fields[i].0@, fields[i].1.view())
    } else {
        (Seq::empty(), JsonView::Null)
    }
}

impl View for Json {
    type V = JsonView;

    open spec fn view(&self) -> JsonView
        decreases self, 2nat,
    {
        match self {
            Json::Null => JsonView::Null,
            Json::Bool(b) => JsonView::Bool(*b),
            Json::Number(n) => JsonView::Number(*n),
            Json::String(s) => JsonView::String(s@),
            Json::Array(items) => JsonView::Array(item_views(items@)),
            Json::Object(fields) => JsonView::Object(field_views(fields@)),
        }
    }
}

/// `serde_json::Value`, carried through and never looked into.
#[verifier::external_type_specification]
#[verifier::external_body]
pub struct ExJsonValue(serde_json::Value);

/// `serde_json::Error`, carried through and never looked into.
#[verifier::external_type_specification]
#[verifier::external_body]
pub struct ExJsonError(serde_json::Error);

/// The tree that `serde_json::from_str` reads from a text, or `None` where it
/// reports the text as no JSON document.
pub uninterp spec fn json_of_text(text: Seq<char>) -> Option<JsonView>;

/// The text that `serde_json::to_string_pretty` writes for a tree, or `None`
/// where it reports an error.
pub uninterp spec fn text_of_json(tree: JsonView) -> Option<Seq<char>>;

/// Moves a `serde_json::Value` into a [`Json`] tree, variant by variant. A
/// number goes through `serde_json::Number::as_u64`; the fields of an object
/// come in the order in which `serde_json::Map` hands them out. Nothing is
/// claimed of the tree but through [`read_text`].
#[verifier::external_body]
fn tree_of_value(value: serde_json::Value) -> Json {
    match value {
        serde_json::Value::Null => Json::Null,
        serde_json::Value::Bool(b) => Json::Bool(b),
        serde_json::Value::Number(n) => Json::Number(n.as_u64()),
        serde_json::Value::String(s) => Json::String(s),
        serde_json::Value::Array(items) => Json::Array(
            items.into_iter().map(tree_of_value).collect(),
        ),
        serde_json::Value::Object(fields) => Json::Object(
            fields.into_iter().map(|(key, item)| (key, tree_of_value(item))).collect(),
        ),
    }
}

/// Copies a [`Json`] tree into a `serde_json::Value`, variant by variant. A
/// number goes through serde_json's `From<Option<u64>>`, which makes `null`
/// of `None`; the fields of an object are collected into a
/// `serde_json::Map` in their order, where a name that comes again
/// replaces the value of its first field.
#[verifier::external_body]
fn value_of_tree(tree: &Json) -> serde_json::Value {
    match tree {
        Json::Null => serde_json::Value::Null,
        Json::Bool(b) => serde_json::Value::Bool(*b),
        Json::Number(n) => serde_json::Value::from(*n),
        Json::String(s) => serde_json::Value::String(s.clone()),
        Json::Array(items) => serde_json::Value::Array(
            items.iter().map(value_of_tree).collect(),
        ),
        Json::Object(fields) => serde_json::Value::Object(
            fields.iter().map(|(key, item)| (key.clone(), value_of_tree(item))).collect(),
        ),
    }
}

/// `serde_json::from_str`, read as a `serde_json::Value`. The contract names
/// what it returns: the tree on success, an error exactly where the text is
/// not accepted. Nothing is claimed of which texts those are.
#[verifier::external_body]
fn read_text(text: &str) -> (r: Result<Json, serde_json::Error>)
    ensures
        match r {
            Ok(tree) => json_of_text(text@) == Some(tree@),
            Err(_) => json_of_text(text@) is None,
        },
{
    serde_json::from_str::<serde_json::Value>(text).map(tree_of_value)
}

/// `serde_json::to_string_pretty`, applied to the tree as a
/// `serde_json::Value`. The contract names what it returns; nothing is
/// claimed of the text itself.
#[verifier::external_body]
fn write_text(tree: &Json) -> (r: Result<String, serde_json::Error>)
    ensures
        match r {
            Ok(text) => text_of_json(tree@) == Some(text@),
            Err(_) => text_of_json(tree@) is None,
        },
{
    serde_json::to_string_pretty(&value_of_tree(tree))
}

impl Json {
    /// Reads a JSON document from its text.
    pub fn parse(text: &str) -> (r: Result<Json, ParseError>)
        ensures
            match r {
                Ok(tree) => json_of_text(text@) == Some(tree@),
                Err(e) => e == ParseError::Syntax && json_of_text(text@) is None,
            },
    {
        match read_text(text) {
            Ok(tree) => Ok(tree),
            Err(_) => Err(ParseError::Syntax),
        }
    }

    /// Writes the document as indented text, or `None` where it cannot be
    /// written.
    pub fn to_text(&self) -> (r: Option<String>)
        ensures
            match r {
                Some(text) => text_of_json(self@) == Some(text@),
                None => text_of_json(self@) is None,
            },
    {
        match write_text(self) {
            Ok(text) => Some(text),
            Err(_) => None,
        }
    }
}

} // verus!
