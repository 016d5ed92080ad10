//! Reading a configuration from JSON text.

use crate::config::{ConfigNumber, ConfigValue, Json};
use crate::config;
use vstd::prelude::*;

verus! {

/// A JSON document as `serde_json` holds it.
#[verifier::external_type_specification]
#[verifier::external_body]
pub struct ExJsonValue(serde_json::Value);

/// What a `serde_json::Value` holds.
pub uninterp spec fn json_content(v: serde_json::Value) -> Json;

/// What `serde_json::from_str` makes of a text: the content of the document, or what the error
/// says.
pub uninterp spec fn parsed_json(text: Seq<char>) -> Result<Json, Seq<char>>;

/// One level of a JSON document.
pub enum JsonNode<'a> {
    Null,
    Bool(bool),
    Number(ConfigNumber),
    String(&'a str),
    Array(&'a [serde_json::Value]),
    Object(Vec<(&'a str, &'a serde_json::Value)>),
}

impl<'a> JsonNode<'a> {
    /// The content of the level and of what lies below it.
    pub open spec fn content(self) -> Json {
        match self {
            JsonNode::Null => Json::Null,
            JsonNode::Bool(b) => Json::Bool(b),
            JsonNode::Number(n) => Json::Number(n),
            JsonNode::String(s) => Json::String(s@),
            JsonNode::Array(items) => Json::Array(
                Seq::new(items@.len(), |i: int| json_content(items@[i])),
            ),
            JsonNode::Object(members) => Json::Object(
                Seq::new(members@.len(), |i: int| (members@[i].0@, json_content(*members@[i].1))),
            ),
        }
    }
}

/// The content of one level is the level itself, with the contents of what lies below it.
pub proof fn law_level_content(node: JsonNode<'_>)
    ensures
        match node {
            JsonNode::Null => node.content() == Json::Null,
            JsonNode::Bool(b) => node.content() == Json::Bool(b),
            JsonNode::Number(n) => node.content() == Json::Number(n),
            JsonNode::String(s) => node.content() == Json::String(s@),
            JsonNode::Array(items) => {
                &&& node.content() matches Json::Array(contents)
                &&& contents.len() == items@.len()
                &&& forall|i: int|
                    0 <= i < items@.len() ==> #[trigger] contents[i] == json_content(items@[i])
            },
            JsonNode::Object(members) => {
                &&& node.content() matches Json::Object(contents)
                &&& contents.len() == members@.len()
                &&& forall|i: int|
                    0 <= i < members@.len() ==> (#[trigger] contents[i]).0 == members@[i].0@
                        && contents[i].1 == json_content(*members@[i].1)
            },
        },
{
}

/// Calls `serde_json::from_str`. The document, or the text of the error, is a function of the
/// text that was parsed.
#[verifier::external_body]
fn parse_value(text: &str) -> (r: Result<serde_json::Value, String>)
    ensures
        parsed_json(text@) == match r {
            Ok(v) => Ok::<Json, Seq<char>>(json_content(v)),
            Err(e) => Err::<Json, Seq<char>>(e@),
        },
{
    serde_json::from_str::<serde_json::Value>(text).map_err(|e| e.to_string())
}

/// Tells the variants of a `serde_json::Value` apart, and reads a number with
/// `serde_json::Number::as_u64`, `as_i64` and `as_f64`. The members of an object come in the
/// order of the map that holds them, which is sorted by name. Every number can be read as a
/// double-precision one.
#[verifier::external_body]
fn open_value<'a>(v: &'a serde_json::Value) -> (r: JsonNode<'a>)
    ensures
        r.content() == json_content(*v),
        r matches JsonNode::Number(n) ==> n.double is Some,
{
    match v {
        serde_json::Value::Null => JsonNode::Null,
        serde_json::Value::Bool(b) => JsonNode::Bool(*b),
        serde_json::Value::Number(n) => JsonNode::Number(ConfigNumber {
            unsigned: n.as_u64(),
            signed: n.as_i64(),
            double: n.as_f64().map(|x| x.to_bits()),
        }),
        serde_json::Value::String(s) => JsonNode::String(s),
        serde_json::Value::Array(items) => JsonNode::Array(items),
        serde_json::Value::Object(m) => JsonNode::Object(m.iter().map(|(k, x)| (k.as_str(), x)).collect()),
    }
}

/// Every number in a document can be read as a double-precision one.
pub open spec fn numbers_are_doubles(j: Json) -> bool
    decreases j,
{
    match j {
        Json::Number(n) => n.double is Some,
        Json::Array(items) => forall|i: int|
            0 <= i < items.len() ==> numbers_are_doubles(#[trigger] items[i]),
        Json::Object(members) => forall|i: int|
            0 <= i < members.len() ==> numbers_are_doubles((#[trigger] members[i]).1),
        _ => true,
    }
}

/// A document in the library's own terms.
fn converted(v: &serde_json::Value) -> (r: ConfigValue)
    ensures
        r@ == json_content(*v),
        numbers_are_doubles(r@),
    decreases json_content(*v),
{
    let ghost all = json_content(*v);
    match open_value(v) {
        JsonNode::Null => ConfigValue::Null,
        JsonNode::Bool(b) => ConfigValue::Bool(b),
        JsonNode::Number(n) => ConfigValue::Number(n),
        JsonNode::String(s) => ConfigValue::String(s.to_owned()),
        JsonNode::Array(items) => {
            let mut r: Vec<ConfigValue> = Vec::new();
            let mut i: usize = 0;
            while i < items.len()
                invariant
                    i <= items@.len(),
                    r@.len() == i,
                    all == JsonNode::Array(items).content(),
                    all == json_content(*v),
                    forall|j: int|
                        0 <= j < i ==> (#[trigger] r@[j])@ == json_content(items@[j])
                            && numbers_are_doubles(r@[j]@),
                decreases items@.len() - i,
            {
                assert(all->Array_0[i as int] == json_content(items@[i as int]));
                let item = converted(&items[i]);
                r.push(item);
                i = i + 1;
            }
            proof {
                config::lemma_array_view(r);
                assert(config::models(r@) =~= all->Array_0);
            }
            ConfigValue::Array(r)
        },
        JsonNode::Object(members) => {
            let mut r: Vec<(String, ConfigValue)> = Vec::new();
            let mut i: usize = 0;
            while i < members.len()
                invariant
                    i <= members@.len(),
                    r@.len() == i,
                    all == JsonNode::Object(members).content(),
                    all == json_content(*v),
                    forall|j: int|
                        0 <= j < i ==> (#[trigger] r@[j]).0@ == members@[j].0@ && r@[j].1@
                            == json_content(*members@[j].1) && numbers_are_doubles(r@[j].1@),
                decreases members@.len() - i,
            {
                assert(all->Object_0[i as int].1 == json_content(*members@[i as int].1));
                let item = converted(members[i].1);
                r.push((members[i].0.to_owned(), item));
                i = i + 1;
            }
            proof {
                config::lemma_object_view(r);
                assert(config::member_models(r@) =~= all->Object_0);
            }
            ConfigValue::Object(r)
        },
    }
}

/// A text that is no JSON document, and what is wrong with it.
#[derive(Debug)]
pub struct ConfigError {
    pub message: String,
}

/// Reads a configuration from JSON text.
pub fn parse_config(text: &str) -> (r: Result<ConfigValue, ConfigError>)
    ensures
        parsed_json(text@) == match r {
            Ok(v) => Ok::<Json, Seq<char>>(v@),
            Err(e) => Err::<Json, Seq<char>>(e.message@),
        },
        r matches Ok(v) ==> numbers_are_doubles(v@),
{
    match parse_value(text) {
        Ok(v) => Ok(converted(&v)),
        Err(message) => Err(ConfigError { message }),
    }
}

} // verus!
