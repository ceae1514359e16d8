//! JSON arguments of tool calls: the fields of a top-level object.

use serde_json::Value;
use vstd::prelude::*;
use crate::text;

verus! {

/// A value of `serde_json`, which is only carried.
#[verifier::external_type_specification]
#[verifier::external_body]
pub struct ExValue(serde_json::Value);

/// The value of a field. What lists and objects hold is left as it came.
#[derive(Debug)]
pub enum JsonField {
    Null,
    Bool(bool),
    Number(String),
    Text(String),
    List(Vec<Value>),
    Object(Value),
}

/// What is read of a field's value: of a list its length, and of an object
/// only that it is one.
pub enum FieldView {
    Null,
    Bool(bool),
    Number(Seq<char>),
    Text(Seq<char>),
    List(nat),
    Object,
}

impl View for JsonField {
    type V = FieldView;

    open spec fn view(&self) -> FieldView {
        match self {
            JsonField::Null => FieldView::Null,
            JsonField::Bool(b) => FieldView::Bool(*b),
            JsonField::Number(s) => FieldView::Number(s@),
            JsonField::Text(s) => FieldView::Text(s@),
            JsonField::List(v) => FieldView::List(v@.len()),
            JsonField::Object(_) => FieldView::Object,
        }
    }
}

/// What the fields of an object hold.
pub open spec fn fields_view(v: Seq<(String, JsonField)>) -> Seq<(Seq<char>, FieldView)> {
    v.map_values(|f: (String, JsonField)| (f.0@, f.1@))
}

/// What a text is to JSON.
pub enum Parsed {
    /// No JSON.
    Invalid,
    /// A value that is no object.
    Other(Value),
    /// An object.
    Object(Vec<(String, JsonField)>),
}

/// What a parsed text holds.
pub enum ParsedView {
    Invalid,
    Other,
    Object(Seq<(Seq<char>, FieldView)>),
}

impl View for Parsed {
    type V = ParsedView;

    open spec fn view(&self) -> ParsedView {
        match self {
            Parsed::Invalid => ParsedView::Invalid,
            Parsed::Other(_) => ParsedView::Other,
            Parsed::Object(v) => ParsedView::Object(fields_view(v@)),
        }
    }
}

/// What `serde_json` makes of a text.
pub uninterp spec fn json_parsed(s: Seq<char>) -> ParsedView;

/// `serde_json::from_str` into a `serde_json::Value`: what the text is to
/// JSON, a function of the text alone. The fields of an object come in the
/// order in which `serde_json` keeps them. Nothing is said of which texts
/// are JSON.
#[verifier::external_body]
fn parse(text: &str) -> (r: Parsed)
    ensures
        r@ == json_parsed(text@),
{
    match serde_json::from_str::<Value>(text) {
        Ok(Value::Object(map)) => Parsed::Object(map.into_iter().map(|(k, v)| (k, match v {
            Value::Null => JsonField::Null,
            Value::Bool(b) => JsonField::Bool(b),
            Value::Number(n) => JsonField::Number(n.to_string()),
            Value::String(s) => JsonField::Text(s),
            Value::Array(a) => JsonField::List(a),
            Value::Object(o) => JsonField::Object(Value::Object(o)),
        })).collect()),
        Ok(other) => Parsed::Other(other),
        Err(_) => Parsed::Invalid,
    }
}

/// The fields of the JSON object that a text is; `None` where it is no JSON
/// object.
pub open spec fn json_fields(s: Seq<char>) -> Option<Seq<(Seq<char>, FieldView)>> {
    match json_parsed(s) {
        ParsedView::Object(fields) => Some(fields),
        _ => None,
    }
}

/// The value of the field `key`, or `None`.
pub open spec fn lookup(fields: Seq<(Seq<char>, FieldView)>, key: Seq<char>) -> Option<FieldView>
    decreases fields.len(),
{
    if fields.len() == 0 {
        None
    } else if fields[0].0 == key {
        Some(fields[0].1)
    } else {
        lookup(fields.skip(1), key)
    }
}

/// The fields of a JSON object.
pub struct JsonObject {
    pub fields: Vec<(String, JsonField)>,
}

impl View for JsonObject {
    type V = Seq<(Seq<char>, FieldView)>;

    open spec fn view(&self) -> Seq<(Seq<char>, FieldView)> {
        fields_view(self.fields@)
    }
}

/// What an optional object holds.
pub open spec fn object_view(o: Option<JsonObject>) -> Option<Seq<(Seq<char>, FieldView)>> {
    match o {
        Some(o) => Some(o@),
        None => None,
    }
}

impl JsonObject {
    /// The object that `text` is; `None` where it is no JSON object.
    pub fn parse(text: &str) -> (r: Option<JsonObject>)
        ensures
            object_view(r) == json_fields(text@),
    {
        match parse(text) {
            Parsed::Object(fields) => Some(JsonObject { fields }),
            _ => None,
        }
    }

    /// The value of the field `key`, or `None`.
    pub fn get(&self, key: &str) -> (r: Option<&JsonField>)
        ensures
            match r {
                Some(f) => lookup(self@, key@) == Some(f@),
                None => lookup(self@, key@) is None,
            },
    {
        let mut i: usize = 0;
        assert(self@.skip(0) =~= self@);
        while i < self.fields.len()
            invariant
                i <= self.fields@.len(),
                lookup(self@.skip(i as int), key@) == lookup(self@, key@),
            decreases self.fields@.len() - i,
        {
            let ghost rest = self@.skip(i as int);
            assert(rest[0] == (self.fields@[i as int].0@, self.fields@[i as int].1@));
            assert(rest.skip(1) =~= self@.skip(i + 1));
            if text::same_text(self.fields[i].0.as_str(), key) {
                return Some(&self.fields[i].1);
            }
            i = i + 1;
        }
        None
    }

    /// The text of the field `key`; `None` where it is missing or no string.
    pub fn get_text(&self, key: &str) -> (r: Option<String>)
        ensures
            match r {
                Some(s) => text_field(self@, key@) == Some(s@),
                None => text_field(self@, key@) is None,
            },
    {
        match self.get(key) {
            Some(JsonField::Text(s)) => Some(s.clone()),
            _ => None,
        }
    }
}

/// The text of the field `key`; `None` where it is missing or no string.
pub open spec fn text_field(fields: Seq<(Seq<char>, FieldView)>, key: Seq<char>) -> Option<
    Seq<char>,
> {
    match lookup(fields, key) {
        Some(FieldView::Text(s)) => Some(s),
        _ => None,
    }
}

// ── Fields of tool calls ────────────────────────────────────────────────

/// The text field `key` of the arguments of a call: empty where the
/// arguments have none, and the arguments themselves where they are no JSON.
pub open spec fn argument(parsed: ParsedView, arguments: Seq<char>, key: Seq<char>) -> Seq<char> {
    match parsed {
        ParsedView::Invalid => arguments,
        ParsedView::Other => Seq::empty(),
        ParsedView::Object(fields) => match text_field(fields, key) {
            Some(s) => s,
            None => Seq::empty(),
        },
    }
}

/// The text field `key` of parsed arguments.
pub fn argument_of(parsed: Parsed, arguments: &str, key: &str) -> (r: String)
    ensures
        r@ == argument(parsed@, arguments@, key@),
{
    match parsed {
        Parsed::Invalid => arguments.to_owned(),
        Parsed::Other(_) => String::new(),
        Parsed::Object(fields) => {
            let object = JsonObject { fields };
            match object.get_text(key) {
                Some(s) => s,
                None => String::new(),
            }
        },
    }
}

/// The text field `key` of the arguments of a call.
pub fn get_argument(arguments: &str, key: &str) -> (r: String)
    ensures
        r@ == argument(json_parsed(arguments@), arguments@, key@),
{
    argument_of(parse(arguments), arguments, key)
}

} // verus!
