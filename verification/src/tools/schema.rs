//! Building the input schemas of the built-in tools.

use vstd::prelude::*;
use crate::json::{JsonSpec, JsonValue, pairs_to_entries, specs_of};

verus! {

/// A property described by its type and description.
pub open spec fn prop_spec(ty: Seq<char>, description: Seq<char>) -> JsonSpec {
    JsonSpec::Object(pairs_to_entries(seq![
        ("type"@, JsonSpec::Str(ty)),
        ("description"@, JsonSpec::Str(description)),
    ]))
}

/// A property with one more entry (a default or an enumeration).
pub open spec fn prop_with_spec(ty: Seq<char>, description: Seq<char>, key: Seq<char>, extra: JsonSpec) -> JsonSpec {
    JsonSpec::Object(pairs_to_entries(seq![
        ("type"@, JsonSpec::Str(ty)),
        ("description"@, JsonSpec::Str(description)),
        (key, extra),
    ]))
}

/// JSON strings for texts.
pub open spec fn str_specs(v: Seq<Seq<char>>) -> Seq<JsonSpec> {
    Seq::new(v.len(), |i: int| JsonSpec::Str(v[i]))
}

/// An object schema with these properties and required names.
pub open spec fn object_schema_spec(props: Seq<(Seq<char>, JsonSpec)>, required: Seq<Seq<char>>) -> JsonSpec {
    JsonSpec::Object(pairs_to_entries(seq![
        ("type"@, JsonSpec::Str("object"@)),
        ("properties"@, JsonSpec::Object(pairs_to_entries(props))),
        ("required"@, JsonSpec::Array(str_specs(required))),
    ]))
}

/// A property described by its type and description.
pub fn property(ty: &str, description: &str) -> (r: JsonValue)
    ensures
        r@ == prop_spec(ty@, description@),
{
    let pairs = vec![
        (String::from_str("type"), JsonValue::from_str(ty)),
        (String::from_str("description"), JsonValue::from_str(description)),
    ];
    assert(specs_of(pairs@) =~= seq![("type"@, JsonSpec::Str(ty@)), ("description"@, JsonSpec::Str(description@))]);
    JsonValue::object(pairs)
}

/// A property with one more entry.
pub fn property_with(ty: &str, description: &str, key: &str, extra: JsonValue) -> (r: JsonValue)
    ensures
        r@ == prop_with_spec(ty@, description@, key@, extra@),
{
    let ghost e = extra@;
    let pairs = vec![
        (String::from_str("type"), JsonValue::from_str(ty)),
        (String::from_str("description"), JsonValue::from_str(description)),
        (key.to_string(), extra),
    ];
    assert(specs_of(pairs@) =~= seq![
        ("type"@, JsonSpec::Str(ty@)),
        ("description"@, JsonSpec::Str(description@)),
        (key@, e),
    ]);
    JsonValue::object(pairs)
}

/// A JSON array of strings.
pub fn string_list(items: Vec<&str>) -> (r: JsonValue)
    ensures
        r@ == JsonSpec::Array(str_specs(Seq::new(items@.len(), |i: int| items@[i]@))),
{
    let mut vals: Vec<JsonValue> = Vec::new();
    let mut i: usize = 0;
    while i < items.len()
        invariant
            i <= items.len(),
            vals.len() == i,
            forall|j: int| 0 <= j < i ==> (#[trigger] vals@[j])@ == JsonSpec::Str(items@[j]@),
        decreases items.len() - i,
    {
        vals.push(JsonValue::from_str(items[i]));
        i = i + 1;
    }
    proof {
        crate::json::lemma_views_of(vals@);
        assert(crate::json::views_of(vals@) =~= str_specs(Seq::new(items@.len(), |i: int| items@[i]@)));
    }
    JsonValue::array(vals)
}

/// An object schema with these properties and required names.
pub fn object_schema(props: Vec<(String, JsonValue)>, required: Vec<&str>) -> (r: JsonValue)
    ensures
        r@ == object_schema_spec(specs_of(props@), Seq::new(required@.len(), |i: int| required@[i]@)),
{
    let ghost p = specs_of(props@);
    let ghost req = Seq::new(required@.len(), |i: int| required@[i]@);
    let properties = JsonValue::object(props);
    let req_list = string_list(required);
    let pairs = vec![
        (String::from_str("type"), JsonValue::from_str("object")),
        (String::from_str("properties"), properties),
        (String::from_str("required"), req_list),
    ];
    assert(specs_of(pairs@) =~= seq![
        ("type"@, JsonSpec::Str("object"@)),
        ("properties"@, JsonSpec::Object(pairs_to_entries(p))),
        ("required"@, JsonSpec::Array(str_specs(req))),
    ]);
    JsonValue::object(pairs)
}

} // verus!
