//! Tool definitions (with schema and argument validation), tool outputs and
//! the per-call execution context.

use vstd::prelude::*;

use crate::error::{Error, ErrorKind};
use crate::json::{has_key, lookup, JsonMap, JsonSpec, JsonValue};
use crate::text::{chars_of, str_eq};

verus! {

// ---------------------------------------------------------------------------
// Validation, as mathematics
// ---------------------------------------------------------------------------

/// A validation outcome as a plain value: the error's kind and message.
pub type Verdict = Result<(), (ErrorKind, Seq<char>)>;

/// The plain value of a validation result.
pub open spec fn verdict_of(r: Result<(), Error>) -> Verdict {
    match r {
        Ok(()) => Ok(()),
        Err(e) => Err((e.kind(), e.msg())),
    }
}

/// A character allowed in a model-visible tool name.
pub open spec fn is_wire_safe_char(c: char) -> bool {
    ('a' <= c <= 'z') || ('A' <= c <= 'Z') || ('0' <= c <= '9') || c == '_' || c == '-'
}

/// A name the LLM tool-calling APIs accept: `^[A-Za-z0-9_-]{1,64}$`.
pub open spec fn is_wire_safe(name: Seq<char>) -> bool {
    &&& 1 <= name.len() <= 64
    &&& forall|i: int| 0 <= i < name.len() ==> #[trigger] is_wire_safe_char(name[i])
}

/// The message of a rejected tool name.
pub open spec fn unsafe_name_message(name: Seq<char>) -> Seq<char> {
    "tool name '"@ + name
        + "' is not LLM-wire-safe (must match ^[A-Za-z0-9_-]{1,64}$); put namespacing in internal_name via ToolDef::with_internal_name"@
}

/// Every entry of `required` is a string naming a key of `props`.
pub open spec fn required_check(required: Seq<JsonSpec>, props: Seq<(Seq<char>, JsonSpec)>) -> Verdict
    decreases required.len(),
{
    if required.len() == 0 {
        Ok(())
    } else {
        match required[0] {
            JsonSpec::Str(name) => {
                if has_key(props, name) {
                    required_check(required.drop_first(), props)
                } else {
                    Err((ErrorKind::Validation, "required field not in properties: "@ + name))
                }
            },
            _ => Err((ErrorKind::Validation, "input_schema.required entries must be strings"@)),
        }
    }
}

/// Whether an input schema is well formed: an object whose `type` is
/// `"object"`, whose `properties` is an object, and whose `required`, when
/// present, lists names of properties.
pub open spec fn schema_check(schema: JsonSpec) -> Verdict {
    match schema {
        JsonSpec::Object(s) => {
            if lookup(s, "type"@) != Some(JsonSpec::Str("object"@)) {
                Err((ErrorKind::Validation, "input_schema.type must be \"object\""@))
            } else {
                match lookup(s, "properties"@) {
                    Some(JsonSpec::Object(props)) => match lookup(s, "required"@) {
                        None => Ok(()),
                        Some(JsonSpec::Array(req)) => required_check(req, props),
                        Some(_) => Err((ErrorKind::Validation, "input_schema.required must be an array"@)),
                    },
                    _ => Err((ErrorKind::Validation, "input_schema.properties must be an object"@)),
                }
            }
        },
        _ => Err((ErrorKind::Validation, "input_schema must be a JSON object"@)),
    }
}

/// Whether `value` has the JSON-Schema type named `t` (unknown names accept
/// anything).
pub open spec fn type_matches(t: Seq<char>, value: JsonSpec) -> bool {
    if t == "string"@ {
        value is Str
    } else if t == "number"@ {
        value is Number
    } else if t == "integer"@ {
        value matches JsonSpec::Number(crate::json::JsonNumber::Int(n)) && i64::MIN <= n <= u64::MAX
    } else if t == "boolean"@ {
        value is Bool
    } else if t == "object"@ {
        value is Object
    } else if t == "array"@ {
        value is Array
    } else if t == "null"@ {
        value is Null
    } else {
        true
    }
}

/// The first required name (in schema order) that the arguments lack.
pub open spec fn first_missing(required: Seq<JsonSpec>, args: Seq<(Seq<char>, JsonSpec)>) -> Option<Seq<char>>
    decreases required.len(),
{
    if required.len() == 0 {
        None
    } else {
        match required[0] {
            JsonSpec::Str(name) => if has_key(args, name) {
                first_missing(required.drop_first(), args)
            } else {
                Some(name)
            },
            _ => first_missing(required.drop_first(), args),
        }
    }
}

/// Whether one of `vals` equals `value` as serde_json compares JSON values
/// (numbers numerically).
pub open spec fn contains_same(vals: Seq<JsonSpec>, value: JsonSpec) -> bool {
    exists|i: int| 0 <= i < vals.len() && #[trigger] crate::json::json_same(vals[i], value)
}

/// What one argument violates of its property schema, if anything: first its
/// declared type, then its enumeration.
pub open spec fn field_error(key: Seq<char>, value: JsonSpec, spec: Seq<(Seq<char>, JsonSpec)>) -> Option<(ErrorKind, Seq<char>)> {
    let type_error = match lookup(spec, "type"@) {
        Some(JsonSpec::Str(t)) => !type_matches(t, value),
        _ => false,
    };
    if type_error {
        Some((ErrorKind::Validation, "field "@ + key + " expected type "@ + lookup(spec, "type"@)->Some_0->Str_0))
    } else {
        match lookup(spec, "enum"@) {
            Some(JsonSpec::Array(vals)) => if contains_same(vals, value) {
                None
            } else {
                Some((ErrorKind::Validation, "field "@ + key + " is not in enum"@))
            },
            _ => None,
        }
    }
}

/// The first violation among the arguments, in key order. Arguments without
/// an object schema among the properties are not checked.
pub open spec fn fields_check(args: Seq<(Seq<char>, JsonSpec)>, props: Seq<(Seq<char>, JsonSpec)>) -> Verdict
    decreases args.len(),
{
    if args.len() == 0 {
        Ok(())
    } else {
        let violation = match lookup(props, args[0].0) {
            Some(JsonSpec::Object(spec)) => field_error(args[0].0, args[0].1, spec),
            _ => None,
        };
        match violation {
            Some(e) => Err(e),
            None => fields_check(args.drop_first(), props),
        }
    }
}

/// The outcome of checking arguments against an input schema: the schema is
/// checked first, then that the arguments are an object, then that every
/// required field is present, then the type and enumeration of each field.
pub open spec fn args_check(schema: JsonSpec, args: JsonSpec) -> Verdict {
    match schema_check(schema) {
        Err(e) => Err(e),
        Ok(()) => {
            let props = lookup(schema->Object_0, "properties"@)->Some_0->Object_0;
            match args {
                JsonSpec::Object(a) => {
                    let missing = match lookup(schema->Object_0, "required"@) {
                        Some(JsonSpec::Array(req)) => first_missing(req, a),
                        _ => None,
                    };
                    match missing {
                        Some(name) => Err((ErrorKind::MissingField, name)),
                        None => fields_check(a, props),
                    }
                },
                _ => Err((ErrorKind::Validation, "tool args must be a JSON object"@)),
            }
        },
    }
}

// ---------------------------------------------------------------------------
// ToolDef
// ---------------------------------------------------------------------------

/// Host-side tool definition: the model-visible `name`, `description` and
/// `input_schema`, plus an `internal_name` used for collision detection and
/// audit correlation (never sent to the model).
#[derive(Debug)]
pub struct ToolDef {
    /// Model-visible tool name.
    pub name: String,
    /// Human-readable description shown to the model.
    pub description: String,
    /// JSON Schema object describing the accepted input.
    pub input_schema: JsonValue,
    /// Host-side identifier; defaults to `name`.
    pub internal_name: String,
}

/// The error for arguments that passed validation but do not deserialize
/// into the caller's type: a parse error `invalid args: {msg}`.
pub fn invalid_args_error(msg: &str) -> (r: Error)
    ensures
        r.kind() == ErrorKind::Parse,
        r.msg() == "invalid args: "@ + msg@,
{
    let mut m = String::from_str("invalid args: ");
    m.append(msg);
    Error::Parse(m)
}

impl Clone for ToolDef {
    /// A copy with the same name, description, schema and internal name.
    fn clone(&self) -> (r: Self)
        ensures
            r.name@ == self.name@,
            r.description@ == self.description@,
            r.input_schema@ == self.input_schema@,
            r.internal_name@ == self.internal_name@,
    {
        ToolDef {
            name: self.name.clone(),
            description: self.description.clone(),
            input_schema: self.input_schema.deep_clone(),
            internal_name: self.internal_name.clone(),
        }
    }
}

/// Whether `name` is LLM-wire-safe: `^[A-Za-z0-9_-]{1,64}$`.
pub fn is_wire_safe_name(name: &str) -> (r: bool)
    ensures
        r == is_wire_safe(name@),
{
    let cs = chars_of(name);
    let n = cs.len();
    if n == 0 || n > 64 {
        return false;
    }
    let mut i: usize = 0;
    while i < n
        invariant
            n == cs.len(),
            cs@ == name@,
            i <= n,
            forall|j: int| 0 <= j < i ==> #[trigger] is_wire_safe_char(cs@[j]),
        decreases n - i,
    {
        let c = cs[i];
        if !(('a' <= c && c <= 'z') || ('A' <= c && c <= 'Z') || ('0' <= c && c <= '9') || c == '_' || c == '-') {
            assert(!is_wire_safe_char(name@[i as int]));
            return false;
        }
        i = i + 1;
    }
    true
}

fn validation(msg: &str) -> (e: Error)
    ensures
        e.kind() == ErrorKind::Validation,
        e.msg() == msg@,
{
    Error::Validation(msg.to_string())
}

/// `prefix + middle + suffix` as a new string.
fn concat3(prefix: &str, middle: &str, suffix: &str) -> (r: String)
    ensures
        r@ == prefix@ + middle@ + suffix@,
{
    let mut s = String::from_str(prefix);
    s.append(middle);
    s.append(suffix);
    s
}

/// The outcome of [`ToolDef::validate_input_schema`] for a schema value.
pub fn check_schema(schema: &JsonValue) -> (r: Result<(), Error>)
    ensures
        verdict_of(r) == schema_check(schema@),
{
    proof {
        reveal_strlit("type");
        reveal_strlit("object");
        reveal_strlit("properties");
        reveal_strlit("required");
    }
    let obj = match schema.as_object() {
        Some(o) => o,
        None => return Err(validation("input_schema must be a JSON object")),
    };
    let type_ok = match obj.get("type") {
        Some(t) => match t.as_str() {
            Some(ts) => str_eq(ts, "object"),
            None => false,
        },
        None => false,
    };
    if !type_ok {
        return Err(validation("input_schema.type must be \"object\""));
    }
    let props = match obj.get("properties") {
        Some(p) => match p.as_object() {
            Some(po) => po,
            None => return Err(validation("input_schema.properties must be an object")),
        },
        None => return Err(validation("input_schema.properties must be an object")),
    };
    match obj.get("required") {
        None => Ok(()),
        Some(req) => match req.as_array() {
            None => Err(validation("input_schema.required must be an array")),
            Some(items) => check_required(items, props),
        },
    }
}

fn check_required(items: &Vec<JsonValue>, props: &JsonMap) -> (r: Result<(), Error>)
    ensures
        verdict_of(r) == required_check(crate::json::views_of(items@), props@),
{
    let ghost req = crate::json::views_of(items@);
    proof {
        crate::json::lemma_views_of(items@);
        assert(req.skip(0) =~= req);
    }
    let n = items.len();
    let mut i: usize = 0;
    while i < n
        invariant
            n == items.len(),
            req == crate::json::views_of(items@),
            req.len() == n,
            forall|j: int| 0 <= j < n ==> #[trigger] req[j] == items@[j]@,
            i <= n,
            required_check(req, props@) == required_check(req.skip(i as int), props@),
        decreases n - i,
    {
        let ghost rest = req.skip(i as int);
        assert(rest[0] == items@[i as int]@);
        assert(rest.drop_first() =~= req.skip(i + 1));
        match items[i].as_str() {
            None => return Err(validation("input_schema.required entries must be strings")),
            Some(name) => {
                if !props.contains_key(name) {
                    let mut m = String::from_str("required field not in properties: ");
                    m.append(name);
                    proof {
                        reveal_strlit("required field not in properties: ");
                    }
                    return Err(Error::Validation(m));
                }
            },
        }
        i = i + 1;
    }
    Ok(())
}

/// Whether `value` has the JSON-Schema type named `t`.
pub fn value_has_type(t: &str, value: &JsonValue) -> (r: bool)
    ensures
        r == type_matches(t@, value@),
{
    proof {
        reveal_strlit("string");
        reveal_strlit("number");
        reveal_strlit("integer");
        reveal_strlit("boolean");
        reveal_strlit("object");
        reveal_strlit("array");
        reveal_strlit("null");
        crate::json::lemma_view_variant(value);
    }
    if str_eq(t, "string") {
        value.is_string()
    } else if str_eq(t, "number") {
        value.is_number()
    } else if str_eq(t, "integer") {
        value.as_i64().is_some() || value.as_u64().is_some()
    } else if str_eq(t, "boolean") {
        value.is_boolean()
    } else if str_eq(t, "object") {
        value.is_object()
    } else if str_eq(t, "array") {
        value.is_array()
    } else if str_eq(t, "null") {
        value.is_null()
    } else {
        true
    }
}

/// Whether `value` is one of `vals`, as serde_json compares JSON values.
fn contains_value(vals: &Vec<JsonValue>, value: &JsonValue) -> (r: bool)
    ensures
        r == contains_same(crate::json::views_of(vals@), value@),
{
    proof {
        crate::json::lemma_views_of(vals@);
    }
    let n = vals.len();
    let mut i: usize = 0;
    while i < n
        invariant
            n == vals.len(),
            i <= n,
            forall|j: int| 0 <= j < i ==> !crate::json::json_same(#[trigger] vals@[j]@, value@),
        decreases n - i,
    {
        if vals[i].same_as(value) {
            proof {
                crate::json::lemma_views_of(vals@);
                assert(crate::json::json_same(crate::json::views_of(vals@)[i as int], value@));
            }
            return true;
        }
        i = i + 1;
    }
    proof {
        crate::json::lemma_views_of(vals@);
        if contains_same(crate::json::views_of(vals@), value@) {
            let k = choose|k: int| 0 <= k < vals@.len() && #[trigger] crate::json::json_same(crate::json::views_of(vals@)[k], value@);
            assert(crate::json::json_same(vals@[k]@, value@));
        }
    }
    false
}

/// What one argument violates of its property schema, if anything.
fn check_field(key: &str, value: &JsonValue, spec: &JsonMap) -> (r: Option<Error>)
    ensures
        match r {
            Some(e) => field_error(key@, value@, spec@) == Some((e.kind(), e.msg())),
            None => field_error(key@, value@, spec@) is None,
        },
{
    proof {
        reveal_strlit("type");
        reveal_strlit("enum");
        reveal_strlit("field ");
        reveal_strlit(" expected type ");
        reveal_strlit(" is not in enum");
    }
    match spec.get("type") {
        Some(t) => match t.as_str() {
            Some(ts) => {
                if !value_has_type(ts, value) {
                    let mut m = String::from_str("field ");
                    m.append(key);
                    m.append(" expected type ");
                    m.append(ts);
                    return Some(Error::Validation(m));
                }
            },
            None => {},
        },
        None => {},
    }
    match spec.get("enum") {
        Some(ev) => match ev.as_array() {
            Some(vals) => {
                if contains_value(vals, value) {
                    None
                } else {
                    Some(Error::Validation(concat3("field ", key, " is not in enum")))
                }
            },
            None => None,
        },
        None => None,
    }
}

impl ToolDef {
    /// A definition whose `internal_name` is `name`.
    pub fn new(name: &str, description: &str, input_schema: JsonValue) -> (r: ToolDef)
        ensures
            r.name@ == name@,
            r.description@ == description@,
            r.input_schema@ == input_schema@,
            r.internal_name@ == name@,
    {
        ToolDef {
            name: name.to_string(),
            description: description.to_string(),
            input_schema,
            internal_name: name.to_string(),
        }
    }

    /// A definition read from stored parts: a missing `internal_name`
    /// defaults to `name` (payloads written before it existed lack it).
    pub fn from_parts(name: &str, description: &str, input_schema: JsonValue, internal_name: Option<String>) -> (r: ToolDef)
        ensures
            r.name@ == name@,
            r.description@ == description@,
            r.input_schema@ == input_schema@,
            r.internal_name@ == (match internal_name { Some(n) => n@, None => name@ }),
    {
        let internal = match internal_name {
            Some(n) => n,
            None => name.to_string(),
        };
        ToolDef { name: name.to_string(), description: description.to_string(), input_schema, internal_name: internal }
    }

    /// The same definition with `internal_name` replaced; the model-visible
    /// fields are unchanged.
    pub fn with_internal_name(self, internal_name: &str) -> (r: ToolDef)
        ensures
            r.name@ == self.name@,
            r.description@ == self.description@,
            r.input_schema@ == self.input_schema@,
            r.internal_name@ == internal_name@,
    {
        ToolDef { internal_name: internal_name.to_string(), ..self }
    }

    /// Check that the model-visible name is LLM-wire-safe. `internal_name`
    /// is not constrained.
    pub fn validate_name(&self) -> (r: Result<(), Error>)
        ensures
            r is Ok <==> is_wire_safe(self.name@),
            r matches Err(e) ==> e.kind() == ErrorKind::Validation && e.msg() == unsafe_name_message(self.name@),
    {
        if is_wire_safe_name(self.name.as_str()) {
            Ok(())
        } else {
            proof {
                reveal_strlit("tool name '");
                reveal_strlit(
                    "' is not LLM-wire-safe (must match ^[A-Za-z0-9_-]{1,64}$); put namespacing in internal_name via ToolDef::with_internal_name",
                );
            }
            Err(
                Error::Validation(
                    concat3(
                        "tool name '",
                        self.name.as_str(),
                        "' is not LLM-wire-safe (must match ^[A-Za-z0-9_-]{1,64}$); put namespacing in internal_name via ToolDef::with_internal_name",
                    ),
                ),
            )
        }
    }

    /// Check the input schema itself.
    pub fn validate_input_schema(&self) -> (r: Result<(), Error>)
        ensures
            verdict_of(r) == schema_check(self.input_schema@),
    {
        check_schema(&self.input_schema)
    }

    /// Registration-time validation: the name, then the input schema.
    pub fn validate(&self) -> (r: Result<(), Error>)
        ensures
            !is_wire_safe(self.name@) ==> verdict_of(r) == Err::<(), (ErrorKind, Seq<char>)>(
                (ErrorKind::Validation, unsafe_name_message(self.name@)),
            ),
            is_wire_safe(self.name@) ==> verdict_of(r) == schema_check(self.input_schema@),
    {
        match self.validate_name() {
            Err(e) => Err(e),
            Ok(()) => self.validate_input_schema(),
        }
    }

    /// Check arguments against the input schema: the schema itself, that the
    /// arguments are an object, that the required fields are present, and
    /// the type and enumeration of every field the schema describes.
    pub fn validate_args(&self, args: &JsonValue) -> (r: Result<(), Error>)
        ensures
            verdict_of(r) == args_check(self.input_schema@, args@),
    {
        match self.validate_input_schema() {
            Err(e) => return Err(e),
            Ok(()) => {},
        }
        proof {
            reveal_strlit("properties");
            reveal_strlit("required");
        }
        let schema = match self.input_schema.as_object() {
            Some(o) => o,
            None => return Err(validation("input_schema must be a JSON object")),
        };
        let props = match schema.get("properties") {
            Some(p) => match p.as_object() {
                Some(po) => po,
                None => return Err(validation("input_schema.properties must be an object")),
            },
            None => return Err(validation("input_schema.properties must be an object")),
        };
        let a = match args.as_object() {
            Some(o) => o,
            None => return Err(validation("tool args must be a JSON object")),
        };
        match schema.get("required") {
            Some(req) => match req.as_array() {
                Some(items) => match find_missing(items, a) {
                    Some(name) => return Err(Error::MissingField(name)),
                    None => {},
                },
                None => {},
            },
            None => {},
        }
        check_fields(a, props)
    }
}

fn find_missing(items: &Vec<JsonValue>, args: &JsonMap) -> (r: Option<String>)
    ensures
        match r {
            Some(name) => first_missing(crate::json::views_of(items@), args@) == Some(name@),
            None => first_missing(crate::json::views_of(items@), args@) is None,
        },
{
    let ghost req = crate::json::views_of(items@);
    proof {
        crate::json::lemma_views_of(items@);
        assert(req.skip(0) =~= req);
    }
    let n = items.len();
    let mut i: usize = 0;
    while i < n
        invariant
            n == items.len(),
            req == crate::json::views_of(items@),
            req.len() == n,
            forall|j: int| 0 <= j < n ==> #[trigger] req[j] == items@[j]@,
            i <= n,
            first_missing(req, args@) == first_missing(req.skip(i as int), args@),
        decreases n - i,
    {
        let ghost rest = req.skip(i as int);
        assert(rest[0] == items@[i as int]@);
        assert(rest.drop_first() =~= req.skip(i + 1));
        match items[i].as_str() {
            None => {},
            Some(name) => {
                if !args.contains_key(name) {
                    return Some(name.to_string());
                }
            },
        }
        i = i + 1;
    }
    assert(req.skip(n as int) =~= Seq::<JsonSpec>::empty());
    None
}

fn check_fields(args: &JsonMap, props: &JsonMap) -> (r: Result<(), Error>)
    ensures
        verdict_of(r) == fields_check(args@, props@),
{
    proof {
        assert(args@.skip(0) =~= args@);
    }
    let n = args.len();
    let mut i: usize = 0;
    while i < n
        invariant
            n == args@.len(),
            i <= n,
            fields_check(args@, props@) == fields_check(args@.skip(i as int), props@),
        decreases n - i,
    {
        let ghost rest = args@.skip(i as int);
        assert(rest[0] == args@[i as int]);
        assert(rest.drop_first() =~= args@.skip(i + 1));
        let key = args.key_at(i);
        let value = args.value_at(i);
        match props.get(key.as_str()) {
            Some(p) => match p.as_object() {
                Some(spec) => match check_field(key.as_str(), value, spec) {
                    Some(e) => return Err(e),
                    None => {},
                },
                None => {},
            },
            None => {},
        }
        i = i + 1;
    }
    assert(args@.skip(n as int) =~= Seq::<(Seq<char>, JsonSpec)>::empty());
    Ok(())
}

} // verus!

verus! {

// ---------------------------------------------------------------------------
// Content blocks and ToolOutput
// ---------------------------------------------------------------------------

/// Where image bytes come from.
#[derive(Debug)]
pub enum ImageSource {
    /// Base64-encoded inline bytes.
    Base64 { media_type: String, data: String },
    /// A URL the provider should fetch.
    Url { url: String },
}

/// Where document bytes come from.
#[derive(Debug)]
pub enum DocumentSource {
    /// Base64-encoded inline bytes.
    Base64 { media_type: String, data: String },
    /// A URL the provider should fetch.
    Url { url: String },
}

/// One block of multimodal content.
#[derive(Debug)]
pub enum ContentBlock {
    /// Plain text.
    Text { text: String },
    /// An image attachment.
    Image { source: ImageSource },
    /// A document attachment.
    Document { source: DocumentSource },
    /// A request to invoke a tool.
    ToolUse { id: String, name: String, input: JsonValue },
    /// A reply to a tool invocation.
    ToolResult { tool_use_id: String, content: Vec<ContentBlock>, is_error: bool },
    /// Structured JSON content.
    Json { value: JsonValue },
}

/// Where attachment bytes come from, as plain values.
pub enum SourceSpec {
    Base64(Seq<char>, Seq<char>),
    Url(Seq<char>),
}

/// A content block as plain values.
pub enum ContentSpec {
    Text(Seq<char>),
    Image(SourceSpec),
    Document(SourceSpec),
    ToolUse(Seq<char>, Seq<char>, JsonSpec),
    ToolResult(Seq<char>, Seq<ContentSpec>, bool),
    Json(JsonSpec),
}

impl ImageSource {
    pub open spec fn spec(&self) -> SourceSpec {
        match self {
            ImageSource::Base64 { media_type, data } => SourceSpec::Base64(media_type@, data@),
            ImageSource::Url { url } => SourceSpec::Url(url@),
        }
    }

    /// A copy of this source.
    pub fn deep_clone(&self) -> (r: ImageSource)
        ensures
            r.spec() == self.spec(),
    {
        match self {
            ImageSource::Base64 { media_type, data } => ImageSource::Base64 { media_type: media_type.clone(), data: data.clone() },
            ImageSource::Url { url } => ImageSource::Url { url: url.clone() },
        }
    }
}

impl DocumentSource {
    pub open spec fn spec(&self) -> SourceSpec {
        match self {
            DocumentSource::Base64 { media_type, data } => SourceSpec::Base64(media_type@, data@),
            DocumentSource::Url { url } => SourceSpec::Url(url@),
        }
    }

    /// A copy of this source.
    pub fn deep_clone(&self) -> (r: DocumentSource)
        ensures
            r.spec() == self.spec(),
    {
        match self {
            DocumentSource::Base64 { media_type, data } => DocumentSource::Base64 { media_type: media_type.clone(), data: data.clone() },
            DocumentSource::Url { url } => DocumentSource::Url { url: url.clone() },
        }
    }
}

impl ContentBlock {
    /// The block as plain values.
    pub open spec fn spec(&self) -> ContentSpec
        decreases self,
    {
        match self {
            ContentBlock::Text { text } => ContentSpec::Text(text@),
            ContentBlock::Image { source } => ContentSpec::Image(source.spec()),
            ContentBlock::Document { source } => ContentSpec::Document(source.spec()),
            ContentBlock::ToolUse { id, name, input } => ContentSpec::ToolUse(id@, name@, input@),
            ContentBlock::ToolResult { tool_use_id, content, is_error } =>
                ContentSpec::ToolResult(tool_use_id@, blocks_spec(content@), *is_error),
            ContentBlock::Json { value } => ContentSpec::Json(value@),
        }
    }

    /// A copy of this block.
    pub fn deep_clone(&self) -> (r: ContentBlock)
        ensures
            r.spec() == self.spec(),
        decreases self,
    {
        match self {
            ContentBlock::Text { text } => ContentBlock::Text { text: text.clone() },
            ContentBlock::Image { source } => ContentBlock::Image { source: source.deep_clone() },
            ContentBlock::Document { source } => ContentBlock::Document { source: source.deep_clone() },
            ContentBlock::ToolUse { id, name, input } =>
                ContentBlock::ToolUse { id: id.clone(), name: name.clone(), input: input.deep_clone() },
            ContentBlock::ToolResult { tool_use_id, content, is_error } => {
                let c = clone_blocks(content);
                ContentBlock::ToolResult { tool_use_id: tool_use_id.clone(), content: c, is_error: *is_error }
            },
            ContentBlock::Json { value } => ContentBlock::Json { value: value.deep_clone() },
        }
    }
}

/// The blocks as plain values.
pub open spec fn blocks_spec(v: Seq<ContentBlock>) -> Seq<ContentSpec>
    decreases v,
{
    Seq::new(v.len(), |i: int| if 0 <= i < v.len() { v[i].spec() } else { ContentSpec::Text(Seq::empty()) })
}

/// The blocks' plain values, block by block.
pub proof fn lemma_blocks_spec(v: Seq<ContentBlock>)
    ensures
        blocks_spec(v).len() == v.len(),
        forall|i: int| 0 <= i < v.len() ==> #[trigger] blocks_spec(v)[i] == v[i].spec(),
{
}

/// Copies of the blocks, in order.
pub fn clone_blocks(v: &Vec<ContentBlock>) -> (r: Vec<ContentBlock>)
    ensures
        blocks_spec(r@) == blocks_spec(v@),
    decreases v,
{
    let n = v.len();
    let mut out: Vec<ContentBlock> = Vec::new();
    let mut i: usize = 0;
    while i < n
        invariant
            n == v.len(),
            i <= n,
            out.len() == i,
            forall|j: int| 0 <= j < i ==> #[trigger] out@[j].spec() == v@[j].spec(),
        decreases n - i,
    {
        proof {
            assert(decreases_to!(v => v@[i as int]));
        }
        let c = v[i].deep_clone();
        out.push(c);
        i = i + 1;
    }
    proof {
        lemma_blocks_spec(out@);
        lemma_blocks_spec(v@);
    }
    assert(blocks_spec(out@) =~= blocks_spec(v@));
    out
}

/// Blocks with the same plain values have the same first text and first
/// JSON value.
pub proof fn lemma_same_blocks_same_reads(a: Seq<ContentBlock>, b: Seq<ContentBlock>)
    requires
        blocks_spec(a) == blocks_spec(b),
    ensures
        first_text(a) == first_text(b),
        first_json(a) == first_json(b),
    decreases a.len(),
{
    lemma_blocks_spec(a);
    lemma_blocks_spec(b);
    if a.len() > 0 {
        lemma_blocks_spec(a.drop_first());
        lemma_blocks_spec(b.drop_first());
        assert(blocks_spec(a)[0] == a[0].spec());
        assert(blocks_spec(b)[0] == b[0].spec());
        assert(blocks_spec(a.drop_first()) =~= blocks_spec(a).drop_first());
        assert(blocks_spec(b.drop_first()) =~= blocks_spec(b).drop_first());
        lemma_same_blocks_same_reads(a.drop_first(), b.drop_first());
    }
}

/// The text of the first text block, if any.
pub open spec fn first_text(c: Seq<ContentBlock>) -> Option<Seq<char>>
    decreases c.len(),
{
    if c.len() == 0 {
        None
    } else {
        match c[0] {
            ContentBlock::Text { text } => Some(text@),
            _ => first_text(c.drop_first()),
        }
    }
}

/// The value of the first JSON block, if any.
pub open spec fn first_json(c: Seq<ContentBlock>) -> Option<JsonSpec>
    decreases c.len(),
{
    if c.len() == 0 {
        None
    } else {
        match c[0] {
            ContentBlock::Json { value } => Some(value@),
            _ => first_json(c.drop_first()),
        }
    }
}

/// The reply to a tool call as it goes on the wire: the originating call's
/// id, the content and the error flag.
#[derive(Debug)]
pub struct ToolResult {
    pub tool_use_id: String,
    pub content: Vec<ContentBlock>,
    pub is_error: bool,
}

/// What a tool returns: content blocks, an error flag, and engine-side
/// metadata (citation, context-injection hint, duration) that does not go on
/// the wire.
#[derive(Debug)]
pub struct ToolOutput {
    /// Content blocks returned by the tool.
    pub content: Vec<ContentBlock>,
    /// Whether the result represents an error.
    pub is_error: bool,
    /// Source URL for citation.
    pub citation: Option<String>,
    /// Whether this result should be injected into the next round's context.
    pub inject_to_context: bool,
    /// Execution time in milliseconds.
    pub duration_ms: Option<u64>,
}

/// The text of an optional string.
pub open spec fn opt_str(o: Option<String>) -> Option<Seq<char>> {
    match o {
        Some(x) => Some(x@),
        None => None,
    }
}

fn clone_opt_string(o: &Option<String>) -> (r: Option<String>)
    ensures
        opt_str(r) == opt_str(*o),
{
    match o {
        Some(x) => Some(x.clone()),
        None => None,
    }
}

impl Clone for ToolOutput {
    /// A copy with the same content, flags, citation and duration.
    fn clone(&self) -> (r: Self)
        ensures
            blocks_spec(r.content@) == blocks_spec(self.content@),
            first_text(r.content@) == first_text(self.content@),
            first_json(r.content@) == first_json(self.content@),
            r.is_error == self.is_error,
            opt_str(r.citation) == opt_str(self.citation),
            r.inject_to_context == self.inject_to_context,
            r.duration_ms == self.duration_ms,
    {
        let content = clone_blocks(&self.content);
        proof {
            lemma_same_blocks_same_reads(content@, self.content@);
        }
        ToolOutput {
            content,
            is_error: self.is_error,
            citation: clone_opt_string(&self.citation),
            inject_to_context: self.inject_to_context,
            duration_ms: self.duration_ms,
        }
    }
}

impl ToolOutput {
    /// A successful result holding one text block.
    pub fn text(text: &str) -> (r: ToolOutput)
        ensures
            first_text(r.content@) == Some(text@),
            r.content@.len() == 1,
            r.content@[0] matches ContentBlock::Text { text: t } && t@ == text@,
            !r.is_error,
            r.citation is None,
            !r.inject_to_context,
            r.duration_ms is None,
    {
        ToolOutput {
            content: vec![ContentBlock::Text { text: text.to_string() }],
            is_error: false,
            citation: None,
            inject_to_context: false,
            duration_ms: None,
        }
    }

    /// A successful result holding one JSON block.
    pub fn json(value: JsonValue) -> (r: ToolOutput)
        ensures
            first_json(r.content@) == Some(value@),
            r.content@.len() == 1,
            r.content@[0] matches ContentBlock::Json { value: v } && v@ == value@,
            !r.is_error,
            r.citation is None,
            !r.inject_to_context,
            r.duration_ms is None,
    {
        ToolOutput {
            content: vec![ContentBlock::Json { value }],
            is_error: false,
            citation: None,
            inject_to_context: false,
            duration_ms: None,
        }
    }

    /// An error result holding one text block with the message.
    pub fn error(message: &str) -> (r: ToolOutput)
        ensures
            first_text(r.content@) == Some(message@),
            r.content@.len() == 1,
            r.content@[0] matches ContentBlock::Text { text: t } && t@ == message@,
            r.is_error,
            r.citation is None,
            !r.inject_to_context,
            r.duration_ms is None,
    {
        ToolOutput {
            content: vec![ContentBlock::Text { text: message.to_string() }],
            is_error: true,
            citation: None,
            inject_to_context: false,
            duration_ms: None,
        }
    }

    /// The same result with a citation.
    pub fn with_citation(self, citation: &str) -> (r: ToolOutput)
        ensures
            r.content == self.content,
            r.is_error == self.is_error,
            r.citation matches Some(c) && c@ == citation@,
            r.inject_to_context == self.inject_to_context,
            r.duration_ms == self.duration_ms,
    {
        ToolOutput { citation: Some(citation.to_string()), ..self }
    }

    /// The same result with the context-injection hint set to `inject`.
    pub fn with_inject(self, inject: bool) -> (r: ToolOutput)
        ensures
            r.content == self.content,
            r.is_error == self.is_error,
            r.citation == self.citation,
            r.inject_to_context == inject,
            r.duration_ms == self.duration_ms,
    {
        ToolOutput { inject_to_context: inject, ..self }
    }

    /// The same result with a duration.
    pub fn with_duration(self, ms: u64) -> (r: ToolOutput)
        ensures
            r.content == self.content,
            r.is_error == self.is_error,
            r.citation == self.citation,
            r.inject_to_context == self.inject_to_context,
            r.duration_ms == Some(ms),
    {
        ToolOutput { duration_ms: Some(ms), ..self }
    }

    /// The text of the first text block, if any.
    pub fn as_text(&self) -> (r: Option<&str>)
        ensures
            match r {
                Some(t) => first_text(self.content@) == Some(t@),
                None => first_text(self.content@) is None,
            },
    {
        let n = self.content.len();
        let mut i: usize = 0;
        proof {
            assert(self.content@.skip(0) =~= self.content@);
        }
        while i < n
            invariant
                n == self.content.len(),
                i <= n,
                first_text(self.content@) == first_text(self.content@.skip(i as int)),
            decreases n - i,
        {
            let ghost rest = self.content@.skip(i as int);
            assert(rest[0] == self.content@[i as int]);
            assert(rest.drop_first() =~= self.content@.skip(i + 1));
            match &self.content[i] {
                ContentBlock::Text { text } => return Some(text.as_str()),
                _ => {},
            }
            i = i + 1;
        }
        assert(self.content@.skip(n as int) =~= Seq::<ContentBlock>::empty());
        None
    }

    /// The first structured JSON value: the first JSON block, or else the
    /// first text block parsed as JSON.
    pub fn as_json(&self) -> (r: Option<JsonValue>)
        ensures
            match first_json(self.content@) {
                Some(v) => r matches Some(x) && x@ == v,
                None => match first_text(self.content@) {
                    Some(t) => match crate::json::json_parse(t) {
                        Some(j) => r matches Some(x) && x@ == j,
                        None => r is None,
                    },
                    None => r is None,
                },
            },
    {
        let n = self.content.len();
        let mut i: usize = 0;
        proof {
            assert(self.content@.skip(0) =~= self.content@);
        }
        while i < n
            invariant
                n == self.content.len(),
                i <= n,
                first_json(self.content@) == first_json(self.content@.skip(i as int)),
            decreases n - i,
        {
            let ghost rest = self.content@.skip(i as int);
            assert(rest[0] == self.content@[i as int]);
            assert(rest.drop_first() =~= self.content@.skip(i + 1));
            match &self.content[i] {
                ContentBlock::Json { value } => return Some(value.deep_clone()),
                _ => {},
            }
            i = i + 1;
        }
        assert(self.content@.skip(n as int) =~= Seq::<ContentBlock>::empty());
        match self.as_text() {
            Some(t) => crate::json::parse_json_text(t),
            None => None,
        }
    }

    /// The wire-format reply for the call `tool_use_id`: the content and the
    /// error flag, without the engine-side metadata.
    pub fn into_tool_result(self, tool_use_id: &str) -> (r: ToolResult)
        ensures
            r.tool_use_id@ == tool_use_id@,
            r.content == self.content,
            r.is_error == self.is_error,
    {
        ToolResult { tool_use_id: tool_use_id.to_string(), content: self.content, is_error: self.is_error }
    }
}

// ---------------------------------------------------------------------------
// ToolContext
// ---------------------------------------------------------------------------

/// A fresh, never-cancelled token (`CancellationToken::new`).
#[verifier::external_body]
fn new_cancellation_token() -> tokio_util::sync::CancellationToken {
    tokio_util::sync::CancellationToken::new()
}

/// Whether the engine cancelled the token (`CancellationToken::is_cancelled`).
/// Nothing is stated: another thread may cancel it at any moment.
#[verifier::external_body]
fn token_is_cancelled(token: &tokio_util::sync::CancellationToken) -> bool {
    token.is_cancelled()
}

/// Execution context passed to every tool call: who calls, from which
/// platform, an optional working directory, platform-specific extras, and
/// the engine's cancellation signal.
#[derive(Debug)]
pub struct ToolContext {
    /// Who is calling the tool (agent or user id).
    pub caller_id: String,
    /// Platform identifier.
    pub platform: String,
    /// Working directory for this call, when set.
    pub cwd: Option<String>,
    /// Platform-specific key-value extensions.
    pub extra: JsonMap,
    /// Cancellation signal set by the engine.
    pub cancellation_token: tokio_util::sync::CancellationToken,
}

/// `CancellationToken::clone`: a handle to the same token, cancelled
/// whenever the original is. Nothing is stated: the token is opaque here.
#[verifier::external_body]
fn clone_token(token: &tokio_util::sync::CancellationToken) -> tokio_util::sync::CancellationToken {
    token.clone()
}

impl Clone for ToolContext {
    /// A copy with the same identity, working directory and extras, sharing
    /// the cancellation token.
    fn clone(&self) -> (r: Self)
        ensures
            r.caller_id@ == self.caller_id@,
            r.platform@ == self.platform@,
            opt_str(r.cwd) == opt_str(self.cwd),
            r.extra@ == self.extra@,
    {
        ToolContext {
            caller_id: self.caller_id.clone(),
            platform: self.platform.clone(),
            cwd: clone_opt_string(&self.cwd),
            extra: self.extra.deep_clone(),
            cancellation_token: clone_token(&self.cancellation_token),
        }
    }
}

impl ToolContext {
    /// A context with the given identity, no working directory, no extras
    /// and a fresh token.
    pub fn new(caller_id: &str, platform: &str) -> (r: ToolContext)
        ensures
            r.caller_id@ == caller_id@,
            r.platform@ == platform@,
            r.cwd is None,
            r.extra@ == Seq::<(Seq<char>, JsonSpec)>::empty(),
    {
        ToolContext {
            caller_id: caller_id.to_string(),
            platform: platform.to_string(),
            cwd: None,
            extra: JsonMap::new(),
            cancellation_token: new_cancellation_token(),
        }
    }

    /// The same context with a working directory.
    pub fn with_cwd(self, cwd: &str) -> (r: ToolContext)
        ensures
            r.caller_id == self.caller_id,
            r.platform == self.platform,
            r.cwd matches Some(c) && c@ == cwd@,
            r.extra@ == self.extra@,
    {
        ToolContext { cwd: Some(cwd.to_string()), ..self }
    }

    /// The same context with `key` bound to `value` in the extras.
    pub fn with(self, key: &str, value: JsonValue) -> (r: ToolContext)
        ensures
            r.caller_id == self.caller_id,
            r.platform == self.platform,
            r.cwd == self.cwd,
            r.extra@ == crate::json::entries_insert(self.extra@, key@, value@),
    {
        let mut c = self;
        c.extra.insert(key.to_string(), value);
        c
    }

    /// The same context with an engine-provided token.
    pub fn with_cancellation(self, token: tokio_util::sync::CancellationToken) -> (r: ToolContext)
        ensures
            r.caller_id == self.caller_id,
            r.platform == self.platform,
            r.cwd == self.cwd,
            r.extra@ == self.extra@,
            r.cancellation_token == token,
    {
        ToolContext { cancellation_token: token, ..self }
    }

    /// Whether the engine has cancelled this call.
    pub fn is_cancelled(&self) -> bool {
        token_is_cancelled(&self.cancellation_token)
    }

    /// The string stored under `key` in the extras.
    pub fn get_str(&self, key: &str) -> (r: Option<&str>)
        ensures
            match r {
                Some(s) => lookup(self.extra@, key@) == Some(JsonSpec::Str(s@)),
                None => !(lookup(self.extra@, key@) matches Some(JsonSpec::Str(_))),
            },
    {
        match self.extra.get(key) {
            Some(v) => v.as_str(),
            None => None,
        }
    }

    /// The unsigned integer stored under `key` in the extras.
    pub fn get_u64(&self, key: &str) -> (r: Option<u64>)
        ensures
            match r {
                Some(n) => lookup(self.extra@, key@) == Some(JsonSpec::Number(crate::json::JsonNumber::Int(n as i128))),
                None => !(lookup(self.extra@, key@) matches Some(JsonSpec::Number(crate::json::JsonNumber::Int(n))) && 0 <= n <= u64::MAX),
            },
    {
        match self.extra.get(key) {
            Some(v) => v.as_u64(),
            None => None,
        }
    }

    /// The boolean stored under `key` in the extras.
    pub fn get_bool(&self, key: &str) -> (r: Option<bool>)
        ensures
            match r {
                Some(b) => lookup(self.extra@, key@) == Some(JsonSpec::Bool(b)),
                None => !(lookup(self.extra@, key@) matches Some(JsonSpec::Bool(_))),
            },
    {
        match self.extra.get(key) {
            Some(v) => v.as_bool(),
            None => None,
        }
    }
}

impl Default for ToolContext {
    fn default() -> (r: ToolContext)
        ensures
            r.caller_id@ == Seq::<char>::empty(),
            r.platform@ == Seq::<char>::empty(),
            r.cwd is None,
            r.extra@ == Seq::<(Seq<char>, JsonSpec)>::empty(),
    {
        proof {
            reveal_strlit("");
        }
        ToolContext::new("", "")
    }
}

} // verus!

verus! {

/// Whether `r` is the plain answer `a`: for `Ok(v)` a successful output
/// holding the one JSON block `v`, for `Err(m)` an error output holding the
/// one text block `m`; no citation, hint or duration either way.
pub open spec fn answers(r: ToolOutput, a: Result<JsonSpec, Seq<char>>) -> bool {
    &&& r.content@.len() == 1
    &&& r.citation is None
    &&& !r.inject_to_context
    &&& r.duration_ms is None
    &&& match a {
        Ok(v) => !r.is_error && (r.content@[0] matches ContentBlock::Json { value } && value@ == v),
        Err(m) => r.is_error && (r.content@[0] matches ContentBlock::Text { text } && text@ == m),
    }
}

/// Whether `r` is a successful output holding the one text block `t`, with
/// no citation, hint or duration.
pub open spec fn answers_text(r: ToolOutput, t: Seq<char>) -> bool {
    &&& r.content@.len() == 1
    &&& r.citation is None
    &&& !r.inject_to_context
    &&& r.duration_ms is None
    &&& !r.is_error
    &&& r.content@[0] matches ContentBlock::Text { text } && text@ == t
}

} // verus!

verus! {

/// What a tool may do, as a permission policy reads it.
#[derive(Debug, Clone, Copy, PartialEq, Eq, Structural)]
pub struct ToolAnnotations {
    /// The tool only reads.
    pub read_only: bool,
    /// The tool may destroy or overwrite something.
    pub destructive: bool,
    /// The tool reaches the network.
    pub network_access: bool,
    /// Calling twice has the effect of calling once.
    pub idempotent: bool,
}

} // verus!

verus! {

/// Reading an extra back after writing it gives the written value, and
/// writing one key leaves every other key as it was.
pub proof fn lemma_context_read_after_write(extra: Seq<(Seq<char>, JsonSpec)>, key: Seq<char>, value: JsonSpec, other: Seq<char>)
    requires
        crate::json::keys_sorted(extra),
    ensures
        lookup(crate::json::entries_insert(extra, key, value), key) == Some(value),
        other != key ==> lookup(crate::json::entries_insert(extra, key, value), other) == lookup(extra, other),
{
    crate::json::lemma_entries_insert(extra, key, value);
}

} // verus!

verus! {

/// Whether `value` meets a property schema: its declared type, when the
/// schema names one, and its enumeration, when the schema lists one.
pub open spec fn field_fits(value: JsonSpec, spec: Seq<(Seq<char>, JsonSpec)>) -> bool {
    &&& match lookup(spec, "type"@) {
        Some(JsonSpec::Str(t)) => type_matches(t, value),
        _ => true,
    }
    &&& match lookup(spec, "enum"@) {
        Some(JsonSpec::Array(vals)) => contains_same(vals, value),
        _ => true,
    }
}

/// Whether a `required` entry is a string naming a key of `keys`.
pub open spec fn names_key(entry: JsonSpec, keys: Seq<(Seq<char>, JsonSpec)>) -> bool {
    match entry {
        JsonSpec::Str(n) => has_key(keys, n),
        _ => false,
    }
}

/// Whether a `required` entry, when it is a string, names a key of `keys`.
pub open spec fn string_names_key(entry: JsonSpec, keys: Seq<(Seq<char>, JsonSpec)>) -> bool {
    match entry {
        JsonSpec::Str(n) => has_key(keys, n),
        _ => true,
    }
}

/// Whether an argument meets its property's schema, when that schema is an
/// object (other arguments are not checked).
pub open spec fn arg_fits(props: Seq<(Seq<char>, JsonSpec)>, key: Seq<char>, value: JsonSpec) -> bool {
    match lookup(props, key) {
        Some(JsonSpec::Object(spec)) => field_fits(value, spec),
        _ => true,
    }
}

/// The entries of a schema object.
pub open spec fn schema_entries(schema: JsonSpec) -> Seq<(Seq<char>, JsonSpec)> {
    match schema {
        JsonSpec::Object(s) => s,
        _ => Seq::empty(),
    }
}

/// The properties a schema declares (none when it declares no object).
pub open spec fn schema_props(schema: JsonSpec) -> Seq<(Seq<char>, JsonSpec)> {
    match lookup(schema_entries(schema), "properties"@) {
        Some(JsonSpec::Object(p)) => p,
        _ => Seq::empty(),
    }
}

/// The `required` list of a schema (empty when absent or not an array).
pub open spec fn schema_required(schema: JsonSpec) -> Seq<JsonSpec> {
    match lookup(schema_entries(schema), "required"@) {
        Some(JsonSpec::Array(r)) => r,
        _ => Seq::empty(),
    }
}

/// A well-formed input schema: an object whose `type` is `"object"`, whose
/// `properties` is an object, and which has no `required`, or a `required`
/// array of strings each naming a property.
pub open spec fn schema_well_formed(schema: JsonSpec) -> bool {
    &&& schema is Object
    &&& lookup(schema_entries(schema), "type"@) == Some(JsonSpec::Str("object"@))
    &&& lookup(schema_entries(schema), "properties"@) matches Some(JsonSpec::Object(_))
    &&& match lookup(schema_entries(schema), "required"@) {
        None => true,
        Some(JsonSpec::Array(req)) => forall|i: int| 0 <= i < req.len()
            ==> #[trigger] names_key(req[i], schema_props(schema)),
        Some(_) => false,
    }
}

proof fn lemma_required_check(required: Seq<JsonSpec>, props: Seq<(Seq<char>, JsonSpec)>)
    ensures
        required_check(required, props) is Ok <==> forall|i: int| 0 <= i < required.len()
            ==> #[trigger] names_key(required[i], props),
        required_check(required, props) matches Err((k, _)) ==> k == ErrorKind::Validation,
    decreases required.len(),
{
    if required.len() > 0 {
        let rest = required.drop_first();
        lemma_required_check(rest, props);
        assert forall|i: int| 0 <= i < rest.len() implies #[trigger] rest[i] == required[i + 1] by {}
        if required_check(required, props) is Ok {
            assert forall|i: int| 0 <= i < required.len() implies #[trigger] names_key(required[i], props) by {
                if i > 0 {
                    assert(rest[i - 1] == required[i]);
                }
            }
        }
        if forall|i: int| 0 <= i < required.len() ==> #[trigger] names_key(required[i], props) {
            assert(names_key(required[0], props));
            assert forall|i: int| 0 <= i < rest.len() implies #[trigger] names_key(rest[i], props) by {
                assert(rest[i] == required[i + 1]);
                assert(names_key(required[i + 1], props));
            }
        }
    }
}

/// An input schema passes the check exactly when it is well formed (see
/// [`schema_well_formed`]); every refusal is a validation error.
pub proof fn lemma_schema_check_law(schema: JsonSpec)
    ensures
        schema_check(schema) is Ok <==> schema_well_formed(schema),
        schema_check(schema) matches Err((k, _)) ==> k == ErrorKind::Validation,
{
    match schema {
        JsonSpec::Object(s) => {
            assert(schema_entries(schema) == s);
            match lookup(s, "properties"@) {
                Some(JsonSpec::Object(props)) => {
                    assert(schema_props(schema) == props);
                    match lookup(s, "required"@) {
                        Some(JsonSpec::Array(req)) => lemma_required_check(req, props),
                        _ => {},
                    }
                },
                _ => {},
            }
        },
        _ => {},
    }
}

proof fn lemma_first_missing(required: Seq<JsonSpec>, args: Seq<(Seq<char>, JsonSpec)>)
    ensures
        first_missing(required, args) is None <==> forall|i: int| 0 <= i < required.len()
            ==> #[trigger] string_names_key(required[i], args),
        first_missing(required, args) is Some ==> !has_key(args, first_missing(required, args)->Some_0)
            && exists|i: int| 0 <= i < required.len()
                && #[trigger] required[i] == JsonSpec::Str(first_missing(required, args)->Some_0),
    decreases required.len(),
{
    if required.len() > 0 {
        let rest = required.drop_first();
        lemma_first_missing(rest, args);
        assert forall|i: int| 0 <= i < rest.len() implies #[trigger] rest[i] == required[i + 1] by {}
        if first_missing(required, args) is None {
            assert forall|i: int| 0 <= i < required.len() implies #[trigger] string_names_key(required[i], args) by {
                if i > 0 {
                    assert(rest[i - 1] == required[i]);
                }
            }
        }
        if forall|i: int| 0 <= i < required.len() ==> #[trigger] string_names_key(required[i], args) {
            assert(string_names_key(required[0], args));
            assert forall|i: int| 0 <= i < rest.len() implies #[trigger] string_names_key(rest[i], args) by {
                assert(rest[i] == required[i + 1]);
                assert(string_names_key(required[i + 1], args));
            }
        }
        if first_missing(required, args) is Some && first_missing(required, args) == first_missing(rest, args) {
            let n = first_missing(rest, args)->Some_0;
            let i = choose|i: int| 0 <= i < rest.len() && #[trigger] rest[i] == JsonSpec::Str(n);
            assert(required[i + 1] == JsonSpec::Str(n));
        }
    }
}

proof fn lemma_fields_check(args: Seq<(Seq<char>, JsonSpec)>, props: Seq<(Seq<char>, JsonSpec)>)
    ensures
        fields_check(args, props) is Ok <==> forall|j: int| 0 <= j < args.len()
            ==> #[trigger] arg_fits(props, args[j].0, args[j].1),
        fields_check(args, props) matches Err((k, _)) ==> k == ErrorKind::Validation,
    decreases args.len(),
{
    if args.len() > 0 {
        let rest = args.drop_first();
        lemma_fields_check(rest, props);
        assert forall|j: int| 0 <= j < rest.len() implies #[trigger] rest[j] == args[j + 1] by {}
        if fields_check(args, props) is Ok {
            assert forall|j: int| 0 <= j < args.len() implies #[trigger] arg_fits(props, args[j].0, args[j].1) by {
                if j > 0 {
                    assert(rest[j - 1] == args[j]);
                }
            }
        }
        if forall|j: int| 0 <= j < args.len() ==> #[trigger] arg_fits(props, args[j].0, args[j].1) {
            assert(arg_fits(props, args[0].0, args[0].1));
            assert forall|j: int| 0 <= j < rest.len() implies #[trigger] arg_fits(props, rest[j].0, rest[j].1) by {
                assert(rest[j] == args[j + 1]);
                assert(arg_fits(props, args[j + 1].0, args[j + 1].1));
            }
        }
    }
}

/// For a well-formed schema, arguments pass exactly when they are an
/// object, every required name is one of their keys, and every argument
/// whose property schema is an object meets its declared type and
/// enumeration (arguments without one are not checked). A missing required
/// name is reported as a missing field naming a required key the arguments
/// lack; every other refusal is a validation error.
pub proof fn lemma_args_check_law(schema: JsonSpec, args: JsonSpec)
    requires
        schema_check(schema) is Ok,
    ensures
        args_check(schema, args) is Ok <==> (args is Object
            && (forall|i: int| 0 <= i < schema_required(schema).len()
                ==> #[trigger] names_key(schema_required(schema)[i], schema_entries(args)))
            && forall|j: int| 0 <= j < schema_entries(args).len()
                ==> #[trigger] arg_fits(schema_props(schema), schema_entries(args)[j].0, schema_entries(args)[j].1)),
        args_check(schema, args) matches Err((ErrorKind::MissingField, n)) ==> (args is Object
            && !has_key(schema_entries(args), n)
            && exists|i: int| 0 <= i < schema_required(schema).len()
                && #[trigger] schema_required(schema)[i] == JsonSpec::Str(n)),
        args_check(schema, args) matches Err((k, _)) ==> (k == ErrorKind::MissingField || k == ErrorKind::Validation),
{
    lemma_schema_check_law(schema);
    let req = schema_required(schema);
    let props = schema_props(schema);
    assert(forall|i: int| 0 <= i < req.len() ==> #[trigger] names_key(req[i], props));
    let s = schema->Object_0;
    assert(schema_entries(schema) == s);
    assert(lookup(s, "properties"@)->Some_0->Object_0 == props);
    assert(match lookup(s, "required"@) {
        Some(JsonSpec::Array(r)) => first_missing(r, schema_entries(args)) == first_missing(req, schema_entries(args)),
        _ => req.len() == 0,
    });
    if let JsonSpec::Object(a) = args {
        assert(schema_entries(args) == a);
        lemma_first_missing(req, a);
        lemma_fields_check(a, props);
        assert(first_missing(Seq::<JsonSpec>::empty(), a) is None);
        assert forall|i: int| 0 <= i < req.len() implies
            (#[trigger] names_key(req[i], a) <==> string_names_key(req[i], a)) by {
            assert(names_key(req[i], props));
        }
        let missing = match lookup(s, "required"@) {
            Some(JsonSpec::Array(r)) => first_missing(r, a),
            _ => None,
        };
        assert(missing == first_missing(req, a));
        assert((missing is None) <==> (forall|i: int| 0 <= i < req.len() ==> #[trigger] names_key(req[i], a))) by {
            if missing is None {
                assert forall|i: int| 0 <= i < req.len() implies #[trigger] names_key(req[i], a) by {
                    assert(string_names_key(req[i], a));
                }
            }
            if forall|i: int| 0 <= i < req.len() ==> #[trigger] names_key(req[i], a) {
                assert forall|i: int| 0 <= i < req.len() implies #[trigger] string_names_key(req[i], a) by {
                    assert(names_key(req[i], a));
                }
            }
        }
        assert(args_check(schema, args) == (match missing {
            Some(name) => Err((ErrorKind::MissingField, name)),
            None => fields_check(a, props),
        }));
    }
}

} // verus!

verus! {

/// The type a property schema declares for `key`, if it declares one.
pub open spec fn declared_type(props: Seq<(Seq<char>, JsonSpec)>, key: Seq<char>) -> Option<Seq<char>> {
    match lookup(props, key) {
        Some(JsonSpec::Object(spec)) => match lookup(spec, "type"@) {
            Some(JsonSpec::Str(t)) => Some(t),
            _ => None,
        },
        _ => None,
    }
}

/// Whether `v` is an integral JSON number within `i64::MIN ..= u64::MAX`.
pub open spec fn integral_number(v: JsonSpec) -> bool {
    match v {
        JsonSpec::Number(crate::json::JsonNumber::Int(n)) => i64::MIN <= n <= u64::MAX,
        _ => false,
    }
}

/// A property declaring type `"integer"` (and no enumeration) accepts a
/// value exactly when it is an integral JSON number within the `i64` or
/// `u64` range.
pub proof fn lemma_integer_type_accepts_integral(props: Seq<(Seq<char>, JsonSpec)>, key: Seq<char>, v: JsonSpec)
    requires
        declared_type(props, key) == Some("integer"@),
        !(lookup(lookup(props, key)->Some_0->Object_0, "enum"@) matches Some(JsonSpec::Array(_))),
    ensures
        arg_fits(props, key, v) <==> integral_number(v),
{
    reveal_strlit("string");
    reveal_strlit("number");
    reveal_strlit("integer");
    assert("integer"@.len() == 7 && "string"@.len() == 6 && "number"@.len() == 6);
    assert("integer"@ != "string"@ && "integer"@ != "number"@);
}

/// An argument whose property declares type `"integer"` passes only when it
/// is an integral JSON number within the `i64` or `u64` range: any other
/// value (a number with a fraction, a string, ...) makes the arguments
/// fail, and with every required field present the failure is a validation
/// error.
pub proof fn lemma_integer_fields_are_integral(schema: JsonSpec, args: JsonSpec, j: int)
    requires
        schema_check(schema) is Ok,
        args is Object,
        0 <= j < schema_entries(args).len(),
        declared_type(schema_props(schema), schema_entries(args)[j].0) == Some("integer"@),
        !integral_number(schema_entries(args)[j].1),
    ensures
        args_check(schema, args) is Err,
        (forall|i: int| 0 <= i < schema_required(schema).len()
            ==> #[trigger] names_key(schema_required(schema)[i], schema_entries(args)))
            ==> args_check(schema, args) matches Err((ErrorKind::Validation, _)),
{
    reveal_strlit("string");
    reveal_strlit("number");
    reveal_strlit("integer");
    lemma_args_check_law(schema, args);
    let a = schema_entries(args);
    let props = schema_props(schema);
    assert("integer"@.len() == 7 && "string"@.len() == 6 && "number"@.len() == 6);
    assert("integer"@ != "string"@ && "integer"@ != "number"@);
    assert(!type_matches("integer"@, a[j].1));
    assert(!arg_fits(props, a[j].0, a[j].1));
    if (forall|i: int| 0 <= i < schema_required(schema).len()
        ==> #[trigger] names_key(schema_required(schema)[i], a)) {
        match args_check(schema, args) {
            Err((ErrorKind::MissingField, n)) => {
                let i = choose|i: int| 0 <= i < schema_required(schema).len()
                    && #[trigger] schema_required(schema)[i] == JsonSpec::Str(n);
                assert(names_key(schema_required(schema)[i], a));
            },
            _ => {},
        }
    }
}

} // verus!
