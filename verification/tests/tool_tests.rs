use motosan_agent_tool::json::JsonValue;
use motosan_agent_tool::tool::{ContentBlock, ToolContext, ToolDef, ToolOutput};
use motosan_agent_tool::Error;

fn obj(pairs: Vec<(&str, JsonValue)>) -> JsonValue {
    JsonValue::object(pairs.into_iter().map(|(k, v)| (k.to_string(), v)).collect())
}

fn typed(t: &str) -> JsonValue {
    obj(vec![("type", JsonValue::from_str(t))])
}

fn strings(items: &[&str]) -> JsonValue {
    JsonValue::array(items.iter().map(|s| JsonValue::from_str(s)).collect())
}

fn empty_object_schema() -> JsonValue {
    obj(vec![("type", JsonValue::from_str("object")), ("properties", obj(vec![]))])
}

fn search_def() -> ToolDef {
    ToolDef::new(
        "web_search",
        "Search the web",
        obj(vec![
            ("type", JsonValue::from_str("object")),
            ("properties", obj(vec![("query", typed("string")), ("max_results", typed("integer"))])),
            ("required", strings(&["query"])),
        ]),
    )
}

#[test]
fn validate_input_schema_accepts_valid() {
    search_def().validate_input_schema().unwrap();
}

#[test]
fn validate_rejects_dotted_model_name() {
    let def = ToolDef::new("demo.echo", "d", empty_object_schema());
    assert!(def.validate().is_err());
}

#[test]
fn validate_accepts_wire_safe_name_with_dotted_internal() {
    let def = ToolDef::new("demo_echo", "d", empty_object_schema()).with_internal_name("demo.echo");
    def.validate().unwrap();
}

#[test]
fn validate_input_schema_rejects_missing_properties() {
    let def = ToolDef::new("bad", "bad", obj(vec![("type", JsonValue::from_str("object"))]));
    assert!(def.validate_input_schema().is_err());
}

#[test]
fn validate_args_accepts_valid() {
    let def = search_def();
    let args = obj(vec![("query", JsonValue::from_str("rust"))]);
    def.validate_args(&args).unwrap();
}

#[test]
fn validate_args_rejects_missing_required() {
    let def = search_def();
    let args = obj(vec![("max_results", JsonValue::from_u64(5))]);
    assert!(matches!(def.validate_args(&args), Err(Error::MissingField(_))));
}

#[test]
fn validate_args_rejects_wrong_type() {
    let def = search_def();
    let args = obj(vec![("query", JsonValue::from_u64(123))]);
    assert!(def.validate_args(&args).is_err());
}

#[test]
fn validate_args_checks_enum() {
    let def = ToolDef::new(
        "t",
        "t",
        obj(vec![
            ("type", JsonValue::from_str("object")),
            (
                "properties",
                obj(vec![(
                    "lang",
                    obj(vec![("type", JsonValue::from_str("string")), ("enum", strings(&["en", "ja", "zh"]))]),
                )]),
            ),
            ("required", strings(&["lang"])),
        ]),
    );
    def.validate_args(&obj(vec![("lang", JsonValue::from_str("en"))])).unwrap();
    assert!(def.validate_args(&obj(vec![("lang", JsonValue::from_str("fr"))])).is_err());
}

#[test]
fn tool_def_new_defaults_internal_name_to_name() {
    let def = ToolDef::new("foo", "desc", empty_object_schema());
    assert_eq!(def.name, "foo");
    assert_eq!(def.internal_name, "foo");
}

#[test]
fn tool_def_with_internal_name_overrides() {
    let def = ToolDef::new("place_order", "buy/sell", empty_object_schema()).with_internal_name("finance.place_order");
    assert_eq!(def.name, "place_order");
    assert_eq!(def.internal_name, "finance.place_order");
}

#[test]
fn validate_name_rejects_long_and_empty_names() {
    let long = "a".repeat(65);
    assert!(ToolDef::new(&long, "d", empty_object_schema()).validate_name().is_err());
    assert!(ToolDef::new(&"a".repeat(64), "d", empty_object_schema()).validate_name().is_ok());
    assert!(ToolDef::new("", "d", empty_object_schema()).validate_name().is_err());
}

#[test]
fn validate_name_message_points_to_internal_name() {
    let err = ToolDef::new("demo.echo", "d", empty_object_schema()).validate_name().unwrap_err();
    assert!(matches!(err, Error::Validation(_)));
    assert!(err.to_string().contains("tool name 'demo.echo' is not LLM-wire-safe"));
    assert!(err.to_string().contains("ToolDef::with_internal_name"));
}

#[test]
fn validate_input_schema_reports_each_problem() {
    let not_object = ToolDef::new("t", "d", JsonValue::from_str("x"));
    assert_eq!(not_object.validate_input_schema().unwrap_err().to_string(), "validation failed: input_schema must be a JSON object");
    let wrong_type = ToolDef::new("t", "d", obj(vec![("type", JsonValue::from_str("array"))]));
    assert_eq!(wrong_type.validate_input_schema().unwrap_err().to_string(), "validation failed: input_schema.type must be \"object\"");
    let bad_required = ToolDef::new(
        "t",
        "d",
        obj(vec![
            ("type", JsonValue::from_str("object")),
            ("properties", obj(vec![])),
            ("required", strings(&["ghost"])),
        ]),
    );
    assert_eq!(bad_required.validate_input_schema().unwrap_err().to_string(), "validation failed: required field not in properties: ghost");
}

#[test]
fn validate_args_rejects_non_object_args() {
    let def = search_def();
    let err = def.validate_args(&JsonValue::from_str("rust")).unwrap_err();
    assert_eq!(err.to_string(), "validation failed: tool args must be a JSON object");
}

#[test]
fn tool_output_text_roundtrip() {
    let r = ToolOutput::text("hello");
    assert!(!r.is_error);
    assert_eq!(r.as_text(), Some("hello"));
    assert!(r.citation.is_none());
}

#[test]
fn tool_output_error_sets_flag() {
    let r = ToolOutput::error("boom");
    assert!(r.is_error);
    assert_eq!(r.as_text(), Some("boom"));
}

#[test]
fn tool_output_json_uses_json_content_block() {
    let rate = JsonValue::from_f64_bits(31.5f64.to_bits());
    let r = ToolOutput::json(obj(vec![("rate", rate.deep_clone())]));
    assert!(!r.is_error);
    let parsed = r.as_json().expect("as_json");
    assert!(parsed.get("rate").unwrap().equals(&rate));
    match &r.content[0] {
        ContentBlock::Json { value } => assert!(value.get("rate").unwrap().equals(&rate)),
        _ => panic!("expected Json block"),
    }
}

#[test]
fn tool_output_as_json_parses_text() {
    let r = ToolOutput::text("{\"a\": 1}");
    let v = r.as_json().expect("text holds JSON");
    assert_eq!(v.get("a").unwrap().as_u64(), Some(1));
    assert!(ToolOutput::text("not json").as_json().is_none());
}

#[test]
fn tool_output_builder_chain() {
    let r = ToolOutput::text("data").with_citation("https://example.com").with_inject(true).with_duration(42);
    assert_eq!(r.citation.as_deref(), Some("https://example.com"));
    assert!(r.inject_to_context);
    assert_eq!(r.duration_ms, Some(42));
}

#[test]
fn tool_output_into_tool_result_strips_metadata() {
    let out = ToolOutput::text("hi").with_citation("https://x").with_duration(7);
    let wire = out.into_tool_result("call_42");
    assert_eq!(wire.tool_use_id, "call_42");
    assert!(!wire.is_error);
    assert_eq!(wire.content.len(), 1);
    match &wire.content[0] {
        ContentBlock::Text { text } => assert_eq!(text, "hi"),
        _ => panic!("expected Text"),
    }
}

#[test]
fn tool_output_into_tool_result_preserves_error_flag() {
    let wire = ToolOutput::error("boom").into_tool_result("call_1");
    assert!(wire.is_error);
}

#[test]
fn tool_context_extra_helpers() {
    let ctx = ToolContext::new("agent-1", "crucible")
        .with("org_id", JsonValue::from_str("motosan"))
        .with("budget", JsonValue::from_u64(5));
    assert_eq!(ctx.get_str("org_id"), Some("motosan"));
    assert_eq!(ctx.get_u64("budget"), Some(5));
    assert_eq!(ctx.get_str("missing"), None);
}

#[test]
fn tool_context_read_after_write_overrides() {
    let ctx = ToolContext::new("a", "p")
        .with("flag", JsonValue::from_bool(false))
        .with("flag", JsonValue::from_bool(true))
        .with("name", JsonValue::from_str("x"));
    assert_eq!(ctx.get_bool("flag"), Some(true));
    assert_eq!(ctx.get_str("name"), Some("x"));
    assert_eq!(ctx.get_u64("name"), None);
}

#[test]
fn tool_context_cwd_defaults_to_none() {
    let ctx = ToolContext::new("agent-1", "crucible");
    assert!(ctx.cwd.is_none());
}

#[test]
fn tool_context_with_cwd_sets_field() {
    let ctx = ToolContext::new("agent-1", "crucible").with_cwd("/tmp/work");
    assert_eq!(ctx.cwd.as_deref(), Some("/tmp/work"));
}

#[test]
fn tool_context_cancellation_field() {
    let token = tokio_util::sync::CancellationToken::new();
    let ctx = ToolContext::new("a", "p").with_cancellation(token.clone());
    assert!(!ctx.is_cancelled());
    token.cancel();
    assert!(ctx.is_cancelled());
}

#[test]
fn tool_context_default_is_empty() {
    let ctx = ToolContext::default();
    assert_eq!(ctx.caller_id, "");
    assert_eq!(ctx.platform, "");
    assert!(ctx.cwd.is_none());
    assert!(!ctx.is_cancelled());
}

fn def_from_payload(payload: &str) -> ToolDef {
    let v = motosan_agent_tool::json::parse_json_text(payload).expect("valid JSON");
    let text = |k: &str| v.get(k).and_then(|x| x.as_str()).map(|s| s.to_string());
    ToolDef::from_parts(
        &text("name").unwrap(),
        &text("description").unwrap(),
        v.get("input_schema").unwrap().deep_clone(),
        text("internal_name"),
    )
}

#[test]
fn tool_def_deserialize_legacy_without_internal_name_defaults_to_name() {
    let legacy = r#"{
            "name": "web_search",
            "description": "Search the web",
            "input_schema": { "type": "object", "properties": {} }
        }"#;
    let def = def_from_payload(legacy);
    assert_eq!(def.name, "web_search");
    assert_eq!(def.internal_name, "web_search");
}

#[test]
fn tool_def_deserialize_with_explicit_internal_name_preserves_it() {
    let payload = r#"{
            "name": "place_order",
            "description": "buy/sell",
            "input_schema": { "type": "object", "properties": {} },
            "internal_name": "finance.place_order"
        }"#;
    let def = def_from_payload(payload);
    assert_eq!(def.name, "place_order");
    assert_eq!(def.internal_name, "finance.place_order");
}

#[test]
fn enum_compares_numbers_numerically() {
    let def = ToolDef::new(
        "t",
        "t",
        obj(vec![
            ("type", JsonValue::from_str("object")),
            (
                "properties",
                obj(vec![(
                    "x",
                    obj(vec![("enum", JsonValue::array(vec![JsonValue::from_f64_bits(0.0f64.to_bits()), JsonValue::from_u64(2)]))]),
                )]),
            ),
        ]),
    );
    def.validate_args(&obj(vec![("x", JsonValue::from_f64_bits((-0.0f64).to_bits()))])).unwrap();
    def.validate_args(&obj(vec![("x", JsonValue::from_u64(2))])).unwrap();
    assert!(def.validate_args(&obj(vec![("x", JsonValue::from_f64_bits(2.0f64.to_bits()))])).is_err());
}

#[test]
fn as_json_gives_the_parsed_value_of_text() {
    let r = ToolOutput::text("{\"rate\": 31.5, \"n\": -3}");
    let v = r.as_json().expect("text holds JSON");
    assert_eq!(v.get("n").unwrap().as_i64(), Some(-3));
    assert!(v.get("rate").unwrap().is_number());
    assert!(ToolOutput::text("[1").as_json().is_none());
}

#[test]
fn clones_keep_every_field() {
    let def = search_def().with_internal_name("ns.search");
    let copy = def.clone();
    assert_eq!(copy.name, "web_search");
    assert_eq!(copy.internal_name, "ns.search");
    assert!(copy.input_schema.equals(&def.input_schema));
    let out = ToolOutput::text("hi").with_citation("https://x").with_duration(7);
    let c = out.clone();
    assert_eq!(c.as_text(), Some("hi"));
    assert_eq!(c.citation.as_deref(), Some("https://x"));
    assert_eq!(c.duration_ms, Some(7));
    let ctx = ToolContext::new("a", "p").with_cwd("/w").with("k", JsonValue::from_str("v"));
    let cc = ctx.clone();
    assert_eq!(cc.caller_id, "a");
    assert_eq!(cc.cwd.as_deref(), Some("/w"));
    assert_eq!(cc.get_str("k"), Some("v"));
}

#[test]
fn schema_and_argument_laws_on_examples() {
    let def = search_def();
    assert!(def.validate_input_schema().is_ok());
    let missing = def.validate_args(&obj(vec![("max_results", JsonValue::from_u64(3))])).unwrap_err();
    assert!(matches!(missing, Error::MissingField(ref k) if k == "query"));
    let bad_type = def.validate_args(&obj(vec![("query", JsonValue::from_u64(3))])).unwrap_err();
    assert!(matches!(bad_type, Error::Validation(_)));
    def.validate_args(&obj(vec![("query", JsonValue::from_str("q")), ("extra", JsonValue::from_u64(1))])).unwrap();
    let no_type = ToolDef::new("t", "t", obj(vec![("properties", obj(vec![]))]));
    assert!(matches!(no_type.validate_input_schema().unwrap_err(), Error::Validation(_)));
}

#[test]
fn invalid_args_is_a_parse_error() {
    let e = motosan_agent_tool::tool::invalid_args_error("bad");
    assert!(matches!(e, Error::Parse(ref m) if m == "invalid args: bad"));
}
