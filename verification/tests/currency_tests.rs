use motosan_agent_tool::json::JsonValue;
use motosan_agent_tool::tool::ToolContext;
use motosan_agent_tool::tools::currency::{
    cache_expired, conversion_error, default_target_currency, needs_rate_lookup, parse_codes, plan_costs, rate_urls,
    rates_fetch_error, resolve_api_key, single_result, unknown_code_error,
};
use motosan_agent_tool::tools::defs::{cost_calculator_def, currency_convert_def};

fn required_names(def: &motosan_agent_tool::tool::ToolDef) -> Vec<String> {
    def.input_schema.get("required").unwrap().as_array().unwrap().iter().map(|v| v.as_str().unwrap().to_string()).collect()
}

#[test]
fn currency_convert_tool_def_schema_is_valid() {
    let def = currency_convert_def();
    assert_eq!(def.name, "currency_convert");
    def.validate_input_schema().unwrap();
    let schema = &def.input_schema;
    assert_eq!(schema.get("type").unwrap().as_str(), Some("object"));
    let props = schema.get("properties").unwrap();
    assert!(props.get("from").unwrap().is_object());
    assert!(props.get("to").unwrap().is_object());
    assert!(props.get("amount").unwrap().is_object());
    assert_eq!(required_names(&def), vec!["from".to_string(), "to".to_string()]);
}

#[test]
fn cost_calculator_tool_def_schema_is_valid() {
    let def = cost_calculator_def();
    assert_eq!(def.name, "cost_calculator");
    def.validate_input_schema().unwrap();
    let props = def.input_schema.get("properties").unwrap();
    assert!(props.get("items").unwrap().is_object());
    assert!(props.get("target_currency").unwrap().is_object());
    assert_eq!(required_names(&def), vec!["items".to_string()]);
    let item = props.get("items").unwrap().get("items").unwrap();
    assert_eq!(item.get("required").unwrap().as_array().unwrap().len(), 4);
}

#[test]
fn should_fail_with_empty_to() {
    assert_eq!(parse_codes("USD", " , ,").unwrap_err(), "No target currency specified in 'to' field.");
    assert_eq!(parse_codes("USD", "").unwrap_err(), "No target currency specified in 'to' field.");
}

#[test]
fn case_insensitive_currency_codes() {
    let (base, targets) = parse_codes(" usd ", "twd, jpy ,,eur").unwrap();
    assert_eq!(base, "USD");
    assert_eq!(targets, vec!["TWD".to_string(), "JPY".to_string(), "EUR".to_string()]);
}

#[test]
fn unknown_currency_returns_error() {
    let r = unknown_code_error("USD", "XYZ");
    assert!(r.is_error);
    assert_eq!(r.as_text(), Some("Unknown currency code: XYZ. Could not find rate for USD -> XYZ."));
}

#[test]
fn default_target_currency_is_twd() {
    assert_eq!(default_target_currency(), "TWD");
}

#[test]
fn exchange_rate_key_prefers_the_context() {
    let ctx = ToolContext::new("a", "p").with("exchange_rate_api_key", JsonValue::from_str("k1"));
    assert_eq!(resolve_api_key(&ctx, Some("k2".to_string())).as_deref(), Some("k1"));
    assert_eq!(resolve_api_key(&ToolContext::new("a", "p"), None), None);
}

#[test]
fn cost_plans_normalise_and_fetch_each_rate_once() {
    let items = vec![" usd".to_string(), "jpy".to_string(), "USD ".to_string(), "twd".to_string()];
    let (t, codes, fetch) = plan_costs(" twd ", &items).unwrap();
    assert_eq!(t, "TWD");
    assert_eq!(codes, vec!["USD", "JPY", "USD", "TWD"]);
    assert_eq!(fetch, vec!["USD", "JPY", "TWD"]);
    assert_eq!(plan_costs("TWD", &vec![]).unwrap_err(), "Items list must not be empty.");
    assert!(!needs_rate_lookup("TWD", "TWD"));
    assert!(needs_rate_lookup("USD", "TWD"));
    assert_eq!(conversion_error("USD", "TWD", "boom"), "Failed to convert USD -> TWD: boom");
}

#[test]
fn rate_sources_cache_and_result_shape() {
    let (a, b) = rate_urls("USD");
    assert_eq!(a, "https://open.er-api.com/v6/latest/USD");
    assert_eq!(b, "https://api.exchangerate-api.com/v4/latest/USD");
    assert_eq!(rates_fetch_error("boom"), "Failed to fetch rates from both APIs. Last error: boom");
    assert!(!cache_expired(3_600_000_000_000));
    assert!(cache_expired(3_600_000_000_001));
    assert!(single_result(1));
    assert!(!single_result(2));
}

#[test]
fn blank_targets_are_refused() {
    assert_eq!(parse_codes("usd", " , ,").unwrap_err(), "No target currency specified in 'to' field.");
    let (_, t) = parse_codes("usd", " jpy, ,eur").unwrap();
    assert_eq!(t, vec!["JPY", "EUR"]);
}
