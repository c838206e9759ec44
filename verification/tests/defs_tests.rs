use motosan_agent_tool::tools::browser::{BrowserScreenshotTool, BrowserTabTool};
use motosan_agent_tool::tools::datetime::DatetimeTool;
use motosan_agent_tool::tools::defs::{cost_calculator_def, currency_convert_def, fetch_url_def, web_search_def};
use motosan_agent_tool::tools::js_eval::JsEvalTool;
use motosan_agent_tool::tools::python_eval::PythonEvalTool;
use motosan_agent_tool::tools::read_pdf::ReadPdfTool;

#[test]
fn every_builtin_definition_validates() {
    let defs = vec![
        DatetimeTool::new().def(),
        fetch_url_def(),
        ReadPdfTool::new().def(),
        PythonEvalTool::new().def(),
        JsEvalTool::new().def(),
        web_search_def(),
        BrowserScreenshotTool::new().def(),
        BrowserTabTool::new().def(),
        currency_convert_def(),
        cost_calculator_def(),
    ];
    for def in &defs {
        def.validate().unwrap_or_else(|e| panic!("{}: {}", def.name, e.to_string()));
        assert_eq!(def.internal_name, def.name);
    }
}

#[test]
fn builtin_definitions_describe_defaults() {
    let def = fetch_url_def();
    let max = def.input_schema.get("properties").unwrap().get("max_chars").unwrap();
    assert_eq!(max.get("default").unwrap().as_u64(), Some(5000));
    assert_eq!(max.get("type").unwrap().as_str(), Some("integer"));
    let def = currency_convert_def();
    let amount = def.input_schema.get("properties").unwrap().get("amount").unwrap();
    assert!(amount.get("default").unwrap().is_number());
    let def = BrowserTabTool::new().def();
    let action = def.input_schema.get("properties").unwrap().get("action").unwrap();
    let values: Vec<&str> = action.get("enum").unwrap().as_array().unwrap().iter().map(|v| v.as_str().unwrap()).collect();
    assert_eq!(values, vec!["new", "list", "switch", "close"]);
}
