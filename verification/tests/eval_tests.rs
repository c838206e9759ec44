use motosan_agent_tool::tools::js_eval::{check_code, execute_js, js_output, js_sources, JsEvalTool, JsStage, HELPERS};
use motosan_agent_tool::tools::python_eval::{effective_timeout, run_output, spawn_error, timeout_error, PythonEvalTool};

#[test]
fn should_resolve_venv_python_bin() {
    let tool = PythonEvalTool::with_venv("/opt/venvs/analysis");
    let bin = tool.python_bin(false);
    assert_eq!(bin, "/opt/venvs/analysis/bin/python");
}

#[test]
fn venv_python_bin_on_windows() {
    let tool = PythonEvalTool::with_venv("C:/venvs/analysis");
    assert_eq!(tool.python_bin(true), "C:/venvs/analysis/Scripts/python.exe");
}

#[test]
fn default_python_bin_is_python3() {
    assert_eq!(PythonEvalTool::new().python_bin(false), "python3");
    assert_eq!(PythonEvalTool::new().python_bin(true), "python3");
}

#[test]
fn python_eval_should_have_correct_name_and_schema() {
    let def = PythonEvalTool::new().def();
    assert_eq!(def.name, "python_eval");
    let schema = &def.input_schema;
    assert_eq!(schema.get("type").unwrap().as_str(), Some("object"));
    let props = schema.get("properties").unwrap();
    assert!(props.get("code").unwrap().is_object());
    assert!(props.get("timeout_secs").unwrap().is_object());
    let required = schema.get("required").unwrap().as_array().unwrap();
    assert_eq!(required[0].as_str(), Some("code"));
}

#[test]
fn python_timeout_is_capped() {
    assert_eq!(effective_timeout(None), 30);
    assert_eq!(effective_timeout(Some(1)), 1);
    assert_eq!(effective_timeout(Some(300)), 300);
    assert_eq!(effective_timeout(Some(10_000)), 300);
}

#[test]
fn python_answers() {
    let r = run_output("hello world\n", "", Some(0));
    let v = r.as_json().unwrap();
    assert_eq!(v.get("stdout").unwrap().as_str(), Some("hello world\n"));
    assert_eq!(v.get("timed_out").unwrap().as_bool(), Some(false));
    assert_eq!(v.get("exit_code").unwrap().as_i64(), Some(0));
    assert!(run_output("", "", None).as_json().unwrap().get("exit_code").unwrap().is_null());
    assert_eq!(timeout_error(1).as_text(), Some("Execution timed out after 1 seconds"));
    assert_eq!(spawn_error("python3", "not found").as_text(), Some("Failed to spawn Python process (python3): not found"));
}

#[test]
fn js_eval_should_have_correct_name_and_schema() {
    let def = JsEvalTool::new().def();
    assert_eq!(def.name, "js_eval");
    let schema = &def.input_schema;
    assert_eq!(schema.get("type").unwrap().as_str(), Some("object"));
    assert!(schema.get("properties").unwrap().get("code").unwrap().is_object());
    let required = schema.get("required").unwrap().as_array().unwrap();
    assert_eq!(required[0].as_str(), Some("code"));
}

/// Runs the library's sources in one Boa realm, as the tool's caller does.
fn run_engine(code: &str) -> Result<String, (JsStage, String)> {
    let sources = js_sources(code);
    let mut context = boa_engine::Context::default();
    context
        .eval(boa_engine::Source::from_bytes(sources[0].as_bytes()))
        .map_err(|e| (JsStage::Helpers, e.to_string()))?;
    let value = context
        .eval(boa_engine::Source::from_bytes(sources[1].as_bytes()))
        .map_err(|e| (JsStage::Evaluation, e.to_string()))?;
    let json = value.to_json(&mut context).map_err(|e| (JsStage::Conversion, e.to_string()))?;
    serde_json::to_string(&json).map_err(|e| (JsStage::Serialization, e.to_string()))
}

#[test]
fn execute_js_basic_calculation() {
    let result = execute_js(run_engine("1 + 2")).unwrap();
    assert_eq!(result, "3");
}

#[test]
fn execute_js_helpers_loaded() {
    let result = execute_js(run_engine("sum([1,2,3])")).unwrap();
    assert_eq!(result, "6");
}

#[test]
fn execute_js_reports_errors_by_step() {
    assert!(execute_js(run_engine("var x = {")).unwrap_err().starts_with("JS evaluation error: "));
    assert!(execute_js(run_engine("undefinedFunction()")).unwrap_err().starts_with("JS evaluation error: "));
}

#[test]
fn should_fail_with_empty_code() {
    assert_eq!(check_code("  ").unwrap_err(), "Code must not be empty");
    assert!(check_code("1").is_ok());
}

#[test]
fn js_output_parses_json_or_keeps_text() {
    let r = js_output(Ok("14".to_string()));
    assert_eq!(r.as_json().unwrap().as_u64(), Some(14));
    let t = js_output(Ok("not json".to_string()));
    assert!(!t.is_error);
    assert_eq!(t.as_text(), Some("not json"));
    let e = js_output(Err("JS evaluation error: boom".to_string()));
    assert!(e.is_error);
}

#[test]
fn sources_are_helpers_then_code() {
    let s = js_sources("1 + 1");
    assert_eq!(s.len(), 2);
    assert_eq!(s[0], HELPERS);
    assert_eq!(s[1], "1 + 1");
}

#[test]
fn each_step_reports_its_prefix() {
    assert_eq!(execute_js(Ok("7".to_string())).unwrap(), "7");
    assert_eq!(execute_js(Err((JsStage::Helpers, "x".to_string()))).unwrap_err(), "Failed to load helpers: x");
    assert_eq!(execute_js(Err((JsStage::Evaluation, "x".to_string()))).unwrap_err(), "JS evaluation error: x");
    assert_eq!(execute_js(Err((JsStage::Conversion, "x".to_string()))).unwrap_err(), "Failed to convert result to JSON: x");
    assert_eq!(execute_js(Err((JsStage::Serialization, "x".to_string()))).unwrap_err(), "Failed to serialize result: x");
}

#[test]
fn js_output_gives_the_parsed_value() {
    let r = js_output(Ok("{\"a\": [1, 2.5, \"x\"]}".to_string()));
    let v = r.as_json().unwrap();
    let a = v.get("a").unwrap().as_array().unwrap();
    assert_eq!(a.len(), 3);
    assert_eq!(a[0].as_u64(), Some(1));
    assert_eq!(a[2].as_str(), Some("x"));
}
