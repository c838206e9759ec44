use motosan_agent_tool::json::JsonValue;
use motosan_agent_tool::tool::{ToolContext, ToolOutput};
use motosan_agent_tool::tools::browser::{
    browser_session, BrowserScreenshotTool, BrowserStep, BrowserTabTool, RunOutcome, TabRequest, TabStage,
};

fn exited(success: bool, stdout: &str, stderr: &str) -> RunOutcome {
    RunOutcome::Exited { success, code: Some(if success { 0 } else { 2 }), stdout: stdout.to_string(), stderr: stderr.to_string() }
}

fn answer(step: BrowserStep) -> ToolOutput {
    match step {
        BrowserStep::Done(o) => o,
        other => panic!("expected an answer, got {other:?}"),
    }
}

fn run_args(step: &BrowserStep) -> (Vec<String>, u64) {
    match step {
        BrowserStep::Run { args, timeout_secs } => (args.clone(), *timeout_secs),
        other => panic!("expected a run, got {other:?}"),
    }
}

fn request(action: &str, index: Option<u32>, url: Option<&str>) -> TabRequest {
    TabRequest { action: action.to_string(), index, url: url.map(|u| u.to_string()) }
}

#[test]
fn browser_screenshot_should_have_correct_name_and_schema() {
    let tool = BrowserScreenshotTool::new();
    let def = tool.def();
    assert_eq!(def.name, "browser_screenshot");
    let schema = &def.input_schema;
    assert_eq!(schema.get("type").unwrap().as_str(), Some("object"));
    assert!(schema.get("properties").unwrap().get("path").unwrap().is_object());
    def.validate_input_schema().unwrap();
}

#[test]
fn screenshot_runs_with_optional_path() {
    let tool = BrowserScreenshotTool::new();
    assert_eq!(run_args(&tool.start(&None, &None)), (vec!["screenshot".to_string()], 30));
    assert_eq!(
        run_args(&tool.start(&Some("/tmp/s.png".to_string()), &None)),
        (vec!["screenshot".to_string(), "/tmp/s.png".to_string()], 30)
    );
}

#[test]
fn screenshot_answers() {
    let tool = BrowserScreenshotTool::new();
    assert_eq!(tool.finish(exited(true, "  \n", "")).as_text(), Some("Screenshot captured"));
    assert_eq!(tool.finish(exited(true, "saved to /tmp/x.png", "")).as_text(), Some("saved to /tmp/x.png"));
    let failed = tool.finish(exited(false, "", "no browser"));
    assert!(failed.is_error);
    assert_eq!(failed.as_text(), Some("agent-browser screenshot failed (exit 2):\nno browser"));
    let no_code = tool.finish(RunOutcome::Exited { success: false, code: None, stdout: String::new(), stderr: "killed".to_string() });
    assert_eq!(no_code.as_text(), Some("agent-browser screenshot failed (exit -1):\nkilled"));
    assert_eq!(tool.finish(RunOutcome::TimedOut).as_text(), Some("Execution timed out after 30 seconds"));
    assert_eq!(tool.finish(RunOutcome::WaitFailed("broken pipe".to_string())).as_text(), Some("Process error: broken pipe"));
    let annotations = tool.annotations();
    assert!(annotations.destructive && annotations.network_access && !annotations.read_only && !annotations.idempotent);
}

#[test]
fn browser_tab_should_have_correct_name_and_schema() {
    let def = BrowserTabTool::new().def();
    assert_eq!(def.name, "browser_tab");
    let schema = &def.input_schema;
    assert_eq!(schema.get("type").unwrap().as_str(), Some("object"));
    assert!(schema.get("properties").unwrap().get("action").unwrap().is_object());
    let required = schema.get("required").unwrap().as_array().unwrap();
    assert_eq!(required.len(), 1);
    assert_eq!(required[0].as_str(), Some("action"));
    def.validate_input_schema().unwrap();
}

#[test]
fn should_fail_with_unknown_action() {
    let (stage, step) = BrowserTabTool::new().start(&request("destroy", None, None), &None);
    assert!(matches!(stage, TabStage::Finished));
    let out = answer(step);
    assert!(out.is_error);
    assert!(out.as_text().unwrap().contains("Unknown tab action"));
}

#[test]
fn switch_without_index_should_fail() {
    let (_, step) = BrowserTabTool::new().start(&request("switch", None, None), &None);
    let out = answer(step);
    assert!(out.is_error);
    assert!(out.as_text().unwrap().contains("requires 'index'"));
}

#[test]
fn new_tab_then_navigate() {
    let tool = BrowserTabTool::new();
    let (stage, step) = tool.start(&request("new", None, Some("https://example.com")), &None);
    assert_eq!(run_args(&step), (vec!["tab".to_string(), "new".to_string()], 10));
    let (stage, step) = tool.advance(stage, Some(exited(true, "", "")), &None);
    assert_eq!(run_args(&step), (vec!["open".to_string(), "https://example.com".to_string()], 30));
    let (stage, step) = tool.advance(stage, Some(exited(true, "", "")), &None);
    assert!(matches!(stage, TabStage::Finished));
    assert_eq!(answer(step).as_text(), Some("Opened new tab and navigated to https://example.com"));
}

#[test]
fn new_tab_without_url_reports_output() {
    let tool = BrowserTabTool::new();
    let (stage, _) = tool.start(&request("new", None, None), &None);
    let (_, step) = tool.advance(stage, Some(exited(true, " ", "")), &None);
    assert_eq!(answer(step).as_text(), Some("Opened new tab"));
    let (stage, _) = tool.start(&request("new", None, None), &None);
    let (_, step) = tool.advance(stage, Some(exited(false, "", "boom")), &None);
    assert_eq!(answer(step).as_text(), Some("tab new failed: boom"));
    let (stage, _) = tool.start(&request("new", None, None), &None);
    let (_, step) = tool.advance(stage, Some(RunOutcome::TimedOut), &None);
    assert_eq!(answer(step).as_text(), Some("Tab new timed out"));
}

#[test]
fn list_and_switch() {
    let tool = BrowserTabTool::new();
    let (stage, step) = tool.start(&request("list", None, None), &None);
    assert_eq!(run_args(&step), (vec!["tab".to_string(), "list".to_string()], 10));
    let (_, step) = tool.advance(stage, Some(exited(true, "0: a\n1: b", "")), &None);
    assert_eq!(answer(step).as_text(), Some("0: a\n1: b"));
    let (stage, step) = tool.start(&request("switch", Some(3), None), &None);
    assert_eq!(run_args(&step), (vec!["tab".to_string(), "3".to_string()], 10));
    let (_, step) = tool.advance(stage, Some(exited(true, "", "")), &None);
    assert_eq!(answer(step).as_text(), Some("Switched to tab 3"));
}

#[test]
fn close_selects_the_tab_first() {
    let tool = BrowserTabTool::new();
    let (stage, step) = tool.start(&request("close", Some(2), None), &None);
    match &step {
        BrowserStep::Detach { args, pause_ms } => {
            assert_eq!(args, &vec!["tab".to_string(), "2".to_string()]);
            assert_eq!(*pause_ms, 200);
        },
        other => panic!("expected a background start, got {other:?}"),
    }
    let (stage, step) = tool.advance(stage, None, &None);
    assert_eq!(run_args(&step), (vec!["tab".to_string(), "close".to_string()], 10));
    let (_, step) = tool.advance(stage, Some(exited(true, "", "")), &None);
    assert_eq!(answer(step).as_text(), Some("Tab closed"));
    let (stage, _) = tool.start(&request("close", None, None), &None);
    let (_, step) = tool.advance(stage, Some(RunOutcome::SpawnFailed("agent-browser not found".to_string())), &None);
    assert_eq!(answer(step).as_text(), Some("agent-browser not found"));
}

#[test]
fn commands_carry_the_session_name() {
    let session = Some("s1".to_string());
    let step = BrowserScreenshotTool::new().start(&None, &session);
    assert_eq!(run_args(&step), (vec!["--session-name".to_string(), "s1".to_string(), "screenshot".to_string()], 30));
    let tool = BrowserTabTool::new();
    let (stage, step) = tool.start(&request("close", Some(2), None), &session);
    match step {
        BrowserStep::Detach { args, pause_ms } => {
            assert_eq!(args, vec!["--session-name", "s1", "tab", "2"]);
            assert_eq!(pause_ms, 200);
        }
        _ => panic!("expected a background step"),
    }
    let (_, step) = tool.advance(stage, None, &session);
    assert_eq!(run_args(&step), (vec!["--session-name".to_string(), "s1".to_string(), "tab".to_string(), "close".to_string()], 10));
}

#[test]
fn session_comes_from_the_context() {
    let ctx = ToolContext::new("a", "p").with("browser_session", JsonValue::from_str("s1"));
    assert_eq!(browser_session(&ctx).as_deref(), Some("s1"));
    assert_eq!(browser_session(&ToolContext::new("a", "p")), None);
}

#[test]
fn spawn_failures_are_explained() {
    assert_eq!(
        motosan_agent_tool::tools::browser::spawn_failure_message(true, "x"),
        "agent-browser not found. Install it and make sure it is on PATH."
    );
    assert_eq!(motosan_agent_tool::tools::browser::spawn_failure_message(false, "denied"), "Failed to run agent-browser: denied");
}
