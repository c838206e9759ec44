//! The browser tools drive an external `agent-browser` command. What runs
//! it is the caller's; this module decides which commands run, in which
//! order, with which time limits, and what each outcome answers.

use vstd::prelude::*;
use crate::text::trim;
use crate::tool::{ToolAnnotations, ToolOutput, answers_text};
use crate::tool::ContentBlock;

verus! {

/// How one run of `agent-browser` ended.
#[derive(Debug)]
pub enum RunOutcome {
    /// The command could not be started; the message says why.
    SpawnFailed(String),
    /// Waiting for the command failed.
    WaitFailed(String),
    /// The command did not finish in time.
    TimedOut,
    /// The command finished: whether it succeeded, its exit code if it had
    /// one, and its output read as text.
    Exited { success: bool, code: Option<i32>, stdout: String, stderr: String },
}

/// What the caller does next.
#[derive(Debug)]
pub enum BrowserStep {
    /// Run `agent-browser` with these arguments, output captured, waiting at
    /// most `timeout_secs`, and report how it ended.
    Run { args: Vec<String>, timeout_secs: u64 },
    /// Start `agent-browser` with these arguments without waiting for it or
    /// reading its output, pause `pause_ms` milliseconds, and report back.
    Detach { args: Vec<String>, pause_ms: u64 },
    /// The tool's answer.
    Done(ToolOutput),
}

/// Whether `r` is an error output holding the one text block `m`.
pub open spec fn answers_error(r: ToolOutput, m: Seq<char>) -> bool {
    crate::tool::answers(r, Err(m))
}

/// Whether `step` is the final answer `ok`/`err` given as text.
pub open spec fn done_with(step: BrowserStep, ok: bool, t: Seq<char>) -> bool {
    match step {
        BrowserStep::Done(o) => if ok { answers_text(o, t) } else { answers_error(o, t) },
        _ => false,
    }
}

/// Whether `step` runs `agent-browser` with `args` for at most `secs`.
pub open spec fn runs(step: BrowserStep, args: Seq<Seq<char>>, secs: u64) -> bool {
    match step {
        BrowserStep::Run { args: a, timeout_secs } => texts(a@) == args && timeout_secs == secs,
        _ => false,
    }
}

/// The texts of a list of strings.
pub open spec fn texts(v: Seq<String>) -> Seq<Seq<char>> {
    Seq::new(v.len(), |i: int| v[i]@)
}

fn strings2(a: &str, b: &str) -> (r: Vec<String>)
    ensures
        texts(r@) == seq![a@, b@],
{
    let r = vec![a.to_string(), b.to_string()];
    assert(texts(r@) =~= seq![a@, b@]);
    r
}

/// The text of an optional string.
pub open spec fn opt_text(o: Option<String>) -> Option<Seq<char>> {
    match o {
        Some(x) => Some(x@),
        None => None,
    }
}

/// The arguments that bind a command to a browser session:
/// `--session-name <session>`, or none without a session.
pub open spec fn session_args(session: Option<Seq<char>>) -> Seq<Seq<char>> {
    match session {
        Some(x) => seq!["--session-name"@, x],
        None => Seq::empty(),
    }
}

/// The browser session the call's context names (`browser_session` in its
/// extras), if it holds a string there.
pub fn browser_session(ctx: &crate::tool::ToolContext) -> (r: Option<String>)
    ensures
        match crate::json::lookup(ctx.extra@, "browser_session"@) {
            Some(crate::json::JsonSpec::Str(x)) => r matches Some(y) && y@ == x,
            _ => r is None,
        },
{
    match ctx.get_str("browser_session") {
        Some(x) => Some(x.to_string()),
        None => None,
    }
}

/// `args` bound to the session.
fn session_command(session: &Option<String>, args: Vec<String>) -> (r: Vec<String>)
    ensures
        texts(r@) == session_args(opt_text(*session)) + texts(args@),
{
    let mut r: Vec<String> = Vec::new();
    match session {
        Some(x) => {
            r.push(String::from_str("--session-name"));
            r.push(x.clone());
        },
        None => {},
    }
    let ghost pre = r@;
    let mut args = args;
    let ghost a = args@;
    r.append(&mut args);
    proof {
        assert(texts(pre) =~= session_args(opt_text(*session)));
        assert(r@ == pre + a);
        assert(texts(r@) =~= texts(pre) + texts(a));
    }
    r
}

/// The step with its command bound to the session.
fn with_session_step(step: BrowserStep, session: &Option<String>) -> (r: BrowserStep)
    ensures
        match step {
            BrowserStep::Run { args, timeout_secs } => r matches BrowserStep::Run { args: a, timeout_secs: t }
                && texts(a@) == session_args(opt_text(*session)) + texts(args@) && t == timeout_secs,
            BrowserStep::Detach { args, pause_ms } => r matches BrowserStep::Detach { args: a, pause_ms: p }
                && texts(a@) == session_args(opt_text(*session)) + texts(args@) && p == pause_ms,
            BrowserStep::Done(o) => r matches BrowserStep::Done(x) && x == o,
        },
{
    match step {
        BrowserStep::Run { args, timeout_secs } => BrowserStep::Run { args: session_command(session, args), timeout_secs },
        BrowserStep::Detach { args, pause_ms } => BrowserStep::Detach { args: session_command(session, args), pause_ms },
        BrowserStep::Done(o) => BrowserStep::Done(o),
    }
}

/// The message when `agent-browser` could not be started: an install hint
/// when the program was not found, else the failure's text.
pub fn spawn_failure_message(not_found: bool, detail: &str) -> (r: String)
    ensures
        r@ == (if not_found {
            "agent-browser not found. Install it and make sure it is on PATH."@
        } else {
            "Failed to run agent-browser: "@ + detail@
        }),
{
    if not_found {
        String::from_str("agent-browser not found. Install it and make sure it is on PATH.")
    } else {
        let mut m = String::from_str("Failed to run agent-browser: ");
        m.append(detail);
        m
    }
}

/// The common answer for a run that did not finish normally: the spawn
/// message, `Process error: <e>`, or `timed_out`.
pub open spec fn abnormal_answer(outcome: RunOutcome, timed_out: Seq<char>) -> Option<Seq<char>> {
    match outcome {
        RunOutcome::SpawnFailed(m) => Some(m@),
        RunOutcome::WaitFailed(e) => Some("Process error: "@ + e@),
        RunOutcome::TimedOut => Some(timed_out),
        RunOutcome::Exited { .. } => None,
    }
}

fn abnormal_output(outcome: &RunOutcome, timed_out: &str) -> (r: Option<ToolOutput>)
    ensures
        match abnormal_answer(*outcome, timed_out@) {
            Some(m) => r matches Some(o) && answers_error(o, m),
            None => r is None,
        },
{
    match outcome {
        RunOutcome::SpawnFailed(m) => Some(ToolOutput::error(m.as_str())),
        RunOutcome::WaitFailed(e) => {
            let mut msg = String::from_str("Process error: ");
            msg.append(e.as_str());
            Some(ToolOutput::error(msg.as_str()))
        },
        RunOutcome::TimedOut => Some(ToolOutput::error(timed_out)),
        RunOutcome::Exited { .. } => None,
    }
}

fn failure_output(prefix: &str, stderr: &str) -> (r: ToolOutput)
    ensures
        answers_error(r, prefix@ + stderr@),
{
    let mut msg = String::from_str(prefix);
    msg.append(stderr);
    ToolOutput::error(msg.as_str())
}

// ---------------------------------------------------------------------------
// browser_screenshot
// ---------------------------------------------------------------------------

/// The built-in `browser_screenshot` tool.
#[derive(Debug)]
pub struct BrowserScreenshotTool;

/// The answer for a screenshot run.
pub open spec fn screenshot_answer(outcome: RunOutcome) -> (bool, Seq<char>) {
    match abnormal_answer(outcome, "Execution timed out after 30 seconds"@) {
        Some(m) => (false, m),
        None => match outcome {
            RunOutcome::Exited { success, code, stdout, stderr } => if success {
                (true, if trim(stdout@).len() == 0 { "Screenshot captured"@ } else { stdout@ })
            } else {
                (false, "agent-browser screenshot failed (exit "@
                    + crate::text::int_text(match code { Some(c) => c as int, None => -1 })
                    + "):\n"@ + stderr@)
            },
            _ => (false, ""@),
        },
    }
}

impl BrowserScreenshotTool {
    /// The tool.
    pub fn new() -> Self {
        BrowserScreenshotTool
    }

    /// It writes a file and drives a browser that reaches the network.
    pub fn annotations(&self) -> (r: ToolAnnotations)
        ensures
            r == (ToolAnnotations { read_only: false, destructive: true, network_access: true, idempotent: false }),
    {
        ToolAnnotations { read_only: false, destructive: true, network_access: true, idempotent: false }
    }

    /// The command to run: `screenshot`, then the path when one is given,
    /// bound to the session when there is one, with 30 seconds to finish.
    pub fn start(&self, path: &Option<String>, session: &Option<String>) -> (r: BrowserStep)
        ensures
            runs(r, session_args(opt_text(*session))
                + match path { Some(p) => seq!["screenshot"@, p@], None => seq!["screenshot"@] }, 30),
    {
        let mut args: Vec<String> = vec![String::from_str("screenshot")];
        match path {
            Some(p) => args.push(p.clone()),
            None => {},
        }
        proof {
            match path {
                Some(p) => assert(texts(args@) =~= seq!["screenshot"@, p@]),
                None => assert(texts(args@) =~= seq!["screenshot"@]),
            }
        }
        BrowserStep::Run { args: session_command(session, args), timeout_secs: 30 }
    }

    /// The answer for how the screenshot run ended: its output (or
    /// `Screenshot captured` when that is blank) on success, the failure
    /// with exit code and error output otherwise.
    pub fn finish(&self, outcome: RunOutcome) -> (r: ToolOutput)
        ensures
            (if screenshot_answer(outcome).0 { answers_text(r, screenshot_answer(outcome).1) }
                else { answers_error(r, screenshot_answer(outcome).1) }),
    {
        proof {
            reveal_strlit("");
        }
        match abnormal_output(&outcome, "Execution timed out after 30 seconds") {
            Some(o) => return o,
            None => {},
        }
        match outcome {
            RunOutcome::Exited { success, code, stdout, stderr } => {
                if success {
                    let trimmed = crate::text::trim_text(stdout.as_str());
                    if trimmed.as_str().is_empty() {
                        ToolOutput::text("Screenshot captured")
                    } else {
                        ToolOutput::text(stdout.as_str())
                    }
                } else {
                    let c: i64 = match code {
                        Some(c) => c as i64,
                        None => -1,
                    };
                    let mut msg = String::from_str("agent-browser screenshot failed (exit ");
                    crate::text::push_signed_decimal(&mut msg, c);
                    msg.append("):\n");
                    msg.append(stderr.as_str());
                    ToolOutput::error(msg.as_str())
                }
            },
            _ => ToolOutput::error(""),
        }
    }
}

impl Default for BrowserScreenshotTool {
    fn default() -> Self {
        BrowserScreenshotTool::new()
    }
}

} // verus!

verus! {

// ---------------------------------------------------------------------------
// browser_tab
// ---------------------------------------------------------------------------

/// The arguments of a `browser_tab` call.
#[derive(Debug)]
pub struct TabRequest {
    pub action: String,
    pub index: Option<u32>,
    pub url: Option<String>,
}

/// Where a `browser_tab` call stands.
#[derive(Debug)]
pub enum TabStage {
    /// `tab new` is running; the URL, if any, is opened next.
    Opening { url: Option<String> },
    /// `open <url>` is running in the new tab.
    Navigating { url: String },
    /// `tab list` is running.
    Listing,
    /// `tab <index>` is running.
    Switching { index: String },
    /// The tab to close was selected in the background; `tab close` is next.
    Selected,
    /// `tab close` is running.
    Closing,
    /// The call is answered.
    Finished,
}

/// A step, as plain values.
pub enum StepSpec {
    Run(Seq<Seq<char>>, u64),
    Detach(Seq<Seq<char>>, u64),
    Answer(bool, Seq<char>),
}

/// A stage, as plain values.
pub enum StageSpec {
    Opening(Option<Seq<char>>),
    Navigating(Seq<char>),
    Listing,
    Switching(Seq<char>),
    Selected,
    Closing,
    Finished,
}

impl TabStage {
    pub open spec fn view(&self) -> StageSpec {
        match self {
            TabStage::Opening { url } => StageSpec::Opening(match url { Some(u) => Some(u@), None => None }),
            TabStage::Navigating { url } => StageSpec::Navigating(url@),
            TabStage::Listing => StageSpec::Listing,
            TabStage::Switching { index } => StageSpec::Switching(index@),
            TabStage::Selected => StageSpec::Selected,
            TabStage::Closing => StageSpec::Closing,
            TabStage::Finished => StageSpec::Finished,
        }
    }
}

/// Whether `step` is `s`.
pub open spec fn step_is(step: BrowserStep, s: StepSpec) -> bool {
    match s {
        StepSpec::Run(args, secs) => runs(step, args, secs),
        StepSpec::Detach(args, ms) => step matches BrowserStep::Detach { args: a, pause_ms }
            && texts(a@) == args && pause_ms == ms,
        StepSpec::Answer(ok, t) => done_with(step, ok, t),
    }
}

/// A step with its command bound to the session.
pub open spec fn with_session(session: Option<Seq<char>>, s: StepSpec) -> StepSpec {
    match s {
        StepSpec::Run(args, secs) => StepSpec::Run(session_args(session) + args, secs),
        StepSpec::Detach(args, ms) => StepSpec::Detach(session_args(session) + args, ms),
        StepSpec::Answer(ok, t) => StepSpec::Answer(ok, t),
    }
}

/// The first stage and step of a call.
pub open spec fn tab_start_spec(action: Seq<char>, index: Option<u32>, url: Option<Seq<char>>) -> (StageSpec, StepSpec) {
    if action == "new"@ {
        (StageSpec::Opening(url), StepSpec::Run(seq!["tab"@, "new"@], 10))
    } else if action == "list"@ {
        (StageSpec::Listing, StepSpec::Run(seq!["tab"@, "list"@], 10))
    } else if action == "switch"@ {
        match index {
            None => (StageSpec::Finished, StepSpec::Answer(false, "'switch' action requires 'index' parameter"@)),
            Some(i) => (StageSpec::Switching(crate::text::nat_text(i as nat)),
                StepSpec::Run(seq!["tab"@, crate::text::nat_text(i as nat)], 10)),
        }
    } else if action == "close"@ {
        match index {
            Some(i) => (StageSpec::Selected, StepSpec::Detach(seq!["tab"@, crate::text::nat_text(i as nat)], 200)),
            None => (StageSpec::Closing, StepSpec::Run(seq!["tab"@, "close"@], 10)),
        }
    } else {
        (StageSpec::Finished, StepSpec::Answer(false, "Unknown tab action: '"@ + action
            + "'. Use: new, list, switch, close"@))
    }
}

/// How a run of `agent-browser` ended, as plain values.
pub enum OutcomeSpec {
    SpawnFailed(Seq<char>),
    WaitFailed(Seq<char>),
    TimedOut,
    Exited(bool, Seq<char>, Seq<char>),
}

impl RunOutcome {
    pub open spec fn view(&self) -> OutcomeSpec {
        match self {
            RunOutcome::SpawnFailed(m) => OutcomeSpec::SpawnFailed(m@),
            RunOutcome::WaitFailed(e) => OutcomeSpec::WaitFailed(e@),
            RunOutcome::TimedOut => OutcomeSpec::TimedOut,
            RunOutcome::Exited { success, code, stdout, stderr } => OutcomeSpec::Exited(*success, stdout@, stderr@),
        }
    }
}

/// The answer for a finished run: on an abnormal end the spawn message,
/// `Process error: ..` or `timed_out`; on failure `failed` and the error
/// output; on success `ok`.
pub open spec fn run_answer(o: OutcomeSpec, timed_out: Seq<char>, failed: Seq<char>, ok: Seq<char>) -> StepSpec {
    match o {
        OutcomeSpec::SpawnFailed(m) => StepSpec::Answer(false, m),
        OutcomeSpec::WaitFailed(e) => StepSpec::Answer(false, "Process error: "@ + e),
        OutcomeSpec::TimedOut => StepSpec::Answer(false, timed_out),
        OutcomeSpec::Exited(success, out, err) => if success {
            StepSpec::Answer(true, ok)
        } else {
            StepSpec::Answer(false, failed + err)
        },
    }
}

/// The next stage and step after the current step ended (`None` after a
/// background start).
pub open spec fn tab_advance_spec(stage: StageSpec, outcome: Option<OutcomeSpec>) -> (StageSpec, StepSpec) {
    match stage {
        StageSpec::Opening(url) => match outcome {
            Some(OutcomeSpec::Exited(true, out, err)) => match url {
                Some(u) => (StageSpec::Navigating(u), StepSpec::Run(seq!["open"@, u], 30)),
                None => (StageSpec::Finished, StepSpec::Answer(true,
                    if trim(out).len() == 0 { "Opened new tab"@ } else { out })),
            },
            Some(o) => (StageSpec::Finished, run_answer(o, "Tab new timed out"@, "tab new failed: "@, Seq::empty())),
            None => (StageSpec::Finished, StepSpec::Answer(false, ""@)),
        },
        StageSpec::Navigating(u) => match outcome {
            Some(o) => (StageSpec::Finished, run_answer(o, "Navigation timed out"@, "navigate failed: "@,
                "Opened new tab and navigated to "@ + u)),
            None => (StageSpec::Finished, StepSpec::Answer(false, ""@)),
        },
        StageSpec::Listing => match outcome {
            Some(o) => (StageSpec::Finished, run_answer(o, "Tab list timed out"@, "tab list failed: "@,
                match o { OutcomeSpec::Exited(_, out, _) => out, _ => Seq::empty() })),
            None => (StageSpec::Finished, StepSpec::Answer(false, ""@)),
        },
        StageSpec::Switching(idx) => match outcome {
            Some(o) => (StageSpec::Finished, run_answer(o, "Tab switch timed out"@, "tab switch failed: "@,
                "Switched to tab "@ + idx)),
            None => (StageSpec::Finished, StepSpec::Answer(false, ""@)),
        },
        StageSpec::Selected => (StageSpec::Closing, StepSpec::Run(seq!["tab"@, "close"@], 10)),
        StageSpec::Closing => match outcome {
            Some(o) => (StageSpec::Finished, run_answer(o, "Tab close timed out"@, "tab close failed: "@,
                "Tab closed"@)),
            None => (StageSpec::Finished, StepSpec::Answer(false, ""@)),
        },
        StageSpec::Finished => (StageSpec::Finished, StepSpec::Answer(false, ""@)),
    }
}

/// How many more steps a stage can take at most.
pub open spec fn stage_rank(s: StageSpec) -> int {
    match s {
        StageSpec::Opening(_) => 2,
        StageSpec::Navigating(_) => 1,
        StageSpec::Listing => 1,
        StageSpec::Switching(_) => 1,
        StageSpec::Selected => 2,
        StageSpec::Closing => 1,
        StageSpec::Finished => 0,
    }
}

/// Every `browser_tab` call ends: each step moves to a stage with fewer
/// steps left, a call runs at most two commands, and it is answered exactly
/// when it reaches the finished stage.
pub proof fn lemma_tab_calls_end(stage: StageSpec, outcome: Option<OutcomeSpec>, action: Seq<char>, index: Option<u32>, url: Option<Seq<char>>)
    ensures
        stage_rank(stage) > 0 ==> stage_rank(tab_advance_spec(stage, outcome).0) < stage_rank(stage),
        (tab_advance_spec(stage, outcome).0 is Finished) <==> (tab_advance_spec(stage, outcome).1 is Answer),
        stage_rank(tab_start_spec(action, index, url).0) <= 2,
        (tab_start_spec(action, index, url).0 is Finished) <==> (tab_start_spec(action, index, url).1 is Answer),
{
}

impl BrowserTabTool {
    /// The tool.
    pub fn new() -> Self {
        BrowserTabTool
    }

    /// The first stage and step of a call: `new`, `list`, `switch` (which
    /// needs an index) or `close` (which first selects the given tab, if
    /// any, in the background); any other action is an error.
    pub fn start(&self, req: &TabRequest, session: &Option<String>) -> (r: (TabStage, BrowserStep))
        ensures
            r.0@ == tab_start_spec(req.action@, req.index, opt_text(req.url)).0,
            step_is(r.1, with_session(opt_text(*session), tab_start_spec(req.action@, req.index, opt_text(req.url)).1)),
    {
        let (stage, step) = tab_start(req);
        (stage, with_session_step(step, session))
    }

    /// The next stage and step once the current step ended: `outcome` is how
    /// the run ended, `None` after a background start; commands are bound to
    /// the session when there is one.
    pub fn advance(&self, stage: TabStage, outcome: Option<RunOutcome>, session: &Option<String>) -> (r: (TabStage, BrowserStep))
        ensures
            r.0@ == tab_advance_spec(stage@, match outcome { Some(o) => Some(o@), None => None }).0,
            step_is(r.1, with_session(opt_text(*session), tab_advance_spec(stage@, match outcome { Some(o) => Some(o@), None => None }).1)),
    {
        let (next, step) = tab_advance(stage, outcome);
        (next, with_session_step(step, session))
    }
}

/// The first stage and step of a call, before binding to a session.
fn tab_start(req: &TabRequest) -> (r: (TabStage, BrowserStep))
    ensures
        r.0@ == tab_start_spec(req.action@, req.index, opt_text(req.url)).0,
        step_is(r.1, tab_start_spec(req.action@, req.index, opt_text(req.url)).1),
{
    let a = req.action.as_str();
    if crate::text::str_eq(a, "new") {
        let url = match &req.url {
            Some(u) => Some(u.clone()),
            None => None,
        };
        (TabStage::Opening { url }, BrowserStep::Run { args: strings2("tab", "new"), timeout_secs: 10 })
    } else if crate::text::str_eq(a, "list") {
        (TabStage::Listing, BrowserStep::Run { args: strings2("tab", "list"), timeout_secs: 10 })
    } else if crate::text::str_eq(a, "switch") {
        match req.index {
            None => (TabStage::Finished, BrowserStep::Done(ToolOutput::error("'switch' action requires 'index' parameter"))),
            Some(i) => {
                let idx = crate::text::u64_text(i as u64);
                let args = strings2("tab", idx.as_str());
                (TabStage::Switching { index: idx }, BrowserStep::Run { args, timeout_secs: 10 })
            },
        }
    } else if crate::text::str_eq(a, "close") {
        match req.index {
            Some(i) => {
                let idx = crate::text::u64_text(i as u64);
                (TabStage::Selected, BrowserStep::Detach { args: strings2("tab", idx.as_str()), pause_ms: 200 })
            },
            None => (TabStage::Closing, BrowserStep::Run { args: strings2("tab", "close"), timeout_secs: 10 }),
        }
    } else {
        let mut msg = String::from_str("Unknown tab action: '");
        msg.append(a);
        msg.append("'. Use: new, list, switch, close");
        (TabStage::Finished, BrowserStep::Done(ToolOutput::error(msg.as_str())))
    }
}

/// The next stage and step once the current step ended, before binding to
/// a session.
fn tab_advance(stage: TabStage, outcome: Option<RunOutcome>) -> (r: (TabStage, BrowserStep))
    ensures
        r.0@ == tab_advance_spec(stage@, match outcome { Some(o) => Some(o@), None => None }).0,
        step_is(r.1, tab_advance_spec(stage@, match outcome { Some(o) => Some(o@), None => None }).1),
{
    proof {
        reveal_strlit("");
    }
    match stage {
        TabStage::Selected => {
            (TabStage::Closing, BrowserStep::Run { args: strings2("tab", "close"), timeout_secs: 10 })
        },
        TabStage::Finished => (TabStage::Finished, BrowserStep::Done(ToolOutput::error(""))),
        TabStage::Opening { url } => {
            let o = match outcome {
                Some(o) => o,
                None => return (TabStage::Finished, BrowserStep::Done(ToolOutput::error(""))),
            };
            match abnormal_output(&o, "Tab new timed out") {
                Some(out) => return (TabStage::Finished, BrowserStep::Done(out)),
                None => {},
            }
            match o {
                RunOutcome::Exited { success, code, stdout, stderr } => {
                    if !success {
                        return (TabStage::Finished, BrowserStep::Done(failure_output("tab new failed: ", stderr.as_str())));
                    }
                    match url {
                        Some(u) => {
                            let args = strings2("open", u.as_str());
                            (TabStage::Navigating { url: u }, BrowserStep::Run { args, timeout_secs: 30 })
                        },
                        None => {
                            let trimmed = crate::text::trim_text(stdout.as_str());
                            let out = if trimmed.as_str().is_empty() {
                                ToolOutput::text("Opened new tab")
                            } else {
                                ToolOutput::text(stdout.as_str())
                            };
                            (TabStage::Finished, BrowserStep::Done(out))
                        },
                    }
                },
                _ => (TabStage::Finished, BrowserStep::Done(ToolOutput::error(""))),
            }
        },
        TabStage::Navigating { url } => {
            let mut ok = String::from_str("Opened new tab and navigated to ");
            ok.append(url.as_str());
            (TabStage::Finished, BrowserStep::Done(finish_run(outcome, "Navigation timed out", "navigate failed: ", ok.as_str())))
        },
        TabStage::Listing => {
            let ok = match &outcome {
                Some(RunOutcome::Exited { stdout, .. }) => stdout.clone(),
                _ => String::new(),
            };
            (TabStage::Finished, BrowserStep::Done(finish_run(outcome, "Tab list timed out", "tab list failed: ", ok.as_str())))
        },
        TabStage::Switching { index } => {
            let mut ok = String::from_str("Switched to tab ");
            ok.append(index.as_str());
            (TabStage::Finished, BrowserStep::Done(finish_run(outcome, "Tab switch timed out", "tab switch failed: ", ok.as_str())))
        },
        TabStage::Closing => {
            (TabStage::Finished, BrowserStep::Done(finish_run(outcome, "Tab close timed out", "tab close failed: ", "Tab closed")))
        },
    }
}

/// The answer for how a final run ended.
fn finish_run(outcome: Option<RunOutcome>, timed_out: &str, failed: &str, ok: &str) -> (r: ToolOutput)
    ensures
        step_is(BrowserStep::Done(r), match outcome {
            Some(o) => run_answer(o@, timed_out@, failed@, ok@),
            None => StepSpec::Answer(false, ""@),
        }),
{
    proof {
        reveal_strlit("");
    }
    let o = match outcome {
        Some(o) => o,
        None => return ToolOutput::error(""),
    };
    match abnormal_output(&o, timed_out) {
        Some(out) => return out,
        None => {},
    }
    match o {
        RunOutcome::Exited { success, code, stdout, stderr } => {
            if success {
                ToolOutput::text(ok)
            } else {
                failure_output(failed, stderr.as_str())
            }
        },
        _ => ToolOutput::error(""),
    }
}

/// The built-in `browser_tab` tool: open, list, switch and close tabs.
#[derive(Debug)]
pub struct BrowserTabTool;

impl Default for BrowserTabTool {
    fn default() -> Self {
        BrowserTabTool::new()
    }
}

} // verus!
