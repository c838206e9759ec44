//! The decisions of the `python_eval` tool: which interpreter runs, the time
//! limit, and what a run answers. Starting the process and waiting for it
//! is the caller's.

use vstd::prelude::*;
use crate::json::{JsonSpec, JsonValue, pairs_to_entries, specs_of};
use crate::tool::ToolOutput;

verus! {

/// Seconds a script may run when no limit is given.
pub const DEFAULT_TIMEOUT_SECS: u64 = 30;
/// The longest limit a call may ask for, in seconds.
pub const MAX_TIMEOUT_SECS: u64 = 300;

/// The built-in `python_eval` tool, optionally bound to a virtual
/// environment.
#[derive(Debug)]
pub struct PythonEvalTool {
    venv_path: Option<String>,
}

/// The interpreter for an optional virtual environment: its
/// `Scripts/python.exe` on Windows, its `bin/python` elsewhere; or `python3`
/// from the search path.
pub open spec fn python_bin_spec(venv: Option<Seq<char>>, windows: bool) -> Seq<char> {
    match venv {
        Some(v) => if windows { v + "/Scripts/python.exe"@ } else { v + "/bin/python"@ },
        None => "python3"@,
    }
}

impl PythonEvalTool {
    /// The environment the tool runs in, if any.
    pub closed spec fn venv(&self) -> Option<Seq<char>> {
        match self.venv_path {
            Some(v) => Some(v@),
            None => None,
        }
    }

    /// The tool, running the system `python3`.
    pub fn new() -> (r: Self)
        ensures
            r.venv() is None,
    {
        PythonEvalTool { venv_path: None }
    }

    /// The tool, running the interpreter of the virtual environment at
    /// `venv_path`.
    pub fn with_venv(venv_path: &str) -> (r: Self)
        ensures
            r.venv() == Some(venv_path@),
    {
        PythonEvalTool { venv_path: Some(venv_path.to_string()) }
    }

    /// The interpreter to run: the environment's (laid out as on Windows
    /// when `windows`, the platform the caller runs on), else `python3`.
    pub fn python_bin(&self, windows: bool) -> (r: String)
        ensures
            r@ == python_bin_spec(self.venv(), windows),
    {
        match &self.venv_path {
            Some(v) => {
                let mut s = v.clone();
                if windows {
                    s.append("/Scripts/python.exe");
                } else {
                    s.append("/bin/python");
                }
                s
            },
            None => String::from_str("python3"),
        }
    }
}

impl Default for PythonEvalTool {
    fn default() -> Self {
        PythonEvalTool::new()
    }
}

/// The time limit for a call: the one asked for (30 seconds when none), at
/// most 300 seconds.
pub fn effective_timeout(timeout_secs: Option<u64>) -> (r: u64)
    ensures
        r == (match timeout_secs {
            Some(t) => if t < MAX_TIMEOUT_SECS { t } else { MAX_TIMEOUT_SECS },
            None => DEFAULT_TIMEOUT_SECS,
        }),
        r <= MAX_TIMEOUT_SECS,
{
    let t = match timeout_secs {
        Some(t) => t,
        None => DEFAULT_TIMEOUT_SECS,
    };
    if t < MAX_TIMEOUT_SECS { t } else { MAX_TIMEOUT_SECS }
}

/// The error when the interpreter could not be started.
pub fn spawn_error(bin: &str, error: &str) -> (r: ToolOutput)
    ensures
        crate::tool::answers(r, Err("Failed to spawn Python process ("@ + bin@ + "): "@ + error@)),
{
    let mut m = String::from_str("Failed to spawn Python process (");
    m.append(bin);
    m.append("): ");
    m.append(error);
    ToolOutput::error(m.as_str())
}

/// The error when waiting for the interpreter failed.
pub fn process_error(error: &str) -> (r: ToolOutput)
    ensures
        crate::tool::answers(r, Err("Python process error: "@ + error@)),
{
    let mut m = String::from_str("Python process error: ");
    m.append(error);
    ToolOutput::error(m.as_str())
}

/// The error when the script ran out of time.
pub fn timeout_error(timeout_secs: u64) -> (r: ToolOutput)
    ensures
        crate::tool::answers(r, Err("Execution timed out after "@ + crate::text::nat_text(timeout_secs as nat)
            + " seconds"@)),
{
    let mut m = String::from_str("Execution timed out after ");
    crate::text::push_decimal(&mut m, timeout_secs);
    m.append(" seconds");
    ToolOutput::error(m.as_str())
}

/// The JSON answer for a finished script.
pub open spec fn run_json(stdout: Seq<char>, stderr: Seq<char>, exit_code: Option<i32>) -> JsonSpec {
    JsonSpec::Object(pairs_to_entries(seq![
        ("stdout"@, JsonSpec::Str(stdout)),
        ("stderr"@, JsonSpec::Str(stderr)),
        ("exit_code"@, match exit_code {
            Some(c) => JsonSpec::Number(crate::json::JsonNumber::Int(c as i128)),
            None => JsonSpec::Null,
        }),
        ("timed_out"@, JsonSpec::Bool(false)),
    ]))
}

/// The answer for a script that finished in time (whatever its exit code):
/// its output, error output and exit code.
pub fn run_output(stdout: &str, stderr: &str, exit_code: Option<i32>) -> (r: ToolOutput)
    ensures
        crate::tool::answers(r, Ok(run_json(stdout@, stderr@, exit_code))),
{
    let code = match exit_code {
        Some(c) => JsonValue::from_i64(c as i64),
        None => JsonValue::null(),
    };
    let pairs = vec![
        (String::from_str("stdout"), JsonValue::from_str(stdout)),
        (String::from_str("stderr"), JsonValue::from_str(stderr)),
        (String::from_str("exit_code"), code),
        (String::from_str("timed_out"), JsonValue::from_bool(false)),
    ];
    let ghost expected = seq![
        ("stdout"@, JsonSpec::Str(stdout@)),
        ("stderr"@, JsonSpec::Str(stderr@)),
        ("exit_code"@, match exit_code {
            Some(c) => JsonSpec::Number(crate::json::JsonNumber::Int(c as i128)),
            None => JsonSpec::Null,
        }),
        ("timed_out"@, JsonSpec::Bool(false)),
    ];
    assert(specs_of(pairs@) =~= expected);
    ToolOutput::json(JsonValue::object(pairs))
}

} // verus!
