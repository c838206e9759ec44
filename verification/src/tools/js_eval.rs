//! The decisions of the `js_eval` tool: the helper library every script
//! sees, the sources handed to the engine, how each failing step is
//! reported, and what a run answers. Running the engine on a worker thread
//! with a time limit is the caller's.

use vstd::prelude::*;
use crate::tool::ToolOutput;

verus! {

/// Seconds a script may run.
pub const EXECUTION_TIMEOUT_SECS: u64 = 5;

/// Helper functions defined before every script: `csv`, `sum`, `avg`,
/// `median`, `stdev`, `percentile`, `groupBy`, `sortBy`, `minBy`, `maxBy`.
pub const HELPERS: &'static str = r#"
function csv(text) {
    var lines = text.trim().split('\n');
    if (lines.length === 0) return [];
    var headers = lines[0].split(',').map(function(h) { return h.trim(); });
    var result = [];
    for (var i = 1; i < lines.length; i++) {
        var values = lines[i].split(',').map(function(v) { return v.trim(); });
        var obj = {};
        for (var j = 0; j < headers.length; j++) {
            var val = values[j] !== undefined ? values[j] : '';
            var num = Number(val);
            obj[headers[j]] = val !== '' && !isNaN(num) ? num : val;
        }
        result.push(obj);
    }
    return result;
}

function sum(arr) {
    var total = 0;
    for (var i = 0; i < arr.length; i++) {
        total += typeof arr[i] === 'number' ? arr[i] : Number(arr[i]) || 0;
    }
    return total;
}

function avg(arr) {
    if (arr.length === 0) return 0;
    return sum(arr) / arr.length;
}

function median(arr) {
    if (arr.length === 0) return 0;
    var sorted = arr.slice().sort(function(a, b) { return a - b; });
    var mid = Math.floor(sorted.length / 2);
    if (sorted.length % 2 === 0) {
        return (sorted[mid - 1] + sorted[mid]) / 2;
    }
    return sorted[mid];
}

function stdev(arr) {
    if (arr.length === 0) return 0;
    var mean = avg(arr);
    var sqDiffs = 0;
    for (var i = 0; i < arr.length; i++) {
        var diff = arr[i] - mean;
        sqDiffs += diff * diff;
    }
    return Math.sqrt(sqDiffs / arr.length);
}

function percentile(arr, p) {
    if (arr.length === 0) return 0;
    var sorted = arr.slice().sort(function(a, b) { return a - b; });
    var idx = (p / 100) * (sorted.length - 1);
    var lower = Math.floor(idx);
    var upper = Math.ceil(idx);
    if (lower === upper) return sorted[lower];
    var weight = idx - lower;
    return sorted[lower] * (1 - weight) + sorted[upper] * weight;
}

function groupBy(arr, key) {
    var groups = {};
    for (var i = 0; i < arr.length; i++) {
        var k = String(arr[i][key]);
        if (!groups[k]) groups[k] = [];
        groups[k].push(arr[i]);
    }
    return groups;
}

function sortBy(arr, key, desc) {
    return arr.slice().sort(function(a, b) {
        var va = a[key], vb = b[key];
        if (va < vb) return desc ? 1 : -1;
        if (va > vb) return desc ? -1 : 1;
        return 0;
    });
}

function minBy(arr, key) {
    if (arr.length === 0) return undefined;
    var best = arr[0];
    for (var i = 1; i < arr.length; i++) {
        if (arr[i][key] < best[key]) best = arr[i];
    }
    return best;
}

function maxBy(arr, key) {
    if (arr.length === 0) return undefined;
    var best = arr[0];
    for (var i = 1; i < arr.length; i++) {
        if (arr[i][key] > best[key]) best = arr[i];
    }
    return best;
}
"#;

/// The steps of a run, in order: loading the helpers, evaluating the
/// script, converting its value to JSON, writing that JSON as text.
#[derive(Debug, Clone, Copy, PartialEq, Eq, Structural)]
pub enum JsStage {
    Helpers,
    Evaluation,
    Conversion,
    Serialization,
}

/// How a failure at each step is reported, before the engine's message.
pub open spec fn stage_prefix(stage: JsStage) -> Seq<char> {
    match stage {
        JsStage::Helpers => "Failed to load helpers: "@,
        JsStage::Evaluation => "JS evaluation error: "@,
        JsStage::Conversion => "Failed to convert result to JSON: "@,
        JsStage::Serialization => "Failed to serialize result: "@,
    }
}

/// The sources a run hands the engine, in one fresh realm and in this
/// order: the helpers, then the script. The value of the last one is the
/// run's value.
pub fn js_sources(code: &str) -> (r: Vec<String>)
    ensures
        r@.len() == 2,
        r@[0]@ == HELPERS@,
        r@[1]@ == code@,
{
    let mut v: Vec<String> = Vec::new();
    v.push(HELPERS.to_string());
    v.push(code.to_string());
    v
}

/// Whether `m` is one of the messages a failed run gives: the step that
/// failed, then the engine's message.
pub open spec fn js_failure(m: Seq<char>) -> bool {
    exists|stage: JsStage, e: Seq<char>| m == stage_prefix(stage) + e
}

/// What a run of the engine reports. The engine itself runs in the
/// caller, on the sources of [`js_sources`], since a script may loop
/// forever or read the clock; `run` is its outcome: the JSON text of the
/// value, or the step that failed with the engine's message. The report is
/// that text, or the message after the step's prefix.
pub fn execute_js(run: Result<String, (JsStage, String)>) -> (r: Result<String, String>)
    ensures
        match run {
            Ok(t) => r matches Ok(x) && x@ == t@,
            Err((stage, e)) => r matches Err(m) && m@ == stage_prefix(stage) + e@,
        },
        r matches Err(m) ==> js_failure(m@),
{
    match run {
        Ok(t) => Ok(t),
        Err((stage, e)) => {
            let prefix = match stage {
                JsStage::Helpers => "Failed to load helpers: ",
                JsStage::Evaluation => "JS evaluation error: ",
                JsStage::Conversion => "Failed to convert result to JSON: ",
                JsStage::Serialization => "Failed to serialize result: ",
            };
            let mut m = String::from_str(prefix);
            m.append(e.as_str());
            proof {
                assert(m@ == stage_prefix(stage) + e@);
            }
            Err(m)
        },
    }
}

/// Refuses a script that is empty or only white space.
pub fn check_code(code: &str) -> (r: Result<(), String>)
    ensures
        match r {
            Ok(()) => crate::text::trim(code@).len() > 0,
            Err(m) => crate::text::trim(code@).len() == 0 && m@ == "Code must not be empty"@,
        },
{
    let t = crate::text::trim_text(code);
    if t.as_str().is_empty() {
        Err(String::from_str("Code must not be empty"))
    } else {
        Ok(())
    }
}

/// The answer for a finished run.
pub fn js_output(run: Result<String, String>) -> (r: ToolOutput)
    ensures
        match run {
            Err(m) => crate::tool::answers(r, Err(m@)),
            Ok(t) => match crate::json::json_parse(t@) {
                Some(j) => crate::tool::answers(r, Ok(j)),
                None => crate::tool::answers_text(r, t@),
            },
        },
{
    match run {
        Err(m) => ToolOutput::error(m.as_str()),
        Ok(t) => match crate::json::parse_json_text(t.as_str()) {
            Some(v) => ToolOutput::json(v),
            None => ToolOutput::text(t.as_str()),
        },
    }
}

/// The built-in `js_eval` tool.
#[derive(Debug)]
pub struct JsEvalTool;

impl JsEvalTool {
    /// The tool.
    pub fn new() -> Self {
        JsEvalTool
    }
}

impl Default for JsEvalTool {
    fn default() -> Self {
        JsEvalTool::new()
    }
}

} // verus!
