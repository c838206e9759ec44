# motosan_agent_tool

The tool layer of an LLM agent: tool definitions with schema and argument
validation, tool outputs, the per-call context, and a set of built-in tools
(date arithmetic, page fetching, PDF reading, JavaScript and Python
evaluation, web search, currency conversion, browser control).

## Layout

- `src/` — the library, verified with Verus. Every function states its
  behaviour in `requires`/`ensures`; calls into outside crates (chrono,
  chrono-tz, reqwest's URL parser, serde_json, tokio-util) go through small
  trusted wrappers whose contracts say what the crate documents. The
  JavaScript engine and the PDF extractor run in `app/` (a script may never
  end, the extractor may panic); the library fixes what is handed to them
  and decides what their outcome answers.
  - `json.rs` — the JSON model (objects kept sorted by key).
  - `tool.rs` — `ToolDef` and its validation, `ToolOutput`, `ToolContext`.
  - `tools/` — each built-in tool's decisions: `datetime` (calendar
    arithmetic, offsets, formatting), `html` and `fetch_url` (readable page
    text, byte budgets), `web` (URL targets, private addresses, size
    limits), `read_pdf`, `js_eval`, `python_eval`, `web_search`,
    `currency`, `browser` (the `agent-browser` command protocol as a state
    machine) and `defs` (tool definitions).
- `tests/` — tests of the library on concrete values.
- `app/` — plain Rust around the library: the asynchronous `Tool` trait,
  HTTP, processes, files, the clock and environment, serde for the
  library's types, and the floating-point money arithmetic.
