//! The definitions of the built-in tools: name, description and input
//! schema of each.

use vstd::prelude::*;
use crate::json::{JsonNumber, JsonSpec, JsonValue, last_binding, lemma_last_binding_some, lemma_pairs_lookup, pairs_to_entries, specs_of};
use crate::tool::ToolDef;
use crate::tools::schema::{object_schema, object_schema_spec, prop_spec, prop_with_spec, property, property_with, str_specs, string_list};

verus! {

/// The properties of `datetime`.
pub open spec fn datetime_props() -> Seq<(Seq<char>, JsonSpec)> {
    seq![
        ("function"@, prop_with_spec("string"@, "The datetime function to call"@, "enum"@, JsonSpec::Array(str_specs(seq!["get_current_datetime"@, "date_add"@, "date_diff"@])))),
        ("timezone"@, prop_spec("string"@, "IANA timezone (e.g. \"Asia/Taipei\", \"US/Eastern\"). Defaults to UTC."@)),
        ("date"@, prop_spec("string"@, "Base date for date_add in YYYY-MM-DD format"@)),
        ("offset"@, prop_spec("string"@, "Offset for date_add: \"+1d\", \"-7d\", \"+2w\", \"+1M\", \"next monday\", etc."@)),
        ("from"@, prop_spec("string"@, "Start date for date_diff in YYYY-MM-DD format"@)),
        ("to"@, prop_spec("string"@, "End date for date_diff in YYYY-MM-DD format"@)),
    ]
}

/// The required arguments of `datetime`.
pub open spec fn datetime_required() -> Seq<Seq<char>> {
    seq!["function"@]
}

/// The input schema of `datetime`.
pub open spec fn datetime_schema() -> JsonSpec {
    object_schema_spec(datetime_props(), datetime_required())
}

impl crate::tools::datetime::DatetimeTool {
    /// The tool's definition.
    pub fn def(&self) -> (r: ToolDef)
        ensures
            r.name@ == "datetime"@,
            r.description@ == "Date and time utilities. Supports getting the current datetime, adding offsets to dates, and calculating differences between dates."@,
            r.input_schema@ == datetime_schema(),
            r.internal_name@ == "datetime"@,
    {
        let schema_function_list_items = vec!["get_current_datetime", "date_add", "date_diff"];
        proof {
            assert(Seq::new(schema_function_list_items@.len(), |i: int| schema_function_list_items@[i]@) =~= seq!["get_current_datetime"@, "date_add"@, "date_diff"@]);
        }
        let schema_function_list = string_list(schema_function_list_items);
        let schema_function = property_with("string", "The datetime function to call", "enum", schema_function_list);
        let schema_timezone = property("string", "IANA timezone (e.g. \"Asia/Taipei\", \"US/Eastern\"). Defaults to UTC.");
        let schema_date = property("string", "Base date for date_add in YYYY-MM-DD format");
        let schema_offset = property("string", "Offset for date_add: \"+1d\", \"-7d\", \"+2w\", \"+1M\", \"next monday\", etc.");
        let schema_from = property("string", "Start date for date_diff in YYYY-MM-DD format");
        let schema_to = property("string", "End date for date_diff in YYYY-MM-DD format");
        let ghost schema_expected = seq![("function"@, schema_function@), ("timezone"@, schema_timezone@), ("date"@, schema_date@), ("offset"@, schema_offset@), ("from"@, schema_from@), ("to"@, schema_to@)];
        let schema_props = vec![(String::from_str("function"), schema_function), (String::from_str("timezone"), schema_timezone), (String::from_str("date"), schema_date), (String::from_str("offset"), schema_offset), (String::from_str("from"), schema_from), (String::from_str("to"), schema_to)];
        proof {
            assert(specs_of(schema_props@) =~= schema_expected);
        }
        let schema_req: Vec<&str> = vec!["function"];
        proof {
            assert(Seq::new(schema_req@.len(), |i: int| schema_req@[i]@) =~= seq!["function"@]);
        }
        let schema = object_schema(schema_props, schema_req);
        ToolDef::new("datetime", "Date and time utilities. Supports getting the current datetime, adding offsets to dates, and calculating differences between dates.", schema)
    }
}

/// The properties of `fetch_url`.
pub open spec fn fetch_url_props() -> Seq<(Seq<char>, JsonSpec)> {
    seq![
        ("url"@, prop_spec("string"@, "The URL to fetch (must start with http:// or https://)"@)),
        ("max_chars"@, prop_with_spec("integer"@, "Maximum number of characters to return (default: 5000)"@, "default"@, JsonSpec::Number(JsonNumber::Int(5000)))),
    ]
}

/// The required arguments of `fetch_url`.
pub open spec fn fetch_url_required() -> Seq<Seq<char>> {
    seq!["url"@]
}

/// The input schema of `fetch_url`.
pub open spec fn fetch_url_schema() -> JsonSpec {
    object_schema_spec(fetch_url_props(), fetch_url_required())
}

/// The definition of the `fetch_url` tool.
pub fn fetch_url_def() -> (r: ToolDef)
    ensures
        r.name@ == "fetch_url"@,
        r.description@ == "Fetch a web page and extract its readable text content. Strips navigation, ads, scripts, and HTML tags to return clean text."@,
        r.input_schema@ == fetch_url_schema(),
        r.internal_name@ == "fetch_url"@,
{
    let schema_url = property("string", "The URL to fetch (must start with http:// or https://)");
    let schema_max_chars = property_with("integer", "Maximum number of characters to return (default: 5000)", "default", JsonValue::from_u64(5000));
    let ghost schema_expected = seq![("url"@, schema_url@), ("max_chars"@, schema_max_chars@)];
    let schema_props = vec![(String::from_str("url"), schema_url), (String::from_str("max_chars"), schema_max_chars)];
    proof {
        assert(specs_of(schema_props@) =~= schema_expected);
    }
    let schema_req: Vec<&str> = vec!["url"];
    proof {
        assert(Seq::new(schema_req@.len(), |i: int| schema_req@[i]@) =~= seq!["url"@]);
    }
    let schema = object_schema(schema_props, schema_req);
    ToolDef::new("fetch_url", "Fetch a web page and extract its readable text content. Strips navigation, ads, scripts, and HTML tags to return clean text.", schema)
}

/// The properties of `read_pdf`.
pub open spec fn read_pdf_props() -> Seq<(Seq<char>, JsonSpec)> {
    seq![
        ("source"@, prop_spec("string"@, "Local file path or HTTP/HTTPS URL of the PDF to read"@)),
        ("max_chars"@, prop_with_spec("integer"@, "Maximum number of characters to return (default: 50000)"@, "default"@, JsonSpec::Number(JsonNumber::Int(50000)))),
    ]
}

/// The required arguments of `read_pdf`.
pub open spec fn read_pdf_required() -> Seq<Seq<char>> {
    seq!["source"@]
}

/// The input schema of `read_pdf`.
pub open spec fn read_pdf_schema() -> JsonSpec {
    object_schema_spec(read_pdf_props(), read_pdf_required())
}

impl crate::tools::read_pdf::ReadPdfTool {
    /// The tool's definition.
    pub fn def(&self) -> (r: ToolDef)
        ensures
            r.name@ == "read_pdf"@,
            r.description@ == "Extract text content from a PDF file. Accepts a local file path or an HTTP/HTTPS URL. Returns the extracted text, truncated to max_chars (default 50000) if the document is large."@,
            r.input_schema@ == read_pdf_schema(),
            r.internal_name@ == "read_pdf"@,
    {
        let schema_source = property("string", "Local file path or HTTP/HTTPS URL of the PDF to read");
        let schema_max_chars = property_with("integer", "Maximum number of characters to return (default: 50000)", "default", JsonValue::from_u64(50000));
        let ghost schema_expected = seq![("source"@, schema_source@), ("max_chars"@, schema_max_chars@)];
        let schema_props = vec![(String::from_str("source"), schema_source), (String::from_str("max_chars"), schema_max_chars)];
        proof {
            assert(specs_of(schema_props@) =~= schema_expected);
        }
        let schema_req: Vec<&str> = vec!["source"];
        proof {
            assert(Seq::new(schema_req@.len(), |i: int| schema_req@[i]@) =~= seq!["source"@]);
        }
        let schema = object_schema(schema_props, schema_req);
        ToolDef::new("read_pdf", "Extract text content from a PDF file. Accepts a local file path or an HTTP/HTTPS URL. Returns the extracted text, truncated to max_chars (default 50000) if the document is large.", schema)
    }
}

/// The properties of `python_eval`.
pub open spec fn python_eval_props() -> Seq<(Seq<char>, JsonSpec)> {
    seq![
        ("code"@, prop_spec("string"@, "The Python source code to execute"@)),
        ("timeout_secs"@, prop_with_spec("integer"@, "Optional timeout in seconds (default: 30)"@, "default"@, JsonSpec::Number(JsonNumber::Int(30)))),
    ]
}

/// The required arguments of `python_eval`.
pub open spec fn python_eval_required() -> Seq<Seq<char>> {
    seq!["code"@]
}

/// The input schema of `python_eval`.
pub open spec fn python_eval_schema() -> JsonSpec {
    object_schema_spec(python_eval_props(), python_eval_required())
}

impl crate::tools::python_eval::PythonEvalTool {
    /// The tool's definition.
    pub fn def(&self) -> (r: ToolDef)
        ensures
            r.name@ == "python_eval"@,
            r.description@ == "Execute Python code for data analysis. The code is run via python3 and stdout/stderr are captured. A 30-second timeout is enforced by default."@,
            r.input_schema@ == python_eval_schema(),
            r.internal_name@ == "python_eval"@,
    {
        let schema_code = property("string", "The Python source code to execute");
        let schema_timeout_secs = property_with("integer", "Optional timeout in seconds (default: 30)", "default", JsonValue::from_u64(30));
        let ghost schema_expected = seq![("code"@, schema_code@), ("timeout_secs"@, schema_timeout_secs@)];
        let schema_props = vec![(String::from_str("code"), schema_code), (String::from_str("timeout_secs"), schema_timeout_secs)];
        proof {
            assert(specs_of(schema_props@) =~= schema_expected);
        }
        let schema_req: Vec<&str> = vec!["code"];
        proof {
            assert(Seq::new(schema_req@.len(), |i: int| schema_req@[i]@) =~= seq!["code"@]);
        }
        let schema = object_schema(schema_props, schema_req);
        ToolDef::new("python_eval", "Execute Python code for data analysis. The code is run via python3 and stdout/stderr are captured. A 30-second timeout is enforced by default.", schema)
    }
}

/// The properties of `js_eval`.
pub open spec fn js_eval_props() -> Seq<(Seq<char>, JsonSpec)> {
    seq![
        ("code"@, prop_spec("string"@, "The JavaScript code to execute. The result of the last expression is returned."@)),
    ]
}

/// The required arguments of `js_eval`.
pub open spec fn js_eval_required() -> Seq<Seq<char>> {
    seq!["code"@]
}

/// The input schema of `js_eval`.
pub open spec fn js_eval_schema() -> JsonSpec {
    object_schema_spec(js_eval_props(), js_eval_required())
}

impl crate::tools::js_eval::JsEvalTool {
    /// The tool's definition.
    pub fn def(&self) -> (r: ToolDef)
        ensures
            r.name@ == "js_eval"@,
            r.description@ == "Execute JavaScript code in a sandboxed environment. No filesystem or network access is available. Built-in helpers: csv(), sum(), avg(), median(), stdev(), percentile(), groupBy(), sortBy(), minBy(), maxBy(). Returns the result of the last expression as JSON."@,
            r.input_schema@ == js_eval_schema(),
            r.internal_name@ == "js_eval"@,
    {
        let schema_code = property("string", "The JavaScript code to execute. The result of the last expression is returned.");
        let ghost schema_expected = seq![("code"@, schema_code@)];
        let schema_props = vec![(String::from_str("code"), schema_code)];
        proof {
            assert(specs_of(schema_props@) =~= schema_expected);
        }
        let schema_req: Vec<&str> = vec!["code"];
        proof {
            assert(Seq::new(schema_req@.len(), |i: int| schema_req@[i]@) =~= seq!["code"@]);
        }
        let schema = object_schema(schema_props, schema_req);
        ToolDef::new("js_eval", "Execute JavaScript code in a sandboxed environment. No filesystem or network access is available. Built-in helpers: csv(), sum(), avg(), median(), stdev(), percentile(), groupBy(), sortBy(), minBy(), maxBy(). Returns the result of the last expression as JSON.", schema)
    }
}

/// The properties of `web_search`.
pub open spec fn web_search_props() -> Seq<(Seq<char>, JsonSpec)> {
    seq![
        ("query"@, prop_spec("string"@, "The search query"@)),
        ("max_results"@, prop_with_spec("integer"@, "Number of results to return (default: 5)"@, "default"@, JsonSpec::Number(JsonNumber::Int(5)))),
    ]
}

/// The required arguments of `web_search`.
pub open spec fn web_search_required() -> Seq<Seq<char>> {
    seq!["query"@]
}

/// The input schema of `web_search`.
pub open spec fn web_search_schema() -> JsonSpec {
    object_schema_spec(web_search_props(), web_search_required())
}

/// The definition of the `web_search` tool.
pub fn web_search_def() -> (r: ToolDef)
    ensures
        r.name@ == "web_search"@,
        r.description@ == "Search the web using the Brave Search API. Returns a list of results with title, URL, and description."@,
        r.input_schema@ == web_search_schema(),
        r.internal_name@ == "web_search"@,
{
    let schema_query = property("string", "The search query");
    let schema_max_results = property_with("integer", "Number of results to return (default: 5)", "default", JsonValue::from_u64(5));
    let ghost schema_expected = seq![("query"@, schema_query@), ("max_results"@, schema_max_results@)];
    let schema_props = vec![(String::from_str("query"), schema_query), (String::from_str("max_results"), schema_max_results)];
    proof {
        assert(specs_of(schema_props@) =~= schema_expected);
    }
    let schema_req: Vec<&str> = vec!["query"];
    proof {
        assert(Seq::new(schema_req@.len(), |i: int| schema_req@[i]@) =~= seq!["query"@]);
    }
    let schema = object_schema(schema_props, schema_req);
    ToolDef::new("web_search", "Search the web using the Brave Search API. Returns a list of results with title, URL, and description.", schema)
}

/// The properties of `browser_screenshot`.
pub open spec fn browser_screenshot_props() -> Seq<(Seq<char>, JsonSpec)> {
    seq![
        ("path"@, prop_spec("string"@, "File path to save the screenshot (optional, defaults to temp file)"@)),
    ]
}

/// The required arguments of `browser_screenshot`.
pub open spec fn browser_screenshot_required() -> Seq<Seq<char>> {
    Seq::empty()
}

/// The input schema of `browser_screenshot`.
pub open spec fn browser_screenshot_schema() -> JsonSpec {
    object_schema_spec(browser_screenshot_props(), browser_screenshot_required())
}

impl crate::tools::browser::BrowserScreenshotTool {
    /// The tool's definition.
    pub fn def(&self) -> (r: ToolDef)
        ensures
            r.name@ == "browser_screenshot"@,
            r.description@ == "Take a screenshot of the current browser page. Optionally specify a file path to save it to; otherwise a temporary file is used."@,
            r.input_schema@ == browser_screenshot_schema(),
            r.internal_name@ == "browser_screenshot"@,
    {
        let schema_path = property("string", "File path to save the screenshot (optional, defaults to temp file)");
        let ghost schema_expected = seq![("path"@, schema_path@)];
        let schema_props = vec![(String::from_str("path"), schema_path)];
        proof {
            assert(specs_of(schema_props@) =~= schema_expected);
        }
        let schema_req: Vec<&str> = vec![];
        proof {
            assert(Seq::new(schema_req@.len(), |i: int| schema_req@[i]@) =~= Seq::<Seq<char>>::empty());
        }
        let schema = object_schema(schema_props, schema_req);
        ToolDef::new("browser_screenshot", "Take a screenshot of the current browser page. Optionally specify a file path to save it to; otherwise a temporary file is used.", schema)
    }
}

/// The properties of `browser_tab`.
pub open spec fn browser_tab_props() -> Seq<(Seq<char>, JsonSpec)> {
    seq![
        ("action"@, prop_with_spec("string"@, "Tab action: 'new' opens a new tab, 'list' shows all tabs, 'switch' activates a tab by index, 'close' closes current or specified tab"@, "enum"@, JsonSpec::Array(str_specs(seq!["new"@, "list"@, "switch"@, "close"@])))),
        ("index"@, prop_spec("integer"@, "Tab index (for 'switch' and 'close' actions)"@)),
        ("url"@, prop_spec("string"@, "URL to open in the new tab (optional, only for 'new' action)"@)),
    ]
}

/// The required arguments of `browser_tab`.
pub open spec fn browser_tab_required() -> Seq<Seq<char>> {
    seq!["action"@]
}

/// The input schema of `browser_tab`.
pub open spec fn browser_tab_schema() -> JsonSpec {
    object_schema_spec(browser_tab_props(), browser_tab_required())
}

impl crate::tools::browser::BrowserTabTool {
    /// The tool's definition.
    pub fn def(&self) -> (r: ToolDef)
        ensures
            r.name@ == "browser_tab"@,
            r.description@ == "Manage browser tabs: open new tab, switch between tabs, list tabs, close tab."@,
            r.input_schema@ == browser_tab_schema(),
            r.internal_name@ == "browser_tab"@,
    {
        let schema_action_list_items = vec!["new", "list", "switch", "close"];
        proof {
            assert(Seq::new(schema_action_list_items@.len(), |i: int| schema_action_list_items@[i]@) =~= seq!["new"@, "list"@, "switch"@, "close"@]);
        }
        let schema_action_list = string_list(schema_action_list_items);
        let schema_action = property_with("string", "Tab action: 'new' opens a new tab, 'list' shows all tabs, 'switch' activates a tab by index, 'close' closes current or specified tab", "enum", schema_action_list);
        let schema_index = property("integer", "Tab index (for 'switch' and 'close' actions)");
        let schema_url = property("string", "URL to open in the new tab (optional, only for 'new' action)");
        let ghost schema_expected = seq![("action"@, schema_action@), ("index"@, schema_index@), ("url"@, schema_url@)];
        let schema_props = vec![(String::from_str("action"), schema_action), (String::from_str("index"), schema_index), (String::from_str("url"), schema_url)];
        proof {
            assert(specs_of(schema_props@) =~= schema_expected);
        }
        let schema_req: Vec<&str> = vec!["action"];
        proof {
            assert(Seq::new(schema_req@.len(), |i: int| schema_req@[i]@) =~= seq!["action"@]);
        }
        let schema = object_schema(schema_props, schema_req);
        ToolDef::new("browser_tab", "Manage browser tabs: open new tab, switch between tabs, list tabs, close tab.", schema)
    }
}

/// The properties of `currency_convert`.
pub open spec fn currency_convert_props() -> Seq<(Seq<char>, JsonSpec)> {
    seq![
        ("from"@, prop_spec("string"@, "Source currency code (e.g. \"USD\", \"AUD\")"@)),
        ("to"@, prop_spec("string"@, "Target currency code(s), comma-separated for batch (e.g. \"TWD\" or \"TWD,USD,JPY\")"@)),
        ("amount"@, prop_with_spec("number"@, "Amount to convert (default: 1.0)"@, "default"@, JsonSpec::Number(JsonNumber::Float(0x3FF0000000000000)))),
    ]
}

/// The required arguments of `currency_convert`.
pub open spec fn currency_convert_required() -> Seq<Seq<char>> {
    seq!["from"@, "to"@]
}

/// The input schema of `currency_convert`.
pub open spec fn currency_convert_schema() -> JsonSpec {
    object_schema_spec(currency_convert_props(), currency_convert_required())
}

/// The definition of the `currency_convert` tool.
pub fn currency_convert_def() -> (r: ToolDef)
    ensures
        r.name@ == "currency_convert"@,
        r.description@ == "Convert between currencies using live exchange rates. Supports batch conversion by providing comma-separated target currencies."@,
        r.input_schema@ == currency_convert_schema(),
        r.internal_name@ == "currency_convert"@,
{
    let schema_from = property("string", "Source currency code (e.g. \"USD\", \"AUD\")");
    let schema_to = property("string", "Target currency code(s), comma-separated for batch (e.g. \"TWD\" or \"TWD,USD,JPY\")");
    let schema_amount = property_with("number", "Amount to convert (default: 1.0)", "default", JsonValue::from_f64_bits(0x3FF0000000000000));
    let ghost schema_expected = seq![("from"@, schema_from@), ("to"@, schema_to@), ("amount"@, schema_amount@)];
    let schema_props = vec![(String::from_str("from"), schema_from), (String::from_str("to"), schema_to), (String::from_str("amount"), schema_amount)];
    proof {
        assert(specs_of(schema_props@) =~= schema_expected);
    }
    let schema_req: Vec<&str> = vec!["from", "to"];
    proof {
        assert(Seq::new(schema_req@.len(), |i: int| schema_req@[i]@) =~= seq!["from"@, "to"@]);
    }
    let schema = object_schema(schema_props, schema_req);
    ToolDef::new("currency_convert", "Convert between currencies using live exchange rates. Supports batch conversion by providing comma-separated target currencies.", schema)
}

/// The properties of `cost_calculator`.
pub open spec fn cost_calculator_props() -> Seq<(Seq<char>, JsonSpec)> {
    seq![
        ("items"@, prop_with_spec("array"@, "List of cost items to calculate"@, "items"@, object_schema_spec(seq![
        ("category"@, prop_spec("string"@, "Cost category (e.g. \"tuition\", \"housing\", \"food\", \"transport\")"@)),
        ("description"@, prop_spec("string"@, "Description of the cost item"@)),
        ("amount"@, prop_spec("number"@, "Cost amount per unit"@)),
        ("currency"@, prop_spec("string"@, "Currency code (e.g. \"USD\", \"AUD\", \"GBP\")"@)),
        ("quantity"@, prop_with_spec("number"@, "Number of units (default: 1)"@, "default"@, JsonSpec::Number(JsonNumber::Int(1)))),
        ("unit"@, prop_spec("string"@, "Unit label (e.g. \"month\", \"semester\", \"year\")"@)),
    ], seq!["category"@, "description"@, "amount"@, "currency"@]))),
        ("target_currency"@, prop_with_spec("string"@, "Target currency for totals (default: \"TWD\")"@, "default"@, JsonSpec::Str("TWD"@))),
    ]
}

/// The required arguments of `cost_calculator`.
pub open spec fn cost_calculator_required() -> Seq<Seq<char>> {
    seq!["items"@]
}

/// The input schema of `cost_calculator`.
pub open spec fn cost_calculator_schema() -> JsonSpec {
    object_schema_spec(cost_calculator_props(), cost_calculator_required())
}

/// The definition of the `cost_calculator` tool.
pub fn cost_calculator_def() -> (r: ToolDef)
    ensures
        r.name@ == "cost_calculator"@,
        r.description@ == "Calculate study abroad cost breakdowns with automatic currency conversion. Groups costs by category and provides subtotals and a grand total in the target currency."@,
        r.input_schema@ == cost_calculator_schema(),
        r.internal_name@ == "cost_calculator"@,
{
    let schema_s0_category = property("string", "Cost category (e.g. \"tuition\", \"housing\", \"food\", \"transport\")");
    let schema_s0_description = property("string", "Description of the cost item");
    let schema_s0_amount = property("number", "Cost amount per unit");
    let schema_s0_currency = property("string", "Currency code (e.g. \"USD\", \"AUD\", \"GBP\")");
    let schema_s0_quantity = property_with("number", "Number of units (default: 1)", "default", JsonValue::from_u64(1));
    let schema_s0_unit = property("string", "Unit label (e.g. \"month\", \"semester\", \"year\")");
    let ghost schema_s0_expected = seq![("category"@, schema_s0_category@), ("description"@, schema_s0_description@), ("amount"@, schema_s0_amount@), ("currency"@, schema_s0_currency@), ("quantity"@, schema_s0_quantity@), ("unit"@, schema_s0_unit@)];
    let schema_s0_props = vec![(String::from_str("category"), schema_s0_category), (String::from_str("description"), schema_s0_description), (String::from_str("amount"), schema_s0_amount), (String::from_str("currency"), schema_s0_currency), (String::from_str("quantity"), schema_s0_quantity), (String::from_str("unit"), schema_s0_unit)];
    proof {
        assert(specs_of(schema_s0_props@) =~= schema_s0_expected);
    }
    let schema_s0_req: Vec<&str> = vec!["category", "description", "amount", "currency"];
    proof {
        assert(Seq::new(schema_s0_req@.len(), |i: int| schema_s0_req@[i]@) =~= seq!["category"@, "description"@, "amount"@, "currency"@]);
    }
    let schema_s0 = object_schema(schema_s0_props, schema_s0_req);
    let schema_items = property_with("array", "List of cost items to calculate", "items", schema_s0);
    let schema_target_currency = property_with("string", "Target currency for totals (default: \"TWD\")", "default", JsonValue::from_str("TWD"));
    let ghost schema_expected = seq![("items"@, schema_items@), ("target_currency"@, schema_target_currency@)];
    let schema_props = vec![(String::from_str("items"), schema_items), (String::from_str("target_currency"), schema_target_currency)];
    proof {
        assert(specs_of(schema_props@) =~= schema_expected);
    }
    let schema_req: Vec<&str> = vec!["items"];
    proof {
        assert(Seq::new(schema_req@.len(), |i: int| schema_req@[i]@) =~= seq!["items"@]);
    }
    let schema = object_schema(schema_props, schema_req);
    ToolDef::new("cost_calculator", "Calculate study abroad cost breakdowns with automatic currency conversion. Groups costs by category and provides subtotals and a grand total in the target currency.", schema)
}

/// Every built-in tool's definition passes registration-time validation:
/// its name is LLM-wire-safe and its input schema is well formed.
pub proof fn lemma_builtin_defs_valid()
    ensures
        crate::tool::schema_check(datetime_schema()) is Ok,
        crate::tool::is_wire_safe("datetime"@),
        crate::tool::schema_check(fetch_url_schema()) is Ok,
        crate::tool::is_wire_safe("fetch_url"@),
        crate::tool::schema_check(read_pdf_schema()) is Ok,
        crate::tool::is_wire_safe("read_pdf"@),
        crate::tool::schema_check(python_eval_schema()) is Ok,
        crate::tool::is_wire_safe("python_eval"@),
        crate::tool::schema_check(js_eval_schema()) is Ok,
        crate::tool::is_wire_safe("js_eval"@),
        crate::tool::schema_check(web_search_schema()) is Ok,
        crate::tool::is_wire_safe("web_search"@),
        crate::tool::schema_check(browser_screenshot_schema()) is Ok,
        crate::tool::is_wire_safe("browser_screenshot"@),
        crate::tool::schema_check(browser_tab_schema()) is Ok,
        crate::tool::is_wire_safe("browser_tab"@),
        crate::tool::schema_check(currency_convert_schema()) is Ok,
        crate::tool::is_wire_safe("currency_convert"@),
        crate::tool::schema_check(cost_calculator_schema()) is Ok,
        crate::tool::is_wire_safe("cost_calculator"@),
{
    assert(required_declared(datetime_props(), datetime_required())) by {
        assert forall|j: int| 0 <= j < datetime_required().len() implies exists|i: int| 0 <= i < datetime_props().len()
            && datetime_props()[i].0 == #[trigger] datetime_required()[j] by {
            if j == 0 {
                assert(datetime_props()[0].0 == datetime_required()[0]);
            }
        }
    }
    lemma_object_schema_valid(datetime_props(), datetime_required());
    reveal_strlit("datetime");
    assert(required_declared(fetch_url_props(), fetch_url_required())) by {
        assert forall|j: int| 0 <= j < fetch_url_required().len() implies exists|i: int| 0 <= i < fetch_url_props().len()
            && fetch_url_props()[i].0 == #[trigger] fetch_url_required()[j] by {
            if j == 0 {
                assert(fetch_url_props()[0].0 == fetch_url_required()[0]);
            }
        }
    }
    lemma_object_schema_valid(fetch_url_props(), fetch_url_required());
    reveal_strlit("fetch_url");
    assert(required_declared(read_pdf_props(), read_pdf_required())) by {
        assert forall|j: int| 0 <= j < read_pdf_required().len() implies exists|i: int| 0 <= i < read_pdf_props().len()
            && read_pdf_props()[i].0 == #[trigger] read_pdf_required()[j] by {
            if j == 0 {
                assert(read_pdf_props()[0].0 == read_pdf_required()[0]);
            }
        }
    }
    lemma_object_schema_valid(read_pdf_props(), read_pdf_required());
    reveal_strlit("read_pdf");
    assert(required_declared(python_eval_props(), python_eval_required())) by {
        assert forall|j: int| 0 <= j < python_eval_required().len() implies exists|i: int| 0 <= i < python_eval_props().len()
            && python_eval_props()[i].0 == #[trigger] python_eval_required()[j] by {
            if j == 0 {
                assert(python_eval_props()[0].0 == python_eval_required()[0]);
            }
        }
    }
    lemma_object_schema_valid(python_eval_props(), python_eval_required());
    reveal_strlit("python_eval");
    assert(required_declared(js_eval_props(), js_eval_required())) by {
        assert forall|j: int| 0 <= j < js_eval_required().len() implies exists|i: int| 0 <= i < js_eval_props().len()
            && js_eval_props()[i].0 == #[trigger] js_eval_required()[j] by {
            if j == 0 {
                assert(js_eval_props()[0].0 == js_eval_required()[0]);
            }
        }
    }
    lemma_object_schema_valid(js_eval_props(), js_eval_required());
    reveal_strlit("js_eval");
    assert(required_declared(web_search_props(), web_search_required())) by {
        assert forall|j: int| 0 <= j < web_search_required().len() implies exists|i: int| 0 <= i < web_search_props().len()
            && web_search_props()[i].0 == #[trigger] web_search_required()[j] by {
            if j == 0 {
                assert(web_search_props()[0].0 == web_search_required()[0]);
            }
        }
    }
    lemma_object_schema_valid(web_search_props(), web_search_required());
    reveal_strlit("web_search");
    assert(required_declared(browser_screenshot_props(), browser_screenshot_required())) by {
        assert forall|j: int| 0 <= j < browser_screenshot_required().len() implies exists|i: int| 0 <= i < browser_screenshot_props().len()
            && browser_screenshot_props()[i].0 == #[trigger] browser_screenshot_required()[j] by {
        }
    }
    lemma_object_schema_valid(browser_screenshot_props(), browser_screenshot_required());
    reveal_strlit("browser_screenshot");
    assert(required_declared(browser_tab_props(), browser_tab_required())) by {
        assert forall|j: int| 0 <= j < browser_tab_required().len() implies exists|i: int| 0 <= i < browser_tab_props().len()
            && browser_tab_props()[i].0 == #[trigger] browser_tab_required()[j] by {
            if j == 0 {
                assert(browser_tab_props()[0].0 == browser_tab_required()[0]);
            }
        }
    }
    lemma_object_schema_valid(browser_tab_props(), browser_tab_required());
    reveal_strlit("browser_tab");
    assert(required_declared(currency_convert_props(), currency_convert_required())) by {
        assert forall|j: int| 0 <= j < currency_convert_required().len() implies exists|i: int| 0 <= i < currency_convert_props().len()
            && currency_convert_props()[i].0 == #[trigger] currency_convert_required()[j] by {
            if j == 0 {
                assert(currency_convert_props()[0].0 == currency_convert_required()[0]);
            }
            if j == 1 {
                assert(currency_convert_props()[1].0 == currency_convert_required()[1]);
            }
        }
    }
    lemma_object_schema_valid(currency_convert_props(), currency_convert_required());
    reveal_strlit("currency_convert");
    assert(required_declared(cost_calculator_props(), cost_calculator_required())) by {
        assert forall|j: int| 0 <= j < cost_calculator_required().len() implies exists|i: int| 0 <= i < cost_calculator_props().len()
            && cost_calculator_props()[i].0 == #[trigger] cost_calculator_required()[j] by {
            if j == 0 {
                assert(cost_calculator_props()[0].0 == cost_calculator_required()[0]);
            }
        }
    }
    lemma_object_schema_valid(cost_calculator_props(), cost_calculator_required());
    reveal_strlit("cost_calculator");
}

} // verus!
verus! {

/// Whether every required name is the key of some property.
pub open spec fn required_declared(props: Seq<(Seq<char>, JsonSpec)>, required: Seq<Seq<char>>) -> bool {
    forall|j: int| 0 <= j < required.len() ==> exists|i: int| 0 <= i < props.len() && props[i].0 == #[trigger] required[j]
}

proof fn lemma_required_check(props: Seq<(Seq<char>, JsonSpec)>, required: Seq<Seq<char>>)
    requires
        required_declared(props, required),
    ensures
        crate::tool::required_check(str_specs(required), pairs_to_entries(props)) is Ok,
    decreases required.len(),
{
    if required.len() > 0 {
        let r0 = required[0];
        let i = choose|i: int| 0 <= i < props.len() && props[i].0 == required[0];
        lemma_last_binding_some(props, r0, i);
        lemma_pairs_lookup(props, r0);
        crate::json::lemma_lookup_some(pairs_to_entries(props), r0);
        assert(str_specs(required)[0] == JsonSpec::Str(r0));
        assert(str_specs(required).drop_first() =~= str_specs(required.drop_first()));
        assert forall|j: int| 0 <= j < required.drop_first().len() implies exists|i: int| 0 <= i < props.len()
            && props[i].0 == #[trigger] required.drop_first()[j] by {
            assert(required.drop_first()[j] == required[j + 1]);
        }
        lemma_required_check(props, required.drop_first());
    }
}

/// An object schema whose required names are all declared properties
/// passes the schema check.
pub proof fn lemma_object_schema_valid(props: Seq<(Seq<char>, JsonSpec)>, required: Seq<Seq<char>>)
    requires
        required_declared(props, required),
    ensures
        crate::tool::schema_check(object_schema_spec(props, required)) is Ok,
{
    reveal_strlit("type");
    reveal_strlit("properties");
    reveal_strlit("required");
    let top = seq![
        ("type"@, JsonSpec::Str("object"@)),
        ("properties"@, JsonSpec::Object(pairs_to_entries(props))),
        ("required"@, JsonSpec::Array(str_specs(required))),
    ];
    lemma_pairs_lookup(top, "type"@);
    lemma_pairs_lookup(top, "properties"@);
    lemma_pairs_lookup(top, "required"@);
    assert(top.drop_last().drop_last() =~= seq![("type"@, JsonSpec::Str("object"@))]);
    assert(top.drop_last() =~= seq![("type"@, JsonSpec::Str("object"@)), ("properties"@, JsonSpec::Object(pairs_to_entries(props)))]);
    assert("required"@ != "type"@ && "properties"@ != "type"@ && "required"@ != "properties"@) by {
        assert("required"@.len() != "type"@.len());
        assert("properties"@.len() != "type"@.len());
        assert("required"@.len() != "properties"@.len());
    }
    reveal_with_fuel(last_binding, 4);
    assert(last_binding(top, "type"@) == Some(JsonSpec::Str("object"@)));
    assert(last_binding(top, "properties"@) == Some(JsonSpec::Object(pairs_to_entries(props))));
    assert(last_binding(top, "required"@) == Some(JsonSpec::Array(str_specs(required))));
    lemma_required_check(props, required);
}

} // verus!
