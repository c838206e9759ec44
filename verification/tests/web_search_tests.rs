use motosan_agent_tool::json::JsonValue;
use motosan_agent_tool::tool::ToolContext;
use motosan_agent_tool::tools::defs::web_search_def;
use motosan_agent_tool::tools::web_search::{
    choose_provider, requested_provider, search_endpoint, SearchProvider,
    citation_of, default_max_results, format_hits, missing_key_error, resolve_api_key, search_output, SearchHit,
};

fn hit(title: &str, url: &str, description: Option<&str>) -> SearchHit {
    SearchHit { title: title.to_string(), url: url.to_string(), description: description.map(|d| d.to_string()) }
}

#[test]
fn web_search_should_have_correct_name_and_schema() {
    let def = web_search_def();
    assert_eq!(def.name, "web_search");
    let schema = &def.input_schema;
    assert_eq!(schema.get("type").unwrap().as_str(), Some("object"));
    let props = schema.get("properties").unwrap();
    assert!(props.get("query").unwrap().is_object());
    assert!(props.get("max_results").unwrap().is_object());
    let required = schema.get("required").unwrap().as_array().unwrap();
    assert_eq!(required[0].as_str(), Some("query"));
    assert_eq!(default_max_results(), 5);
}

#[test]
fn should_fail_without_api_key() {
    let ctx = ToolContext::new("test-agent", "test");
    assert!(resolve_api_key(&ctx, None).is_none());
    let r = missing_key_error();
    assert!(r.is_error);
    assert!(r.as_text().unwrap().contains("API key"));
}

#[test]
fn api_key_prefers_the_context() {
    let ctx = ToolContext::new("a", "p").with("brave_api_key", JsonValue::from_str("from-ctx"));
    assert_eq!(resolve_api_key(&ctx, Some("from-env".to_string())).as_deref(), Some("from-ctx"));
    let bare = ToolContext::new("a", "p");
    assert_eq!(resolve_api_key(&bare, Some("from-env".to_string())).as_deref(), Some("from-env"));
}

#[test]
fn hits_are_numbered_and_trimmed() {
    let hits = vec![hit("Rust", "https://rust-lang.org", Some("A language")), hit("Docs", "https://docs.rs", None)];
    assert_eq!(
        format_hits(&hits),
        "Found 2 results:\n\n1. Rust\n   https://rust-lang.org\n   A language\n\n2. Docs\n   https://docs.rs"
    );
    assert_eq!(citation_of(&hits), "https://rust-lang.org, https://docs.rs");
    assert_eq!(format_hits(&vec![]), "Found 0 results:");
}

#[test]
fn search_output_cites_urls_when_there_are_any() {
    let out = search_output(&vec![hit("A", "https://a", Some("d"))], 12);
    assert_eq!(out.citation.as_deref(), Some("https://a"));
    assert_eq!(out.duration_ms, Some(12));
    let none = search_output(&vec![], 3);
    assert!(none.citation.is_none());
    assert_eq!(none.as_text(), Some("Found 0 results:"));
}

#[test]
fn tavily_is_preferred_and_providers_can_be_forced() {
    let ctx = ToolContext::new("a", "p");
    let t = Some("tk".to_string());
    let b = Some("bk".to_string());
    let (p, k) = choose_provider(&ctx, None, t.clone(), None).unwrap();
    assert_eq!((p, k.as_str()), (SearchProvider::Tavily, "tk"));
    let (p, k) = choose_provider(&ctx, None, t.clone(), b.clone()).unwrap();
    assert_eq!((p, k.as_str()), (SearchProvider::Tavily, "tk"));
    let (p, k) = choose_provider(&ctx, Some("BRAVE".to_string()), t.clone(), b.clone()).unwrap();
    assert_eq!((p, k.as_str()), (SearchProvider::Brave, "bk"));
    let (p, _) = choose_provider(&ctx, Some("Tavily".to_string()), t.clone(), b.clone()).unwrap();
    assert_eq!(p, SearchProvider::Tavily);
    let (p, k) = choose_provider(&ctx, None, None, b.clone()).unwrap();
    assert_eq!((p, k.as_str()), (SearchProvider::Brave, "bk"));
    assert!(choose_provider(&ctx, Some("tavily".to_string()), None, b.clone()).unwrap_err().starts_with("Tavily API key is not configured"));
    assert!(choose_provider(&ctx, Some("brave".to_string()), t.clone(), None).unwrap_err().starts_with("Brave Search API key is not configured"));
    assert!(choose_provider(&ctx, None, None, None).unwrap_err().contains("API key is not configured"));
    assert_eq!(requested_provider(&Some("bing".to_string())), None);
    assert_eq!(search_endpoint(SearchProvider::Tavily), "https://api.tavily.com/search");
}
