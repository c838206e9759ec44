use motosan_agent_tool::tools::defs::fetch_url_def;
use motosan_agent_tool::tools::fetch_url::{check_scheme, effective_max_chars, page_text, truncate_content};
use motosan_agent_tool::tools::html::{extract_tag_content, floor_char_boundary, strip_html};
use motosan_agent_tool::tools::web::{
    check_resolved, check_size, check_status, is_private_ip, pin_address, ssrf_target, IpAddress, ResolvedAddr,
};

#[test]
fn fetch_url_should_have_correct_name_and_schema() {
    let def = fetch_url_def();
    assert_eq!(def.name, "fetch_url");
    let schema = &def.input_schema;
    assert_eq!(schema.get("type").unwrap().as_str(), Some("object"));
    let props = schema.get("properties").unwrap();
    assert!(props.get("url").unwrap().is_object());
    assert!(props.get("max_chars").unwrap().is_object());
    let required = schema.get("required").unwrap().as_array().unwrap();
    assert_eq!(required.len(), 1);
    assert_eq!(required[0].as_str(), Some("url"));
}

#[test]
fn should_reject_invalid_url_scheme() {
    let err = check_scheme("ftp://example.com").unwrap_err();
    assert!(err.contains("must start with http"));
    assert!(check_scheme("https://example.com").is_ok());
    assert!(check_scheme("http://example.com").is_ok());
}

#[test]
fn should_strip_html_tags() {
    let html = "<html><body><h1>Hello</h1><p>World</p></body></html>";
    let text = strip_html(html);
    assert!(text.contains("Hello"));
    assert!(text.contains("World"));
    assert!(!text.contains("<h1>"));
}

#[test]
fn should_strip_script_and_style() {
    let html = r#"<html><head><style>body{color:red}</style></head>
            <body><script>alert('hi')</script><p>Content here</p></body></html>"#;
    let text = strip_html(html);
    assert!(text.contains("Content here"));
    assert!(!text.contains("alert"));
    assert!(!text.contains("color:red"));
}

#[test]
fn should_extract_title() {
    let html = "<html><head><title>My Page Title</title></head><body></body></html>";
    let title = extract_tag_content(html, "title").unwrap();
    assert_eq!(title, "My Page Title");
}

#[test]
fn extract_tag_content_needs_both_tags() {
    assert_eq!(extract_tag_content("<title>Open", "title"), None);
    assert_eq!(extract_tag_content("no tags", "title"), None);
    assert_eq!(extract_tag_content("<title lang=\"en\">A</title>", "title").as_deref(), Some("A"));
}

#[test]
fn strip_html_is_case_insensitive_for_blocks() {
    let text = strip_html("<SCRIPT>x()</Script>keep<NAV>menu</nav> this");
    assert_eq!(text, "keep this");
}

#[test]
fn strip_html_keeps_unclosed_blocks() {
    let text = strip_html("<script>never closed <b>bold</b>");
    assert_eq!(text, "never closed bold");
}

#[test]
fn strip_html_decodes_entities_once_in_order() {
    assert_eq!(strip_html("a &amp; b &lt;c&gt; &quot;d&quot; &#39;e&apos; f&nbsp;g"), "a & b <c> \"d\" 'e' f g");
    assert_eq!(strip_html("&amp;lt;"), "<");
}

#[test]
fn strip_html_collapses_white_space_by_line() {
    assert_eq!(strip_html("  one   two \n\n\n three\t four \r\n"), "one two\nthree four");
    assert_eq!(strip_html(""), "");
}

#[test]
fn fetch_url_should_handle_utf8_truncation_safely() {
    let content = "Hello \u{20AC}\u{20AC}\u{20AC}\u{20AC}\u{20AC}\u{20AC}\u{20AC}\u{20AC}\u{20AC}\u{20AC} world";
    let max_chars: usize = 10;
    let safe_boundary = floor_char_boundary(content, max_chars);
    let truncated = &content[..safe_boundary];
    assert!(truncated.len() <= max_chars);
}

#[test]
fn floor_char_boundary_matches_char_starts() {
    let s = "ab\u{20AC}cd";
    assert_eq!(floor_char_boundary(s, 0), 0);
    assert_eq!(floor_char_boundary(s, 3), 2);
    assert_eq!(floor_char_boundary(s, 5), 5);
    assert_eq!(floor_char_boundary(s, 100), 6);
    assert_eq!(floor_char_boundary("", 3), 0);
}

#[test]
fn truncate_content_cuts_at_last_space() {
    assert_eq!(truncate_content("short", 10), "short");
    assert_eq!(truncate_content("hello wonderful world", 12), "hello...");
    assert_eq!(truncate_content("abcdefghij", 4), "abcd...");
    assert_eq!(truncate_content("\u{20AC}\u{20AC}", 4), "\u{20AC}...");
}

#[test]
fn page_text_puts_the_title_first() {
    let html = "<html><head><title>T &amp; U</title></head><body><p>Body text</p></body></html>";
    assert_eq!(page_text(html, 5000), "Title: T & U\n\nT & UBody text");
    assert_eq!(page_text("<p>x</p>", 5000), "x");
    assert_eq!(effective_max_chars(0), 5000);
    assert_eq!(effective_max_chars(7), 7);
}

#[test]
fn should_detect_private_ips() {
    assert!(is_private_ip(IpAddress::V4(127, 0, 0, 1)));
    assert!(is_private_ip(IpAddress::V4(10, 0, 0, 1)));
    assert!(is_private_ip(IpAddress::V4(172, 16, 0, 1)));
    assert!(is_private_ip(IpAddress::V4(192, 168, 1, 1)));
    assert!(is_private_ip(IpAddress::V4(169, 254, 1, 1)));
    assert!(is_private_ip(IpAddress::V6(0, 0, 0, 0, 0, 0, 0, 1)));
    assert!(!is_private_ip(IpAddress::V4(8, 8, 8, 8)));
    assert!(!is_private_ip(IpAddress::V4(1, 1, 1, 1)));
    assert!(!is_private_ip(IpAddress::V4(172, 32, 0, 1)));
    assert!(is_private_ip(IpAddress::V4(0, 0, 0, 0)));
}

#[test]
fn should_block_private_ip_localhost() {
    let (host, port) = ssrf_target("http://127.0.0.1/secret").unwrap();
    assert_eq!(host, "127.0.0.1");
    assert_eq!(port, 80);
    let addrs = vec![ResolvedAddr { ip: IpAddress::V4(127, 0, 0, 1), text: "127.0.0.1".to_string() }];
    let err = check_resolved(&host, &addrs).unwrap_err();
    assert!(err.contains("private/reserved IP"));
    assert_eq!(err, "Blocked: 127.0.0.1 resolves to private/reserved IP 127.0.0.1");
}

#[test]
fn ssrf_target_reads_host_and_port() {
    assert_eq!(ssrf_target("https://example.com/a").unwrap(), ("example.com".to_string(), 443));
    assert_eq!(ssrf_target("http://example.com:8080/").unwrap(), ("example.com".to_string(), 8080));
    assert!(ssrf_target("not a url").unwrap_err().starts_with("Invalid URL: "));
}

#[test]
fn check_resolved_needs_an_address_and_names_the_first_private_one() {
    assert_eq!(check_resolved("h", &vec![]).unwrap_err(), "Could not resolve host");
    let addrs = vec![
        ResolvedAddr { ip: IpAddress::V4(8, 8, 8, 8), text: "8.8.8.8".to_string() },
        ResolvedAddr { ip: IpAddress::V4(10, 1, 2, 3), text: "10.1.2.3".to_string() },
        ResolvedAddr { ip: IpAddress::V4(192, 168, 0, 1), text: "192.168.0.1".to_string() },
    ];
    assert_eq!(check_resolved("h", &addrs).unwrap_err(), "Blocked: h resolves to private/reserved IP 10.1.2.3");
    assert!(check_resolved("h", &addrs[..1].to_vec()).is_ok());
}

#[test]
fn check_size_refuses_large_bodies() {
    assert!(check_size("Response", 1048576, 1048576).is_ok());
    assert_eq!(
        check_size("Response", 1048577, 1048576).unwrap_err(),
        "Response too large: 1048577 bytes exceeds 1048576 byte limit"
    );
}

#[test]
fn requests_are_pinned_to_the_first_public_address() {
    let a = |ip: IpAddress, t: &str| ResolvedAddr { ip, text: t.to_string() };
    let public = vec![a(IpAddress::V4(93, 184, 216, 34), "93.184.216.34"), a(IpAddress::V4(1, 1, 1, 1), "1.1.1.1")];
    assert_eq!(pin_address("example.com", &public), Ok(0));
    let mixed = vec![a(IpAddress::V4(93, 184, 216, 34), "93.184.216.34"), a(IpAddress::V4(10, 0, 0, 1), "10.0.0.1")];
    assert_eq!(
        pin_address("example.com", &mixed).unwrap_err(),
        "Blocked: example.com resolves to private/reserved IP 10.0.0.1"
    );
    assert_eq!(pin_address("example.com", &vec![]).unwrap_err(), "Could not resolve host");
}

#[test]
fn only_success_statuses_pass() {
    assert!(check_status(200, "200 OK", "https://x").is_ok());
    assert!(check_status(299, "299", "https://x").is_ok());
    assert_eq!(check_status(301, "301 Moved Permanently", "https://x").unwrap_err(), "HTTP error 301 Moved Permanently when fetching https://x");
    assert!(check_status(500, "500 Internal Server Error", "https://x").is_err());
}

#[test]
fn strip_html_keeps_text_whose_lowercase_is_longer() {
    assert_eq!(strip_html("\u{130}<script>x</script>"), "\u{130}");
}
