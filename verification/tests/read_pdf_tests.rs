
use motosan_agent_tool::tools::read_pdf::{
    check_pdf_response, check_pdf_size, effective_max_chars, extract_text_from_pdf, pdf_output, resolve_source, truncate_text,
    ReadPdfTool,
};

#[test]
fn read_pdf_should_have_correct_name_and_schema() {
    let def = ReadPdfTool::new().def();
    assert_eq!(def.name, "read_pdf");
    let schema = &def.input_schema;
    assert_eq!(schema.get("type").unwrap().as_str(), Some("object"));
    let props = schema.get("properties").unwrap();
    assert!(props.get("source").unwrap().is_object());
    assert!(props.get("max_chars").unwrap().is_object());
    let required = schema.get("required").unwrap().as_array().unwrap();
    assert_eq!(required.len(), 1);
    assert_eq!(required[0].as_str(), Some("source"));
}

#[test]
fn should_truncate_long_text() {
    let text = "a".repeat(60_000);
    let (truncated, was_truncated) = truncate_text(&text, 50_000);
    assert!(was_truncated);
    assert!(truncated.len() < 60_000);
    assert!(truncated.contains("[... truncated at 50000 chars]"));
}

#[test]
fn should_not_truncate_short_text() {
    let text = "Hello, world!";
    let (result, was_truncated) = truncate_text(text, 50_000);
    assert!(!was_truncated);
    assert_eq!(result, text);
}

#[test]
fn read_pdf_should_handle_utf8_truncation_safely() {
    let text = "Hello ".to_string() + &"\u{20AC}".repeat(20_000);
    let (truncated, was_truncated) = truncate_text(&text, 100);
    assert!(was_truncated);
    assert!(!truncated.is_empty());
    assert!(truncated.contains("[... truncated"));
}

#[test]
fn truncate_text_prefers_a_space() {
    let (t, cut) = truncate_text("one two three", 9);
    assert!(cut);
    assert_eq!(t, "one two\n\n[... truncated at 9 chars]");
    let (t, _) = truncate_text("abcdefgh", 3);
    assert_eq!(t, "abc\n\n[... truncated at 3 chars]");
}

#[test]
fn pdf_size_limit() {
    assert!(check_pdf_size(52428800).is_ok());
    assert_eq!(check_pdf_size(52428801).unwrap_err(), "PDF too large: 52428801 bytes exceeds 52428800 byte limit");
    assert_eq!(effective_max_chars(0), 50000);
}

#[test]
fn pdf_summary_and_citation() {
    let r = pdf_output("https://x/doc.pdf", "one two three", 2, 9);
    assert!(!r.is_error);
    assert_eq!(r.as_text(), Some("PDF: 2 pages, 13 chars (truncated)\n\none two\n\n[... truncated at 9 chars]"));
    assert_eq!(r.citation.as_deref(), Some("https://x/doc.pdf"));
    let local = pdf_output("/tmp/doc.pdf", "hi", 1, 100);
    assert_eq!(local.as_text(), Some("PDF: 1 pages, 2 chars\n\nhi"));
    assert!(local.citation.is_none());
}

#[test]
fn extraction_errors_are_reported() {
    let bytes = b"not a pdf".to_vec();
    let extracted = pdf_extract::extract_text_from_mem(&bytes).map_err(|e| e.to_string());
    let err = extract_text_from_pdf(&bytes, extracted).unwrap_err();
    assert!(err.starts_with("PDF extraction error: "));
}

#[test]
fn budget_counts_characters() {
    for s in ["plain ascii", "caf\u{e9} \u{20AC}", "\u{1F600} smile", "\u{7D04}\u{675F}"] {
        let n = s.chars().count();
        let (kept, cut) = truncate_text(s, n);
        assert!(!cut, "{s}");
        assert_eq!(kept, s);
        let (_, cut) = truncate_text(s, n - 1);
        assert!(cut, "{s}");
    }
    let (kept, cut) = truncate_text("\u{20AC}\u{20AC}", 3);
    assert!(!cut);
    assert_eq!(kept, "\u{20AC}\u{20AC}");
}

#[test]
fn page_count_from_form_feeds_or_markers() {
    let (t, n) = extract_text_from_pdf(&b"x".to_vec(), Ok("a\u{c}b\u{c}c".to_string())).unwrap();
    assert_eq!(t, "a\u{c}b\u{c}c");
    assert_eq!(n, 3);
    let (_, n) = extract_text_from_pdf(&b"/Type /Page /Type /Page".to_vec(), Ok("ab".to_string())).unwrap();
    assert_eq!(n, 2);
    let (_, n) = extract_text_from_pdf(&b"none".to_vec(), Ok("ab".to_string())).unwrap();
    assert_eq!(n, 1);
    assert_eq!(extract_text_from_pdf(&b"x".to_vec(), Err("bad".to_string())).unwrap_err(), "PDF extraction error: bad");
}

#[test]
fn download_responses_are_checked() {
    assert!(check_pdf_response("https://x/a.pdf", 200, "200 OK", Some(10)).is_ok());
    assert!(check_pdf_response("https://x/a.pdf", 204, "204 No Content", None).is_ok());
    assert_eq!(
        check_pdf_response("https://x/a.pdf", 404, "404 Not Found", Some(10)).unwrap_err(),
        "HTTP error 404 Not Found when fetching https://x/a.pdf"
    );
    assert_eq!(
        check_pdf_response("https://x/a.pdf", 200, "200 OK", Some(52428801)).unwrap_err(),
        "PDF too large: 52428801 bytes exceeds 52428800 byte limit"
    );
}

#[test]
fn relative_sources_resolve_against_cwd() {
    let cwd = Some("/work".to_string());
    assert_eq!(resolve_source("doc.pdf", &cwd), "/work/doc.pdf");
    assert_eq!(resolve_source("doc.pdf", &Some("/work/".to_string())), "/work/doc.pdf");
    assert_eq!(resolve_source("/abs/doc.pdf", &cwd), "/abs/doc.pdf");
    assert_eq!(resolve_source("https://x/doc.pdf", &cwd), "https://x/doc.pdf");
    assert_eq!(resolve_source("doc.pdf", &None), "doc.pdf");
}
