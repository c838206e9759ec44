//! The decisions of the `fetch_url` tool: which URLs it will fetch, how a
//! fetched page becomes text (title, readable content, a byte budget cut at
//! a word), and what the answer carries. The request itself is the caller's.

use vstd::prelude::*;
use crate::tools::html::{
    fit_count, last_index_before, readable_text, tag_content, utf8_len,
};
use crate::tool::ToolOutput;

verus! {

/// The byte budget for page text when none is given.
pub const DEFAULT_MAX_CHARS: usize = 5000;
/// The largest response body, in bytes, the tool reads.
pub const MAX_RESPONSE_BYTES: u64 = 1048576;
/// Seconds before a request is abandoned.
pub const REQUEST_TIMEOUT_SECS: u64 = 10;

/// The byte budget for page text when none is given.
pub fn default_max_chars() -> (r: usize)
    ensures
        r == DEFAULT_MAX_CHARS,
{
    DEFAULT_MAX_CHARS
}

/// The budget to use: the one asked for, or the default for 0.
pub fn effective_max_chars(max_chars: usize) -> (r: usize)
    ensures
        r == (if max_chars == 0 { DEFAULT_MAX_CHARS } else { max_chars }),
{
    if max_chars == 0 { DEFAULT_MAX_CHARS } else { max_chars }
}

/// Refuses a URL that is not HTTP or HTTPS.
pub fn check_scheme(url: &str) -> (r: Result<(), String>)
    ensures
        match r {
            Ok(()) => crate::tools::web::http_url(url@),
            Err(e) => !crate::tools::web::http_url(url@)
                && e@ == "Invalid URL: must start with http:// or https://"@,
        },
{
    if crate::tools::web::is_http_url(url) {
        Ok(())
    } else {
        Err(String::from_str("Invalid URL: must start with http:// or https://"))
    }
}

/// Text within `max` bytes: unchanged when it fits; otherwise cut after the
/// characters that fit, back to the last space among them when there is
/// one, and marked with `...`.
pub open spec fn cut_with_ellipsis(s: Seq<char>, max: int) -> Seq<char> {
    if utf8_len(s) <= max {
        s
    } else {
        let k = fit_count(s, max);
        match last_index_before(s, ' ', k) {
            Some(p) => s.take(p) + "..."@,
            None => s.take(k) + "..."@,
        }
    }
}

/// Cuts `content` to `max` bytes at a character boundary, preferring a
/// space, and marks the cut.
pub fn truncate_content(content: &str, max: usize) -> (r: String)
    ensures
        r@ == cut_with_ellipsis(content@, max as int),
{
    let cs = crate::text::chars_of(content);
    let total = crate::tools::html::byte_len(&cs);
    if total <= max as u128 {
        return content.to_string();
    }
    let (k, _) = crate::tools::html::fitting_prefix(&cs, max);
    proof {
        crate::tools::html::lemma_fit_count_le(cs@, max as int);
    }
    let cut = match crate::tools::html::last_index_of(&cs, ' ', k) {
        Some(p) => p,
        None => k,
    };
    let mut out = crate::text::string_of(&cs, 0, cut);
    out.append("...");
    proof {
        assert(cs@.subrange(0, cut as int) =~= cs@.take(cut as int));
    }
    out
}

/// The text of a fetched page: `Title: <title>` and a blank line when the
/// page has a non-empty title, then its readable text within `max` bytes.
pub open spec fn page_text_spec(html: Seq<char>, max: int) -> Seq<char> {
    let title = match tag_content(html, "title"@) {
        Some(t) => readable_text(t),
        None => Seq::empty(),
    };
    let content = cut_with_ellipsis(readable_text(html), max);
    if title.len() == 0 {
        content
    } else {
        "Title: "@ + title + "\n\n"@ + content
    }
}

/// The text the tool answers with for a fetched page.
pub fn page_text(html: &str, max_chars: usize) -> (r: String)
    ensures
        r@ == page_text_spec(html@, max_chars as int),
{
    let title = match crate::tools::html::extract_tag_content(html, "title") {
        Some(t) => crate::tools::html::strip_html(t.as_str()),
        None => String::new(),
    };
    let body = crate::tools::html::strip_html(html);
    let content = truncate_content(body.as_str(), max_chars);
    if title.as_str().is_empty() {
        content
    } else {
        let mut out = String::from_str("Title: ");
        out.append(title.as_str());
        out.append("\n\n");
        out.append(content.as_str());
        out
    }
}

/// The answer for a fetched page: its text, cited to the URL, with the time
/// the fetch took.
pub fn fetch_output(text: &str, url: &str, duration_ms: u64) -> (r: ToolOutput)
    ensures
        r.content@.len() == 1,
        r.content@[0] matches crate::tool::ContentBlock::Text { text: t } && t@ == text@,
        !r.is_error,
        !r.inject_to_context,
        r.citation matches Some(c) && c@ == url@,
        r.duration_ms == Some(duration_ms),
{
    ToolOutput::text(text).with_citation(url).with_duration(duration_ms)
}

} // verus!

verus! {

/// Cut page text keeps a prefix of the text within the byte budget (the
/// `...` mark comes on top), and text that fits is kept whole.
pub proof fn lemma_cut_fits_budget(s: Seq<char>, max: int)
    requires
        max >= 0,
    ensures
        utf8_len(s) <= max ==> cut_with_ellipsis(s, max) == s,
        utf8_len(s) > max ==> exists|c: int| 0 <= c <= s.len() && utf8_len(s.take(c)) <= max
            && #[trigger] cut_with_ellipsis(s, max) == s.take(c) + "..."@,
{
    if utf8_len(s) > max {
        let k = fit_count(s, max);
        crate::tools::html::lemma_fit_count_bound(s, max);
        crate::tools::html::lemma_fit_prefix_within_budget(s, max);
        match last_index_before(s, ' ', k) {
            Some(p) => {
                crate::tools::html::lemma_last_index_bound(s, ' ', k);
                crate::tools::html::lemma_prefix_bytes_grow(s, p, k);
                assert(cut_with_ellipsis(s, max) == s.take(p) + "..."@);
            },
            None => {
                assert(cut_with_ellipsis(s, max) == s.take(k) + "..."@);
            },
        }
    }
}

} // verus!
