//! The decisions of the `read_pdf` tool: where a PDF comes from, the size
//! limit, counting pages in the extracted text or the raw bytes, cutting the
//! text to a character budget, and the summary it answers with. Reading the
//! file, downloading it and running the extractor are the caller's.

use vstd::prelude::*;
use crate::tools::html::{last_index_before, utf8_len};
use crate::tool::ToolOutput;

verus! {

/// The character budget for the extracted text when none is given.
pub const DEFAULT_MAX_CHARS: usize = 50000;
/// The largest PDF, in bytes, the tool reads.
pub const MAX_PDF_BYTES: u64 = 52428800;

/// The character budget for the extracted text when none is given.
pub fn default_max_chars() -> (r: usize)
    ensures
        r == DEFAULT_MAX_CHARS,
{
    DEFAULT_MAX_CHARS
}

/// The budget to use: the one asked for, or the default for 0.
pub fn effective_max_chars(max_chars: usize) -> (r: usize)
    ensures
        r == (if max_chars == 0 { DEFAULT_MAX_CHARS } else { max_chars }),
{
    if max_chars == 0 { DEFAULT_MAX_CHARS } else { max_chars }
}

/// Refuses a PDF of `size` bytes over the limit.
pub fn check_pdf_size(size: u64) -> (r: Result<(), String>)
    ensures
        match r {
            Ok(()) => size <= MAX_PDF_BYTES,
            Err(e) => size > MAX_PDF_BYTES && crate::tools::web::size_verdict("PDF"@, size as int, MAX_PDF_BYTES as int)
                == Err::<(), Seq<char>>(e@),
        },
{
    crate::tools::web::check_size("PDF", size, MAX_PDF_BYTES)
}

/// The verdict on a download's response before its body is read: the
/// status must be a success, then a declared length must be within the
/// limit.
pub open spec fn pdf_response_verdict(url: Seq<char>, code: u16, status: Seq<char>, content_length: Option<u64>) -> Result<(), Seq<char>> {
    if !crate::tools::web::status_success(code) {
        Err("HTTP error "@ + status + " when fetching "@ + url)
    } else {
        match content_length {
            Some(n) => crate::tools::web::size_verdict("PDF"@, n as int, MAX_PDF_BYTES as int),
            None => Ok(()),
        }
    }
}

/// Refuses a downloaded PDF's response by its status (`status` is the
/// status as the client renders it) and declared length; the body, once
/// read, goes through [`check_pdf_size`].
pub fn check_pdf_response(url: &str, code: u16, status: &str, content_length: Option<u64>) -> (r: Result<(), String>)
    ensures
        match r {
            Ok(()) => pdf_response_verdict(url@, code, status@, content_length) is Ok,
            Err(e) => pdf_response_verdict(url@, code, status@, content_length) == Err::<(), Seq<char>>(e@),
        },
{
    crate::tools::web::check_status(code, status, url)?;
    match content_length {
        Some(n) => check_pdf_size(n),
        None => Ok(()),
    }
}

/// Whether a path is absolute (it starts with `/`).
pub open spec fn absolute_path(path: Seq<char>) -> bool {
    "/"@.is_prefix_of(path)
}

/// `dir` joined with `path`: a `/` between them unless `dir` is empty or
/// already ends with one.
pub open spec fn joined_path(dir: Seq<char>, path: Seq<char>) -> Seq<char> {
    if dir.len() == 0 || dir.last() == '/' {
        dir + path
    } else {
        dir + "/"@ + path
    }
}

/// Where a source is read from: a URL or an absolute path as it is, a
/// relative path against the call's working directory when one is set.
pub open spec fn resolved_source(source: Seq<char>, cwd: Option<Seq<char>>) -> Seq<char> {
    if crate::tools::web::http_url(source) || absolute_path(source) {
        source
    } else {
        match cwd {
            Some(dir) => joined_path(dir, source),
            None => source,
        }
    }
}

/// The source to read, resolved against the working directory `cwd`.
pub fn resolve_source(source: &str, cwd: &Option<String>) -> (r: String)
    ensures
        r@ == resolved_source(source@, match cwd { Some(d) => Some(d@), None => None }),
{
    if crate::tools::web::is_http_url(source) || crate::tools::web::starts_with(source, "/") {
        return source.to_string();
    }
    match cwd {
        None => source.to_string(),
        Some(dir) => {
            let cs = crate::text::chars_of(dir.as_str());
            let n = cs.len();
            let mut out = dir.clone();
            if n > 0 && cs[n - 1] != '/' {
                out.append("/");
            }
            out.append(source);
            proof {
                reveal_strlit("/");
            }
            out
        },
    }
}

// ---------------------------------------------------------------------------
// Text and pages
// ---------------------------------------------------------------------------

/// How many times `c` occurs in `s`.
pub open spec fn count_char(s: Seq<char>, c: char) -> int
    decreases s.len(),
{
    if s.len() == 0 {
        0
    } else {
        (if s[0] == c { 1int } else { 0int }) + count_char(s.drop_first(), c)
    }
}

/// How many windows of `b` (overlapping ones included) equal `pat`.
pub open spec fn count_windows(b: Seq<u8>, pat: Seq<u8>) -> int
    decreases b.len(),
{
    if b.len() < pat.len() || pat.len() == 0 {
        0
    } else {
        (if b.take(pat.len() as int) == pat { 1int } else { 0int }) + count_windows(b.drop_first(), pat)
    }
}

/// The marker of a page object in the raw bytes: `/Type /`.
pub open spec fn type_marker() -> Seq<u8> {
    seq![47u8, 84u8, 121u8, 112u8, 101u8, 32u8, 47u8]
}

/// The page count: one more than the form feeds in the text when it has
/// any; otherwise the `/Type /` markers in the bytes, or 1 when there are
/// none.
pub open spec fn page_count(text: Seq<char>, bytes: Seq<u8>) -> int {
    let ff = count_char(text, '\u{000C}');
    if ff > 0 {
        ff + 1
    } else if count_windows(bytes, type_marker()) > 0 {
        count_windows(bytes, type_marker())
    } else {
        1
    }
}

proof fn lemma_count_char_bound(s: Seq<char>, c: char)
    ensures
        0 <= count_char(s, c) <= s.len(),
    decreases s.len(),
{
    if s.len() > 0 {
        lemma_count_char_bound(s.drop_first(), c);
    }
}

proof fn lemma_count_windows_bound(b: Seq<u8>, pat: Seq<u8>)
    ensures
        0 <= count_windows(b, pat) <= b.len(),
    decreases b.len(),
{
    if !(b.len() < pat.len() || pat.len() == 0) {
        lemma_count_windows_bound(b.drop_first(), pat);
    }
}

/// The number of form feeds in `cs`.
fn count_form_feeds(cs: &Vec<char>) -> (r: usize)
    ensures
        r == count_char(cs@, '\u{000C}'),
{
    let mut n: usize = 0;
    let mut i: usize = cs.len();
    proof {
        assert(cs@.skip(cs.len() as int) =~= Seq::<char>::empty());
    }
    while i > 0
        invariant
            i <= cs.len(),
            n == count_char(cs@.skip(i as int), '\u{000C}'),
            n <= cs.len() - i,
        decreases i,
    {
        proof {
            assert(cs@.skip(i - 1).drop_first() =~= cs@.skip(i as int));
            assert(cs@.skip(i - 1)[0] == cs@[i - 1]);
        }
        if cs[i - 1] == '\u{000C}' {
            n = n + 1;
        }
        i = i - 1;
    }
    proof {
        assert(cs@.skip(0) =~= cs@);
    }
    n
}

/// The number of `/Type /` windows in `bytes`.
fn count_type_markers(bytes: &Vec<u8>) -> (r: usize)
    ensures
        r == count_windows(bytes@, type_marker()),
{
    let pat: Vec<u8> = vec![47u8, 84u8, 121u8, 112u8, 101u8, 32u8, 47u8];
    assert(pat@ =~= type_marker());
    if bytes.len() < 7 {
        return 0;
    }
    let mut n: usize = 0;
    let mut i: usize = bytes.len() - 6;
    proof {
        assert(bytes@.skip(i as int).len() < 7);
    }
    while i > 0
        invariant
            pat@ == type_marker(),
            7 <= bytes.len(),
            i <= bytes.len() - 6,
            n == count_windows(bytes@.skip(i as int), type_marker()),
            n <= bytes.len() - 6 - i,
        decreases i,
    {
        let j = i - 1;
        let mut k: usize = 0;
        let mut same = true;
        while k < 7
            invariant
                j + 7 <= bytes.len(),
                k <= 7,
                pat@ == type_marker(),
                pat.len() == 7,
                same == (forall|m: int| 0 <= m < k ==> bytes@[j + m] == #[trigger] pat@[m]),
            decreases 7 - k,
        {
            same = same && bytes[j + k] == pat[k];
            k = k + 1;
        }
        proof {
            if same {
                assert(bytes@.skip(j as int).take(7) =~= pat@);
            } else {
                let m = choose|m: int| 0 <= m < 7 && bytes@[j + m] != #[trigger] pat@[m];
                assert(bytes@.skip(j as int).take(7)[m] != pat@[m]);
            }
            assert(bytes@.skip(j as int).drop_first() =~= bytes@.skip(i as int));
        }
        if same {
            n = n + 1;
        }
        i = j;
    }
    proof {
        assert(bytes@.skip(0) =~= bytes@);
    }
    n
}

/// The texts of an outcome.
pub open spec fn text_outcome(r: Result<String, String>) -> Result<Seq<char>, Seq<char>> {
    match r {
        Ok(t) => Ok(t@),
        Err(e) => Err(e@),
    }
}

/// What extracting a PDF gives, from what the extractor gave for its bytes
/// (the text, or its error's message): the text and page count, or the
/// error.
pub open spec fn extraction_result(bytes: Seq<u8>, extracted: Result<Seq<char>, Seq<char>>) -> Result<(Seq<char>, int), Seq<char>> {
    match extracted {
        Err(e) => Err("PDF extraction error: "@ + e),
        Ok(t) => Ok((t, page_count(t, bytes))),
    }
}

/// The text of a PDF and its page count. `extracted` is what
/// `pdf_extract::extract_text_from_mem` gave for `bytes`: the caller runs
/// the extractor, since it panics on some malformed documents.
pub fn extract_text_from_pdf(bytes: &Vec<u8>, extracted: Result<String, String>) -> (r: Result<(String, u128), String>)
    ensures
        match r {
            Ok((t, n)) => extraction_result(bytes@, text_outcome(extracted))
                == Ok::<(Seq<char>, int), Seq<char>>((t@, n as int)),
            Err(e) => extraction_result(bytes@, text_outcome(extracted))
                == Err::<(Seq<char>, int), Seq<char>>(e@),
        },
{
    let text = match extracted {
        Ok(t) => t,
        Err(e) => {
            let mut msg = String::from_str("PDF extraction error: ");
            msg.append(e.as_str());
            return Err(msg);
        },
    };
    let cs = crate::text::chars_of(text.as_str());
    let ff = count_form_feeds(&cs);
    let num_pages: u128 = if ff > 0 {
        ff as u128 + 1
    } else {
        let markers = count_type_markers(bytes);
        if markers > 0 { markers as u128 } else { 1 }
    };
    Ok((text, num_pages))
}

/// Text within `max` characters: unchanged when it has at most that many;
/// otherwise its first `max` characters, cut back to the last space among
/// them when there is one, and followed by a note of the budget.
pub open spec fn truncated_text(s: Seq<char>, max: int) -> (Seq<char>, bool) {
    if s.len() <= max {
        (s, false)
    } else {
        let cut = match last_index_before(s, ' ', max) {
            Some(p) => p,
            None => max,
        };
        (s.take(cut) + "\n\n[... truncated at "@ + crate::text::nat_text(max as nat) + " chars]"@, true)
    }
}

/// Cuts `text` to at most `max_chars` characters, preferring to end before
/// a space; says whether it cut.
pub fn truncate_text(text: &str, max_chars: usize) -> (r: (String, bool))
    ensures
        (r.0@, r.1) == truncated_text(text@, max_chars as int),
{
    let cs = crate::text::chars_of(text);
    if cs.len() <= max_chars {
        return (text.to_string(), false);
    }
    let cut = match crate::tools::html::last_index_of(&cs, ' ', max_chars) {
        Some(p) => p,
        None => max_chars,
    };
    let mut out = crate::text::string_of(&cs, 0, cut);
    out.append("\n\n[... truncated at ");
    crate::text::push_decimal(&mut out, max_chars as u64);
    out.append(" chars]");
    proof {
        assert(cs@.subrange(0, cut as int) =~= cs@.take(cut as int));
    }
    (out, true)
}

/// What the cut keeps of the text is at most `max` characters of it.
pub proof fn lemma_truncation_keeps_prefix(s: Seq<char>, max: int)
    requires
        0 <= max < s.len(),
    ensures
        truncated_text(s, max).1,
        exists|cut: int| 0 <= cut <= max && truncated_text(s, max).0
            == s.take(cut) + "\n\n[... truncated at "@ + crate::text::nat_text(max as nat) + " chars]"@,
{
    crate::tools::html::lemma_last_index_bound(s, ' ', max);
    let cut = match last_index_before(s, ' ', max) {
        Some(p) => p,
        None => max,
    };
    assert(0 <= cut <= max);
    assert(truncated_text(s, max).0
        == s.take(cut) + "\n\n[... truncated at "@ + crate::text::nat_text(max as nat) + " chars]"@);
}

/// The summary the tool answers with.
pub open spec fn summary_text(pages: int, text: Seq<char>, max: int) -> Seq<char> {
    let (content, cut) = truncated_text(text, max);
    "PDF: "@ + crate::text::nat_text(pages as nat) + " pages, "@ + crate::text::nat_text(utf8_len(text) as nat)
        + " chars"@ + (if cut { " (truncated)"@ } else { Seq::empty() }) + "\n\n"@ + content
}

/// The answer for an extracted PDF: the summary, cited to the source when
/// it is a URL.
pub fn pdf_output(source: &str, text: &str, num_pages: u128, max_chars: usize) -> (r: ToolOutput)
    ensures
        r.content@.len() == 1,
        r.content@[0] matches crate::tool::ContentBlock::Text { text: t }
            && t@ == summary_text(num_pages as int, text@, max_chars as int),
        !r.is_error,
        !r.inject_to_context,
        r.duration_ms is None,
        crate::tools::web::http_url(source@) ==> (r.citation matches Some(c) && c@ == source@),
        !crate::tools::web::http_url(source@) ==> r.citation is None,
{
    let cs = crate::text::chars_of(text);
    let total = crate::tools::html::byte_len(&cs);
    let (content, truncated) = truncate_text(text, max_chars);
    let mut summary = String::from_str("PDF: ");
    crate::text::push_decimal_wide(&mut summary, num_pages);
    summary.append(" pages, ");
    crate::text::push_decimal_wide(&mut summary, total);
    summary.append(" chars");
    if truncated {
        summary.append(" (truncated)");
    }
    summary.append("\n\n");
    summary.append(content.as_str());
    proof {
        assert(summary@ =~= summary_text(num_pages as int, text@, max_chars as int));
    }
    let out = ToolOutput::text(summary.as_str());
    if crate::tools::web::is_http_url(source) {
        out.with_citation(source)
    } else {
        out
    }
}

/// The built-in `read_pdf` tool.
#[derive(Debug)]
pub struct ReadPdfTool;

impl ReadPdfTool {
    /// The tool.
    pub fn new() -> Self {
        ReadPdfTool
    }
}

impl Default for ReadPdfTool {
    fn default() -> Self {
        ReadPdfTool::new()
    }
}

} // verus!
