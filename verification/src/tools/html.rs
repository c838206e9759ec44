//! Reading a fetched page: the content of a tag, the readable text of a
//! document (blocks such as scripts removed, tags dropped, common entities
//! decoded, white space collapsed), and cutting text to a byte budget on a
//! character boundary.

use vstd::prelude::*;
use crate::text::is_white_space;

verus! {

// ---------------------------------------------------------------------------
// Searching
// ---------------------------------------------------------------------------

/// Whether `c` is `p`, or, ignoring ASCII case, the same letter.
pub open spec fn same_char(c: char, p: char, ignore_case: bool) -> bool {
    if ignore_case {
        crate::tools::datetime::same_letter(c, p)
    } else {
        c == p
    }
}

/// Whether `p` occurs in `s` at `i` (ignoring ASCII case when asked; `p` is
/// lower case then).
pub open spec fn occurs(s: Seq<char>, i: int, p: Seq<char>, ignore_case: bool) -> bool {
    &&& 0 <= i
    &&& i + p.len() <= s.len()
    &&& forall|k: int| 0 <= k < p.len() ==> same_char(#[trigger] s[i + k], p[k], ignore_case)
}

/// The first position at or after `from` where `p` occurs in `s`.
pub open spec fn find_from(s: Seq<char>, p: Seq<char>, from: int, ignore_case: bool) -> Option<int>
    decreases s.len() - from,
{
    if from < 0 || from + p.len() > s.len() {
        None
    } else if occurs(s, from, p, ignore_case) {
        Some(from)
    } else {
        find_from(s, p, from + 1, ignore_case)
    }
}

pub proof fn lemma_find_from_bounds(s: Seq<char>, p: Seq<char>, from: int, ignore_case: bool)
    ensures
        find_from(s, p, from, ignore_case) matches Some(i) ==> from <= i && i + p.len() <= s.len()
            && occurs(s, i, p, ignore_case),
    decreases s.len() - from,
{
    if from < 0 || from + p.len() > s.len() {
    } else if occurs(s, from, p, ignore_case) {
    } else {
        lemma_find_from_bounds(s, p, from + 1, ignore_case);
    }
}

fn occurs_here(s: &Vec<char>, i: usize, p: &Vec<char>, ignore_case: bool) -> (r: bool)
    requires
        i + p.len() <= s.len(),
    ensures
        r == occurs(s@, i as int, p@, ignore_case),
{
    let mut k: usize = 0;
    while k < p.len()
        invariant
            i + p.len() <= s.len(),
            k <= p.len(),
            forall|j: int| 0 <= j < k ==> same_char(#[trigger] s@[i + j], p@[j], ignore_case),
        decreases p.len() - k,
    {
        let c = s[i + k];
        let q = p[k];
        let same = if ignore_case {
            c == q || ('A' <= c && c <= 'Z' && (c as u32) + 32 == q as u32)
        } else {
            c == q
        };
        if !same {
            proof {
                assert(!same_char(s@[i + k], p@[k as int], ignore_case));
            }
            return false;
        }
        k = k + 1;
    }
    true
}

/// The first position at or after `from` where `p` occurs in `s`.
pub fn find_in(s: &Vec<char>, p: &Vec<char>, from: usize, ignore_case: bool) -> (r: Option<usize>)
    ensures
        match r {
            Some(i) => find_from(s@, p@, from as int, ignore_case) == Some(i as int),
            None => find_from(s@, p@, from as int, ignore_case) is None,
        },
{
    if p.len() > s.len() {
        return None;
    }
    let last = s.len() - p.len();
    let mut i = from;
    while i <= last
        invariant
            last == s.len() - p.len(),
            from <= i,
            find_from(s@, p@, from as int, ignore_case) == find_from(s@, p@, i as int, ignore_case),
        decreases last + 1 - i,
    {
        if occurs_here(s, i, p, ignore_case) {
            return Some(i);
        }
        i = i + 1;
    }
    None
}

// ---------------------------------------------------------------------------
// Tag content
// ---------------------------------------------------------------------------

/// The text between the first `<tag ...>` and the following `</tag>`.
pub open spec fn tag_content(html: Seq<char>, tag: Seq<char>) -> Option<Seq<char>> {
    let open = seq!['<'] + tag;
    let close = seq!['<', '/'] + tag + seq!['>'];
    match find_from(html, open, 0, false) {
        None => None,
        Some(start) => match find_from(html, seq!['>'], start, false) {
            None => None,
            Some(gt) => match find_from(html, close, gt + 1, false) {
                None => None,
                Some(end) => Some(html.subrange(gt + 1, end)),
            },
        },
    }
}

/// The content of the first occurrence of `tag` in `html`.
pub fn extract_tag_content(html: &str, tag: &str) -> (r: Option<String>)
    ensures
        match r {
            Some(t) => tag_content(html@, tag@) == Some(t@),
            None => tag_content(html@, tag@) is None,
        },
{
    let hs = crate::text::chars_of(html);
    let mut open: Vec<char> = Vec::new();
    open.push('<');
    let ts = crate::text::chars_of(tag);
    let mut close: Vec<char> = Vec::new();
    close.push('<');
    close.push('/');
    let mut k: usize = 0;
    while k < ts.len()
        invariant
            k <= ts.len(),
            ts@ == tag@,
            open@ == seq!['<'] + tag@.take(k as int),
            close@ == seq!['<', '/'] + tag@.take(k as int),
        decreases ts.len() - k,
    {
        open.push(ts[k]);
        close.push(ts[k]);
        proof {
            assert(tag@.take(k + 1) =~= tag@.take(k as int).push(tag@[k as int]));
        }
        k = k + 1;
    }
    close.push('>');
    proof {
        assert(tag@.take(ts.len() as int) =~= tag@);
        assert(open@ =~= seq!['<'] + tag@);
        assert(close@ =~= seq!['<', '/'] + tag@ + seq!['>']);
    }
    let start = match find_in(&hs, &open, 0, false) {
        Some(i) => i,
        None => return None,
    };
    let mut gt_pat: Vec<char> = Vec::new();
    gt_pat.push('>');
    assert(gt_pat@ =~= seq!['>']);
    let gt = match find_in(&hs, &gt_pat, start, false) {
        Some(i) => i,
        None => return None,
    };
    proof {
        lemma_find_from_bounds(hs@, gt_pat@, start as int, false);
    }
    let end = match find_in(&hs, &close, gt + 1, false) {
        Some(i) => i,
        None => return None,
    };
    proof {
        lemma_find_from_bounds(hs@, close@, gt + 1, false);
    }
    Some(crate::text::string_of(&hs, gt + 1, end))
}

} // verus!

verus! {

// ---------------------------------------------------------------------------
// Readable text
// ---------------------------------------------------------------------------

/// `s` with each block from an opening `open` to the next `close` (both
/// matched ignoring ASCII case) removed, first block first, until no opening
/// tag with a closing tag after it remains.
pub open spec fn remove_blocks(s: Seq<char>, open: Seq<char>, close: Seq<char>) -> Seq<char>
    decreases s.len(),
{
    if close.len() == 0 {
        s
    } else {
        match find_from(s, open, 0, true) {
            None => s,
            Some(start) => match find_from(s, close, start, true) {
                None => s,
                Some(c) => {
                    proof {
                        lemma_find_from_bounds(s, open, 0, true);
                        lemma_find_from_bounds(s, close, start, true);
                    }
                    remove_blocks(s.take(start) + s.skip(c + close.len()), open, close)
                },
            },
        }
    }
}

/// Whether `s` holds a complete block: an opening `open` with a closing
/// `close` at or after it (both matched ignoring ASCII case).
pub open spec fn has_block(s: Seq<char>, open: Seq<char>, close: Seq<char>) -> bool {
    match find_from(s, open, 0, true) {
        Some(start) => find_from(s, close, start, true) is Some,
        None => false,
    }
}

/// Block removal removes every block, not just the first: what remains holds
/// no opening tag followed by its closing tag. Text without a block is kept
/// as it is, and removing a block makes the text shorter.
pub proof fn lemma_no_block_remains(s: Seq<char>, open: Seq<char>, close: Seq<char>)
    requires
        close.len() > 0,
    ensures
        !has_block(remove_blocks(s, open, close), open, close),
        !has_block(s, open, close) ==> remove_blocks(s, open, close) == s,
        has_block(s, open, close) ==> remove_blocks(s, open, close).len() < s.len(),
    decreases s.len(),
{
    match find_from(s, open, 0, true) {
        None => {},
        Some(start) => match find_from(s, close, start, true) {
            None => {},
            Some(c) => {
                lemma_find_from_bounds(s, open, 0, true);
                lemma_find_from_bounds(s, close, start, true);
                let t = s.take(start) + s.skip(c + close.len());
                assert(t.len() < s.len());
                lemma_no_block_remains(t, open, close);
            },
        },
    }
}

/// The characters outside markup: each `<` starts a tag and each `>` ends
/// one; characters inside a tag, and the brackets, are dropped.
pub open spec fn drop_tags(s: Seq<char>, in_tag: bool) -> Seq<char>
    decreases s.len(),
{
    if s.len() == 0 {
        Seq::empty()
    } else if s[0] == '<' {
        drop_tags(s.drop_first(), true)
    } else if s[0] == '>' {
        drop_tags(s.drop_first(), false)
    } else if !in_tag {
        seq![s[0]] + drop_tags(s.drop_first(), false)
    } else {
        drop_tags(s.drop_first(), true)
    }
}

/// `s` with each occurrence of `pat` replaced by `rep`, scanning left to
/// right without overlaps (what `str::replace` does).
pub open spec fn replace_all(s: Seq<char>, pat: Seq<char>, rep: Seq<char>) -> Seq<char>
    decreases s.len(),
{
    if s.len() == 0 {
        Seq::empty()
    } else if pat.len() > 0 && pat.is_prefix_of(s) {
        rep + replace_all(s.skip(pat.len() as int), pat, rep)
    } else {
        seq![s[0]] + replace_all(s.drop_first(), pat, rep)
    }
}

/// What separates two kept words: nothing yet, a space, or a line break.
pub open spec fn gap_text(started: bool, gap: int) -> Seq<char> {
    if !started || gap == 0 {
        Seq::empty()
    } else if gap == 2 {
        seq!['\n']
    } else {
        seq![' ']
    }
}

/// White space collapsed: the runs of non-white-space characters are kept;
/// two runs are separated by one line break when a line break came between
/// them, by one space otherwise; nothing leads or trails. (This is joining
/// each line's words with a space and the non-empty lines with a line break.)
pub open spec fn collapse_from(s: Seq<char>, started: bool, gap: int) -> Seq<char>
    decreases s.len(),
{
    if s.len() == 0 {
        Seq::empty()
    } else if s[0] == '\n' {
        collapse_from(s.drop_first(), started, 2)
    } else if is_white_space(s[0]) {
        collapse_from(s.drop_first(), started, if gap == 2 { 2 } else { 1 })
    } else {
        gap_text(started, gap) + seq![s[0]] + collapse_from(s.drop_first(), true, 0)
    }
}

/// The readable text of an HTML document: `script`, `style`, `nav`,
/// `footer` and `header` blocks removed, the remaining tags dropped, the
/// common entities decoded, and white space collapsed.
pub open spec fn readable_text(html: Seq<char>) -> Seq<char> {
    let s1 = remove_blocks(html, "<script"@, "</script>"@);
    let s2 = remove_blocks(s1, "<style"@, "</style>"@);
    let s3 = remove_blocks(s2, "<nav"@, "</nav>"@);
    let s4 = remove_blocks(s3, "<footer"@, "</footer>"@);
    let s5 = remove_blocks(s4, "<header"@, "</header>"@);
    let t = drop_tags(s5, false);
    let d1 = replace_all(t, "&amp;"@, "&"@);
    let d2 = replace_all(d1, "&lt;"@, "<"@);
    let d3 = replace_all(d2, "&gt;"@, ">"@);
    let d4 = replace_all(d3, "&quot;"@, "\""@);
    let d5 = replace_all(d4, "&#39;"@, "'"@);
    let d6 = replace_all(d5, "&apos;"@, "'"@);
    let d7 = replace_all(d6, "&nbsp;"@, " "@);
    collapse_from(d7, false, 0)
}

/// Removes every `open`...`close` block from `s`.
fn remove_blocks_exec(s: Vec<char>, open: &str, close: &str) -> (r: Vec<char>)
    requires
        close@.len() > 0,
    ensures
        r@ == remove_blocks(s@, open@, close@),
{
    let op = crate::text::chars_of(open);
    let cl = crate::text::chars_of(close);
    let mut cur = s;
    loop
        invariant
            op@ == open@,
            cl@ == close@,
            cl@.len() > 0,
            remove_blocks(cur@, open@, close@) == remove_blocks(s@, open@, close@),
        decreases cur.len(),
    {
        let start = match find_in(&cur, &op, 0, true) {
            Some(i) => i,
            None => return cur,
        };
        let c = match find_in(&cur, &cl, start, true) {
            Some(i) => i,
            None => return cur,
        };
        proof {
            lemma_find_from_bounds(cur@, op@, 0, true);
            lemma_find_from_bounds(cur@, cl@, start as int, true);
        }
        let end = c + cl.len();
        let mut next: Vec<char> = Vec::new();
        let mut i: usize = 0;
        while i < start
            invariant
                i <= start <= end <= cur.len(),
                next@ == cur@.take(i as int),
            decreases start - i,
        {
            next.push(cur[i]);
            proof {
                assert(cur@.take(i + 1) =~= cur@.take(i as int).push(cur@[i as int]));
            }
            i = i + 1;
        }
        let mut j: usize = end;
        while j < cur.len()
            invariant
                start <= end <= j <= cur.len(),
                next@ == cur@.take(start as int) + cur@.subrange(end as int, j as int),
            decreases cur.len() - j,
        {
            next.push(cur[j]);
            proof {
                assert(cur@.subrange(end as int, j + 1) =~= cur@.subrange(end as int, j as int).push(cur@[j as int]));
            }
            j = j + 1;
        }
        proof {
            assert(cur@.subrange(end as int, cur.len() as int) =~= cur@.skip(end as int));
        }
        cur = next;
    }
}

/// Drops the markup from `s`.
fn drop_tags_exec(s: &Vec<char>) -> (r: Vec<char>)
    ensures
        r@ == drop_tags(s@, false),
{
    let mut out: Vec<char> = Vec::new();
    let mut in_tag = false;
    let mut i: usize = 0;
    proof {
        assert(s@.skip(0) =~= s@);
    }
    while i < s.len()
        invariant
            i <= s.len(),
            out@ + drop_tags(s@.skip(i as int), in_tag) == drop_tags(s@, false),
        decreases s.len() - i,
    {
        let ghost rest = s@.skip(i as int);
        proof {
            assert(rest.drop_first() =~= s@.skip(i + 1));
            assert(rest[0] == s@[i as int]);
        }
        let c = s[i];
        if c == '<' {
            in_tag = true;
        } else if c == '>' {
            in_tag = false;
        } else if !in_tag {
            proof {
                assert(out@.push(c) + drop_tags(s@.skip(i + 1), false) =~= out@ + (seq![c] + drop_tags(s@.skip(i + 1), false)));
            }
            out.push(c);
        }
        i = i + 1;
    }
    proof {
        assert(out@ + Seq::<char>::empty() =~= out@);
    }
    out
}

/// Replaces every `pat` in `s` by `rep`.
fn replace_all_exec(s: &Vec<char>, pat: &str, rep: &str) -> (r: Vec<char>)
    ensures
        r@ == replace_all(s@, pat@, rep@),
{
    let ps = crate::text::chars_of(pat);
    let rs = crate::text::chars_of(rep);
    let mut out: Vec<char> = Vec::new();
    let mut i: usize = 0;
    proof {
        assert(s@.skip(0) =~= s@);
    }
    while i < s.len()
        invariant
            i <= s.len(),
            ps@ == pat@,
            rs@ == rep@,
            out@ + replace_all(s@.skip(i as int), pat@, rep@) == replace_all(s@, pat@, rep@),
        decreases s.len() - i,
    {
        let ghost rest = s@.skip(i as int);
        let here = ps.len() > 0 && ps.len() <= s.len() - i && occurs_here(s, i, &ps, false);
        proof {
            if ps.len() > 0 && ps.len() <= s.len() - i {
                if here {
                    assert(pat@.is_prefix_of(rest)) by {
                        assert forall|k: int| 0 <= k < pat@.len() implies rest.subrange(0, pat@.len() as int)[k] == pat@[k] by {
                            assert(same_char(s@[i + k], ps@[k], false));
                        }
                        assert(rest.subrange(0, pat@.len() as int) =~= pat@);
                    }
                } else {
                    assert(!pat@.is_prefix_of(rest)) by {
                        if pat@.is_prefix_of(rest) {
                            assert forall|k: int| 0 <= k < ps@.len() implies same_char(#[trigger] s@[i + k], ps@[k], false) by {
                                assert(rest.subrange(0, pat@.len() as int)[k] == pat@[k]);
                            }
                        }
                    }
                }
            } else if ps.len() > 0 {
                assert(!pat@.is_prefix_of(rest));
            }
        }
        if here {
            let mut k: usize = 0;
            let ghost before = out@;
            while k < rs.len()
                invariant
                    k <= rs.len(),
                    out@ == before + rs@.take(k as int),
                decreases rs.len() - k,
            {
                out.push(rs[k]);
                proof {
                    assert(rs@.take(k + 1) =~= rs@.take(k as int).push(rs@[k as int]));
                }
                k = k + 1;
            }
            proof {
                assert(rs@.take(rs.len() as int) =~= rs@);
                assert(rest.skip(pat@.len() as int) =~= s@.skip(i + ps.len()));
                assert(out@ + replace_all(s@.skip(i + ps.len()), pat@, rep@) =~= before + (rep@ + replace_all(rest.skip(pat@.len() as int), pat@, rep@)));
            }
            i = i + ps.len();
        } else {
            let c = s[i];
            proof {
                assert(rest.drop_first() =~= s@.skip(i + 1));
                assert(rest[0] == c);
                assert(out@.push(c) + replace_all(s@.skip(i + 1), pat@, rep@) =~= out@ + (seq![c] + replace_all(rest.drop_first(), pat@, rep@)));
            }
            out.push(c);
            i = i + 1;
        }
    }
    proof {
        assert(out@ + Seq::<char>::empty() =~= out@);
    }
    out
}

/// Collapses the white space of `s`.
fn collapse_exec(s: &Vec<char>) -> (r: String)
    ensures
        r@ == collapse_from(s@, false, 0),
{
    let mut out = String::new();
    let mut started = false;
    let mut gap: u8 = 0;
    let mut i: usize = 0;
    proof {
        assert(s@.skip(0) =~= s@);
    }
    while i < s.len()
        invariant
            i <= s.len(),
            gap <= 2,
            out@ + collapse_from(s@.skip(i as int), started, gap as int) == collapse_from(s@, false, 0),
        decreases s.len() - i,
    {
        let ghost rest = s@.skip(i as int);
        proof {
            assert(rest.drop_first() =~= s@.skip(i + 1));
            assert(rest[0] == s@[i as int]);
        }
        let c = s[i];
        if c == '\n' {
            gap = 2;
        } else if crate::text::is_whitespace_char(c) {
            if gap != 2 {
                gap = 1;
            }
        } else {
            let ghost before = out@;
            let ghost g = gap_text(started, gap as int);
            if started && gap == 2 {
                out.push('\n');
            } else if started && gap == 1 {
                out.push(' ');
            }
            out.push(c);
            proof {
                assert(out@ =~= before + g + seq![c]);
                assert(out@ + collapse_from(s@.skip(i + 1), true, 0) =~= before + (g + seq![c] + collapse_from(rest.drop_first(), true, 0)));
            }
            started = true;
            gap = 0;
        }
        i = i + 1;
    }
    proof {
        assert(out@ + Seq::<char>::empty() =~= out@);
    }
    out
}

/// The readable text of an HTML document.
pub fn strip_html(html: &str) -> (r: String)
    ensures
        r@ == readable_text(html@),
{
    proof {
        reveal_strlit("</script>");
        reveal_strlit("</style>");
        reveal_strlit("</nav>");
        reveal_strlit("</footer>");
        reveal_strlit("</header>");
    }
    let s0 = crate::text::chars_of(html);
    let s1 = remove_blocks_exec(s0, "<script", "</script>");
    let s2 = remove_blocks_exec(s1, "<style", "</style>");
    let s3 = remove_blocks_exec(s2, "<nav", "</nav>");
    let s4 = remove_blocks_exec(s3, "<footer", "</footer>");
    let s5 = remove_blocks_exec(s4, "<header", "</header>");
    let t = drop_tags_exec(&s5);
    let d1 = replace_all_exec(&t, "&amp;", "&");
    let d2 = replace_all_exec(&d1, "&lt;", "<");
    let d3 = replace_all_exec(&d2, "&gt;", ">");
    let d4 = replace_all_exec(&d3, "&quot;", "\"");
    let d5 = replace_all_exec(&d4, "&#39;", "'");
    let d6 = replace_all_exec(&d5, "&apos;", "'");
    let d7 = replace_all_exec(&d6, "&nbsp;", " ");
    collapse_exec(&d7)
}

} // verus!

verus! {

// ---------------------------------------------------------------------------
// Byte budgets
// ---------------------------------------------------------------------------

/// The number of bytes UTF-8 takes for `c`.
pub open spec fn char_utf8_len(c: char) -> int {
    let u = c as u32;
    if u < 0x80 { 1 } else if u < 0x800 { 2 } else if u < 0x10000 { 3 } else { 4 }
}

/// The number of bytes of `s` in UTF-8 (what `str::len` counts).
pub open spec fn utf8_len(s: Seq<char>) -> int
    decreases s.len(),
{
    if s.len() == 0 { 0 } else { char_utf8_len(s[0]) + utf8_len(s.drop_first()) }
}

/// How many leading characters of `s` fit in `budget` bytes.
pub open spec fn fit_count(s: Seq<char>, budget: int) -> int
    decreases s.len(),
{
    if s.len() == 0 || char_utf8_len(s[0]) > budget {
        0
    } else {
        1 + fit_count(s.drop_first(), budget - char_utf8_len(s[0]))
    }
}

/// The position of the last `c` among the first `k` characters of `s`.
pub open spec fn last_index_before(s: Seq<char>, c: char, k: int) -> Option<int>
    decreases k,
{
    if k <= 0 {
        None
    } else if s[k - 1] == c {
        Some(k - 1)
    } else {
        last_index_before(s, c, k - 1)
    }
}

proof fn lemma_utf8_len_push(s: Seq<char>, c: char)
    ensures
        utf8_len(s.push(c)) == utf8_len(s) + char_utf8_len(c),
    decreases s.len(),
{
    let t = s.push(c);
    if s.len() > 0 {
        assert(t.drop_first() =~= s.drop_first().push(c));
        assert(t[0] == s[0]);
        lemma_utf8_len_push(s.drop_first(), c);
        assert(utf8_len(t) == char_utf8_len(t[0]) + utf8_len(t.drop_first()));
        assert(utf8_len(s) == char_utf8_len(s[0]) + utf8_len(s.drop_first()));
    } else {
        assert(t.drop_first() =~= Seq::<char>::empty());
        assert(t[0] == c);
        assert(utf8_len(t) == char_utf8_len(t[0]) + utf8_len(t.drop_first()));
        assert(utf8_len(Seq::<char>::empty()) == 0);
    }
}

pub proof fn lemma_utf8_len_nonneg(s: Seq<char>)
    ensures
        0 <= utf8_len(s),
    decreases s.len(),
{
    if s.len() > 0 {
        lemma_utf8_len_nonneg(s.drop_first());
    }
}

/// When some character does not fit, the whole text does not fit.
pub proof fn lemma_fit_count_le(s: Seq<char>, budget: int)
    requires
        0 <= budget,
    ensures
        fit_count(s, budget) == s.len() <==> utf8_len(s) <= budget,
    decreases s.len(),
{
    if s.len() > 0 {
        lemma_utf8_len_nonneg(s.drop_first());
        if char_utf8_len(s[0]) <= budget {
            lemma_fit_count_le(s.drop_first(), budget - char_utf8_len(s[0]));
            lemma_fit_count_bound(s.drop_first(), budget - char_utf8_len(s[0]));
        }
    }
}

pub proof fn lemma_fit_count_bound(s: Seq<char>, budget: int)
    ensures
        0 <= fit_count(s, budget) <= s.len(),
    decreases s.len(),
{
    if !(s.len() == 0 || char_utf8_len(s[0]) > budget) {
        lemma_fit_count_bound(s.drop_first(), budget - char_utf8_len(s[0]));
    }
}

fn utf8_width(c: char) -> (r: usize)
    ensures
        r == char_utf8_len(c),
{
    let u = c as u32;
    if u < 0x80 { 1 } else if u < 0x800 { 2 } else if u < 0x10000 { 3 } else { 4 }
}

/// The UTF-8 length of `s`, in bytes.
pub fn byte_len(s: &Vec<char>) -> (r: u128)
    ensures
        r == utf8_len(s@),
{
    let mut total: u128 = 0;
    let mut i: usize = 0;
    proof {
        assert(s@.take(0) =~= Seq::<char>::empty());
    }
    while i < s.len()
        invariant
            i <= s.len(),
            total == utf8_len(s@.take(i as int)),
            total <= 4 * i,
        decreases s.len() - i,
    {
        proof {
            assert(s@.take(i + 1) =~= s@.take(i as int).push(s@[i as int]));
            lemma_utf8_len_push(s@.take(i as int), s@[i as int]);
        }
        total = total + utf8_width(s[i]) as u128;
        i = i + 1;
    }
    proof {
        assert(s@.take(s.len() as int) =~= s@);
    }
    total
}

/// How many leading characters of `s` fit in `budget` bytes, and their
/// length in bytes.
pub fn fitting_prefix(s: &Vec<char>, budget: usize) -> (r: (usize, usize))
    ensures
        r.0 <= s.len(),
        r.0 == fit_count(s@, budget as int),
        r.1 == utf8_len(s@.take(r.0 as int)),
        r.1 <= budget,
{
    let mut k: usize = 0;
    let mut used: usize = 0;
    proof {
        assert(s@.skip(0) =~= s@);
        assert(s@.take(0) =~= Seq::<char>::empty());
    }
    while k < s.len() && utf8_width(s[k]) <= budget - used
        invariant
            k <= s.len(),
            used <= budget,
            used == utf8_len(s@.take(k as int)),
            fit_count(s@, budget as int) == k + fit_count(s@.skip(k as int), budget - used),
        decreases s.len() - k,
    {
        proof {
            assert(s@.skip(k as int).drop_first() =~= s@.skip(k + 1));
            assert(s@.skip(k as int)[0] == s@[k as int]);
            assert(s@.take(k + 1) =~= s@.take(k as int).push(s@[k as int]));
            lemma_utf8_len_push(s@.take(k as int), s@[k as int]);
        }
        used = used + utf8_width(s[k]);
        k = k + 1;
    }
    proof {
        if k < s.len() {
            assert(s@.skip(k as int)[0] == s@[k as int]);
        }
    }
    (k, used)
}

/// The position of the last `c` among the first `k` characters.
pub fn last_index_of(s: &Vec<char>, c: char, k: usize) -> (r: Option<usize>)
    requires
        k <= s.len(),
    ensures
        r matches Some(p) ==> p < k,
        match r {
            Some(p) => last_index_before(s@, c, k as int) == Some(p as int),
            None => last_index_before(s@, c, k as int) is None,
        },
{
    let mut j = k;
    while j > 0
        invariant
            j <= k <= s.len(),
            last_index_before(s@, c, k as int) == last_index_before(s@, c, j as int),
        decreases j,
    {
        if s[j - 1] == c {
            return Some(j - 1);
        }
        j = j - 1;
    }
    None
}

/// A found position lies among the characters searched.
pub proof fn lemma_last_index_bound(s: Seq<char>, c: char, k: int)
    ensures
        last_index_before(s, c, k) matches Some(p) ==> 0 <= p < k,
    decreases k,
{
    if k > 0 && s[k - 1] != c {
        lemma_last_index_bound(s, c, k - 1);
    }
}

/// The byte position of the last character that starts within the first
/// `max` bytes of `s` (0 for empty text): the first characters that fit in
/// the budget, less the last character when the whole text fits.
pub open spec fn last_char_start(s: Seq<char>, max: int) -> int {
    let k = fit_count(s, max);
    if s.len() == 0 {
        0
    } else if k < s.len() {
        utf8_len(s.take(k))
    } else {
        utf8_len(s.take(s.len() - 1))
    }
}

/// The byte position of the last character of `s` that starts at or before
/// byte `max`.
pub fn floor_char_boundary(s: &str, max: usize) -> (r: usize)
    ensures
        r == last_char_start(s@, max as int),
        r <= max,
{
    let cs = crate::text::chars_of(s);
    let (k, used) = fitting_prefix(&cs, max);
    proof {
        lemma_fit_count_bound(cs@, max as int);
    }
    if cs.len() == 0 {
        0
    } else if k < cs.len() {
        used
    } else {
        let n = cs.len() - 1;
        proof {
            assert(k == cs.len());
            assert(cs@.take(k as int) =~= cs@.take(n as int).push(cs@[n as int]));
            lemma_utf8_len_push(cs@.take(n as int), cs@[n as int]);
            lemma_utf8_len_nonneg(cs@.take(n as int));
        }
        let w = utf8_width(cs[n]);
        used - w
    }
}

} // verus!

verus! {

/// Dropping the markup leaves no angle bracket behind.
pub proof fn lemma_drop_tags_removes_brackets(s: Seq<char>, in_tag: bool)
    ensures
        forall|i: int| 0 <= i < drop_tags(s, in_tag).len()
            ==> #[trigger] drop_tags(s, in_tag)[i] != '<' && drop_tags(s, in_tag)[i] != '>',
    decreases s.len(),
{
    if s.len() > 0 {
        let next = s[0] == '<' || (s[0] != '>' && in_tag);
        lemma_drop_tags_removes_brackets(s.drop_first(), next);
        if s[0] == '<' || s[0] == '>' || in_tag {
            assert(drop_tags(s, in_tag) == drop_tags(s.drop_first(), next));
        } else {
            let rest = drop_tags(s.drop_first(), false);
            assert forall|i: int| 0 <= i < drop_tags(s, in_tag).len()
                implies #[trigger] drop_tags(s, in_tag)[i] != '<' && drop_tags(s, in_tag)[i] != '>' by {
                if i > 0 {
                    assert(drop_tags(s, in_tag)[i] == rest[i - 1]);
                }
            }
        }
    }
}

/// The characters that fit a budget take at most that many bytes.
pub proof fn lemma_fit_prefix_within_budget(s: Seq<char>, budget: int)
    ensures
        utf8_len(s.take(fit_count(s, budget))) <= (if budget < 0 { 0 } else { budget }),
    decreases s.len(),
{
    let k = fit_count(s, budget);
    if s.len() == 0 || char_utf8_len(s[0]) > budget {
        assert(s.take(0) =~= Seq::<char>::empty());
    } else {
        let w = char_utf8_len(s[0]);
        lemma_fit_prefix_within_budget(s.drop_first(), budget - w);
        lemma_fit_count_bound(s.drop_first(), budget - w);
        assert(s.take(k).drop_first() =~= s.drop_first().take(k - 1));
        assert(s.take(k)[0] == s[0]);
    }
}

/// A shorter prefix takes no more bytes.
pub proof fn lemma_prefix_bytes_grow(s: Seq<char>, p: int, k: int)
    requires
        0 <= p <= k <= s.len(),
    ensures
        utf8_len(s.take(p)) <= utf8_len(s.take(k)),
    decreases p,
{
    if p > 0 {
        assert(s.take(p).drop_first() =~= s.drop_first().take(p - 1));
        assert(s.take(k).drop_first() =~= s.drop_first().take(k - 1));
        lemma_prefix_bytes_grow(s.drop_first(), p - 1, k - 1);
    } else {
        assert(s.take(0) =~= Seq::<char>::empty());
        lemma_utf8_len_nonneg(s.take(k));
    }
}

} // verus!

verus! {

/// The byte count used here is the length of the UTF-8 encoding, which is
/// what `str::len` gives.
pub proof fn lemma_utf8_len_is_encoding_len(s: Seq<char>)
    ensures
        utf8_len(s) == vstd::utf8::encode_utf8(s).len(),
    decreases s.len(),
{
    if s.len() > 0 {
        vstd::utf8::char_is_scalar(s[0]);
        lemma_utf8_len_is_encoding_len(s.drop_first());
    }
}

} // verus!
