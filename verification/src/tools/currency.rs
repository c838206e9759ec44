//! The parts of the money tools that are not arithmetic on rates: reading
//! the currency codes of a request, where the API key comes from, and the
//! errors for unknown codes. Rates are floating-point values and stay with
//! the caller.

use vstd::prelude::*;
use crate::tool::{ToolContext, ToolOutput};
use crate::text::trim;

verus! {

/// What `str::to_uppercase` gives for a text.
pub uninterp spec fn uppercase(s: Seq<char>) -> Seq<char>;

/// `str::to_uppercase`. Besides naming the answer, the contract states
/// that the answer is empty exactly when the text is: each character maps
/// to one or more characters.
#[verifier::external_body]
fn to_upper(s: &str) -> (r: String)
    ensures
        r@ == uppercase(s@),
        r@.len() == 0 <==> s@.len() == 0,
{
    s.to_uppercase()
}

/// The position of the first `c` in `s` (its length if none).
pub open spec fn index_of(s: Seq<char>, c: char) -> int
    decreases s.len(),
{
    if s.len() == 0 {
        0
    } else if s[0] == c {
        0
    } else {
        1 + index_of(s.drop_first(), c)
    }
}

pub proof fn lemma_index_of_bound(s: Seq<char>, c: char)
    ensures
        0 <= index_of(s, c) <= s.len(),
        index_of(s, c) < s.len() ==> s[index_of(s, c)] == c,
    decreases s.len(),
{
    if s.len() > 0 && s[0] != c {
        lemma_index_of_bound(s.drop_first(), c);
    }
}

/// The pieces of `s` between the separators `c` (what `str::split` gives:
/// one more piece than separators).
pub open spec fn split_on(s: Seq<char>, c: char) -> Seq<Seq<char>>
    decreases s.len(),
{
    let i = index_of(s, c);
    if i >= s.len() {
        seq![s]
    } else {
        proof {
            lemma_index_of_bound(s, c);
        }
        seq![s.take(i)] + split_on(s.skip(i + 1), c)
    }
}

/// The currency codes among pieces: each trimmed and upper-cased, the
/// blank ones left out.
pub open spec fn codes_of(pieces: Seq<Seq<char>>) -> Seq<Seq<char>>
    decreases pieces.len(),
{
    if pieces.len() == 0 {
        Seq::empty()
    } else {
        let piece = trim(pieces.last());
        let rest = codes_of(pieces.drop_last());
        if piece.len() == 0 { rest } else { rest.push(uppercase(piece)) }
    }
}

/// The texts of a list of strings.
pub open spec fn texts_of(v: Seq<String>) -> Seq<Seq<char>> {
    Seq::new(v.len(), |i: int| v[i]@)
}

/// The pieces of `s` between commas.
fn split_commas(s: &str) -> (r: Vec<String>)
    ensures
        texts_of(r@) == split_on(s@, ','),
{
    let cs = crate::text::chars_of(s);
    let mut pieces: Vec<String> = Vec::new();
    let mut start: usize = 0;
    let mut i: usize = 0;
    proof {
        assert(s@.skip(0) =~= s@);
        assert(texts_of(pieces@) =~= Seq::<Seq<char>>::empty());
    }
    while i < cs.len()
        invariant
            cs@ == s@,
            start <= i <= cs.len(),
            forall|k: int| start <= k < i ==> cs@[k] != ',',
            texts_of(pieces@) + split_on(s@.skip(start as int), ',') == split_on(s@, ','),
        decreases cs.len() - i,
    {
        if cs[i] == ',' {
            let ghost rest = s@.skip(start as int);
            proof {
                lemma_index_of_first(rest, ',', i - start);
                assert(rest.take(i - start) =~= cs@.subrange(start as int, i as int));
                assert(rest.skip(i - start + 1) =~= s@.skip(i + 1));
            }
            let piece = crate::text::string_of(&cs, start, i);
            let ghost before = texts_of(pieces@);
            pieces.push(piece);
            proof {
                assert(texts_of(pieces@) =~= before.push(piece@));
                assert(split_on(rest, ',') == seq![rest.take(i - start)] + split_on(rest.skip(i - start + 1), ','));
                assert(before.push(piece@) + split_on(s@.skip(i + 1), ',') =~= before + (seq![piece@] + split_on(s@.skip(i + 1), ',')));
            }
            start = i + 1;
        }
        i = i + 1;
    }
    let ghost rest = s@.skip(start as int);
    proof {
        lemma_index_of_none(rest, ',');
        assert(rest =~= cs@.subrange(start as int, cs.len() as int));
    }
    let piece = crate::text::string_of(&cs, start, cs.len());
    let ghost before = texts_of(pieces@);
    pieces.push(piece);
    proof {
        assert(texts_of(pieces@) =~= before.push(piece@));
        assert(before.push(piece@) =~= before + seq![rest]);
    }
    pieces
}

proof fn lemma_index_of_first(s: Seq<char>, c: char, k: int)
    requires
        0 <= k < s.len(),
        s[k] == c,
        forall|j: int| 0 <= j < k ==> s[j] != c,
    ensures
        index_of(s, c) == k,
    decreases k,
{
    if k > 0 {
        lemma_index_of_first(s.drop_first(), c, k - 1);
    }
}

proof fn lemma_index_of_none(s: Seq<char>, c: char)
    requires
        forall|j: int| 0 <= j < s.len() ==> s[j] != c,
    ensures
        index_of(s, c) == s.len(),
    decreases s.len(),
{
    if s.len() > 0 {
        lemma_index_of_none(s.drop_first(), c);
    }
}

/// What a conversion request names: the base code (trimmed and upper-cased)
/// and the target codes, or the error when there are no targets.
pub open spec fn request_codes(from: Seq<char>, to: Seq<char>) -> Result<(Seq<char>, Seq<Seq<char>>), Seq<char>> {
    let targets = codes_of(split_on(to, ','));
    if targets.len() == 0 {
        Err("No target currency specified in 'to' field."@)
    } else {
        Ok((uppercase(trim(from)), targets))
    }
}

/// The base and target currency codes of a request: `to` may list several
/// codes separated by commas.
pub fn parse_codes(from: &str, to: &str) -> (r: Result<(String, Vec<String>), String>)
    ensures
        match r {
            Ok((b, t)) => request_codes(from@, to@) == Ok::<(Seq<char>, Seq<Seq<char>>), Seq<char>>((b@, texts_of(t@))),
            Err(e) => request_codes(from@, to@) == Err::<(Seq<char>, Seq<Seq<char>>), Seq<char>>(e@),
        },
        r matches Ok((_, t)) ==> forall|i: int| 0 <= i < t@.len() ==> (#[trigger] t@[i])@.len() > 0,
{
    let base = to_upper(crate::text::trim_text(from).as_str());
    let pieces = split_commas(to);
    let mut targets: Vec<String> = Vec::new();
    let mut i: usize = 0;
    proof {
        assert(texts_of(pieces@).take(0) =~= Seq::<Seq<char>>::empty());
        assert(texts_of(targets@) =~= Seq::<Seq<char>>::empty());
    }
    while i < pieces.len()
        invariant
            i <= pieces.len(),
            texts_of(targets@) == codes_of(texts_of(pieces@).take(i as int)),
            forall|k: int| 0 <= k < targets@.len() ==> (#[trigger] targets@[k])@.len() > 0,
        decreases pieces.len() - i,
    {
        let code = to_upper(crate::text::trim_text(pieces[i].as_str()).as_str());
        proof {
            assert(texts_of(pieces@).take(i + 1).drop_last() =~= texts_of(pieces@).take(i as int));
            assert(texts_of(pieces@).take(i + 1).last() == pieces@[i as int]@);
        }
        if !code.as_str().is_empty() {
            let ghost before = texts_of(targets@);
            targets.push(code);
            proof {
                assert(texts_of(targets@) =~= before.push(code@));
            }
        }
        i = i + 1;
    }
    proof {
        assert(texts_of(pieces@).take(pieces.len() as int) =~= texts_of(pieces@));
    }
    if targets.len() == 0 {
        Err(String::from_str("No target currency specified in 'to' field."))
    } else {
        Ok((base, targets))
    }
}

/// The error for a target code without a rate.
pub fn unknown_code_error(base: &str, target: &str) -> (r: ToolOutput)
    ensures
        crate::tool::answers(r, Err("Unknown currency code: "@ + target@ + ". Could not find rate for "@ + base@
            + " -> "@ + target@ + "."@)),
{
    let mut m = String::from_str("Unknown currency code: ");
    m.append(target);
    m.append(". Could not find rate for ");
    m.append(base);
    m.append(" -> ");
    m.append(target);
    m.append(".");
    ToolOutput::error(m.as_str())
}

/// The exchange-rate API key: the context's `exchange_rate_api_key` string,
/// else the `EXCHANGE_RATE_API_KEY` environment variable as read by the
/// caller.
pub fn resolve_api_key(ctx: &ToolContext, env_key: Option<String>) -> (r: Option<String>)
    ensures
        match crate::json::lookup(ctx.extra@, "exchange_rate_api_key"@) {
            Some(crate::json::JsonSpec::Str(k)) => r matches Some(s) && s@ == k,
            _ => r == env_key,
        },
{
    match ctx.get_str("exchange_rate_api_key") {
        Some(k) => Some(k.to_string()),
        None => env_key,
    }
}

/// A currency code as a request writes it, normalised: trimmed and
/// upper-cased.
pub open spec fn norm_code(s: Seq<char>) -> Seq<char> {
    uppercase(trim(s))
}

/// The distinct codes of `codes`, each once, in order of first use.
pub open spec fn distinct_codes(codes: Seq<Seq<char>>) -> Seq<Seq<char>>
    decreases codes.len(),
{
    if codes.len() == 0 {
        Seq::empty()
    } else {
        let before = distinct_codes(codes.drop_last());
        if before.contains(codes.last()) { before } else { before.push(codes.last()) }
    }
}

/// The plan of a cost calculation, before any rate: refused when there are
/// no items; else the normalised target, each item's normalised currency,
/// and the distinct item currencies, whose rates are each obtained once.
pub open spec fn cost_plan(target: Seq<char>, currencies: Seq<Seq<char>>) -> Result<(Seq<char>, Seq<Seq<char>>, Seq<Seq<char>>), Seq<char>> {
    if currencies.len() == 0 {
        Err("Items list must not be empty."@)
    } else {
        let codes = Seq::new(currencies.len(), |i: int| norm_code(currencies[i]));
        Ok((norm_code(target), codes, distinct_codes(codes)))
    }
}

/// Plans a cost calculation from its target currency and its items'
/// currencies (see [`cost_plan`]).
pub fn plan_costs(target: &str, currencies: &Vec<String>) -> (r: Result<(String, Vec<String>, Vec<String>), String>)
    ensures
        match r {
            Ok((t, codes, fetch)) => cost_plan(target@, texts_of(currencies@))
                == Ok::<(Seq<char>, Seq<Seq<char>>, Seq<Seq<char>>), Seq<char>>((t@, texts_of(codes@), texts_of(fetch@))),
            Err(e) => cost_plan(target@, texts_of(currencies@))
                == Err::<(Seq<char>, Seq<Seq<char>>, Seq<Seq<char>>), Seq<char>>(e@),
        },
{
    if currencies.len() == 0 {
        return Err(String::from_str("Items list must not be empty."));
    }
    let t = to_upper(crate::text::trim_text(target).as_str());
    let ghost all = Seq::new(currencies@.len(), |i: int| norm_code(texts_of(currencies@)[i]));
    let mut codes: Vec<String> = Vec::new();
    let mut fetch: Vec<String> = Vec::new();
    let mut i: usize = 0;
    while i < currencies.len()
        invariant
            i <= currencies.len(),
            all.len() == currencies.len(),
            forall|k: int| 0 <= k < currencies.len() ==> #[trigger] all[k] == norm_code(currencies@[k]@),
            texts_of(codes@) == all.take(i as int),
            texts_of(fetch@) == distinct_codes(all.take(i as int)),
        decreases currencies.len() - i,
    {
        let code = to_upper(crate::text::trim_text(currencies[i].as_str()).as_str());
        let ghost before = texts_of(fetch@);
        let mut seen = false;
        let mut j: usize = 0;
        while j < fetch.len()
            invariant
                j <= fetch.len(),
                seen == (exists|k: int| 0 <= k < j && #[trigger] fetch@[k]@ == code@),
            decreases fetch.len() - j,
        {
            if crate::text::str_eq(fetch[j].as_str(), code.as_str()) {
                seen = true;
            }
            j = j + 1;
        }
        proof {
            assert(all.take(i + 1).drop_last() =~= all.take(i as int));
            assert(all.take(i + 1).last() == code@);
            if seen {
                let k = choose|k: int| 0 <= k < fetch.len() && #[trigger] fetch@[k]@ == code@;
                assert(before[k] == code@);
            } else {
                assert forall|k: int| 0 <= k < before.len() implies before[k] != code@ by {
                    assert(before[k] == fetch@[k]@);
                }
            }
        }
        if !seen {
            fetch.push(code.clone());
            proof {
                assert(texts_of(fetch@) =~= before.push(code@));
            }
        }
        let ghost cb = texts_of(codes@);
        codes.push(code);
        proof {
            assert(texts_of(codes@) =~= cb.push(all[i as int]));
            assert(all.take(i + 1) =~= all.take(i as int).push(all[i as int]));
        }
        i = i + 1;
    }
    proof {
        assert(all.take(currencies.len() as int) =~= all);
        assert(all =~= Seq::new(texts_of(currencies@).len(), |k: int| norm_code(texts_of(currencies@)[k])));
    }
    Ok((t, codes, fetch))
}

/// Whether a rate from `from` to `to` needs a lookup: not between a code
/// and itself, whose rate is 1.
pub fn needs_rate_lookup(from: &str, to: &str) -> (r: bool)
    ensures
        r == (from@ != to@),
{
    !crate::text::str_eq(from, to)
}

/// The error when converting `from` to `to` failed with `msg`.
pub fn conversion_error(from: &str, to: &str, msg: &str) -> (r: String)
    ensures
        r@ == "Failed to convert "@ + from@ + " -> "@ + to@ + ": "@ + msg@,
{
    let mut m = String::from_str("Failed to convert ");
    m.append(from);
    m.append(" -> ");
    m.append(to);
    m.append(": ");
    m.append(msg);
    m
}

/// The primary exchange-rate API.
pub const PRIMARY_RATES_API: &'static str = "https://open.er-api.com/v6/latest";
/// The exchange-rate API tried when the primary one fails.
pub const FALLBACK_RATES_API: &'static str = "https://api.exchangerate-api.com/v4/latest";
/// How long fetched rates are reused, in seconds.
pub const CACHE_TTL_SECS: u64 = 3600;

/// The rate URLs for a base currency: the primary API's, then the
/// fallback's, each followed by `/` and the base code.
pub fn rate_urls(base: &str) -> (r: (String, String))
    ensures
        r.0@ == PRIMARY_RATES_API@ + "/"@ + base@,
        r.1@ == FALLBACK_RATES_API@ + "/"@ + base@,
{
    let mut a = String::from_str(PRIMARY_RATES_API);
    a.append("/");
    a.append(base);
    let mut b = String::from_str(FALLBACK_RATES_API);
    b.append("/");
    b.append(base);
    (a, b)
}

/// The error when neither API gave rates; `last` is the fallback's error.
pub fn rates_fetch_error(last: &str) -> (r: String)
    ensures
        r@ == "Failed to fetch rates from both APIs. Last error: "@ + last@,
{
    let mut m = String::from_str("Failed to fetch rates from both APIs. Last error: ");
    m.append(last);
    m
}

/// Whether cached rates fetched `elapsed_nanos` nanoseconds ago are too old
/// to reuse: older than the cache's lifetime.
pub fn cache_expired(elapsed_nanos: u128) -> (r: bool)
    ensures
        r == (elapsed_nanos > CACHE_TTL_SECS * 1_000_000_000),
{
    elapsed_nanos > 3_600_000_000_000u128
}

/// Whether a conversion answers with one object rather than an array: when
/// it has exactly one result.
pub fn single_result(n: usize) -> (r: bool)
    ensures
        r == (n == 1),
{
    n == 1
}

/// The currency totals are reported in when a request names none.
pub fn default_target_currency() -> (r: String)
    ensures
        r@ == "TWD"@,
{
    String::from_str("TWD")
}

} // verus!

verus! {

/// A list of codes yields none exactly when every entry is blank.
pub proof fn lemma_no_codes_iff_all_blank(pieces: Seq<Seq<char>>)
    ensures
        codes_of(pieces).len() == 0 <==> forall|j: int| 0 <= j < pieces.len() ==> #[trigger] trim(pieces[j]).len() == 0,
    decreases pieces.len(),
{
    if pieces.len() > 0 {
        let init = pieces.drop_last();
        lemma_no_codes_iff_all_blank(init);
        assert forall|j: int| 0 <= j < init.len() implies #[trigger] init[j] == pieces[j] by {}
        if codes_of(pieces).len() == 0 {
            assert forall|j: int| 0 <= j < pieces.len() implies #[trigger] trim(pieces[j]).len() == 0 by {
                if j < init.len() {
                    assert(trim(init[j]).len() == 0);
                }
            }
        }
        if forall|j: int| 0 <= j < pieces.len() ==> #[trigger] trim(pieces[j]).len() == 0 {
            assert(trim(pieces[pieces.len() - 1]).len() == 0);
            assert forall|j: int| 0 <= j < init.len() implies #[trigger] trim(init[j]).len() == 0 by {
                assert(trim(pieces[j]).len() == 0);
            }
        }
    }
}

/// A `to` field whose every comma-separated entry is blank is refused with
/// `No target currency specified in 'to' field.`; one with a non-blank
/// entry is not.
pub proof fn lemma_blank_targets_refused(from: Seq<char>, to: Seq<char>)
    ensures
        (forall|j: int| 0 <= j < split_on(to, ',').len() ==> #[trigger] trim(split_on(to, ',')[j]).len() == 0)
            <==> request_codes(from, to) == Err::<(Seq<char>, Seq<Seq<char>>), Seq<char>>(
                "No target currency specified in 'to' field."@),
{
    lemma_no_codes_iff_all_blank(split_on(to, ','));
}

} // verus!
