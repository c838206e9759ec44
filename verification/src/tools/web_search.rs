//! The decisions of the `web_search` tool: which search API it uses and
//! with which key, how the hits are rendered as text, and what the answer
//! cites. The
//! request to the search API is the caller's.

use vstd::prelude::*;
use crate::tool::{ToolContext, ToolOutput};
use crate::text::nat_text;

verus! {

/// The Brave web search endpoint.
pub const BRAVE_SEARCH_ENDPOINT: &'static str = "https://api.search.brave.com/res/v1/web/search";
/// How many hits to ask for when the call does not say.
pub const DEFAULT_MAX_RESULTS: u64 = 5;

/// How many hits to ask for when the call does not say.
pub fn default_max_results() -> (r: u64)
    ensures
        r == DEFAULT_MAX_RESULTS,
{
    DEFAULT_MAX_RESULTS
}

/// The API key: the context's `brave_api_key` string, else the value of the
/// `BRAVE_API_KEY` environment variable as read by the caller.
pub fn resolve_api_key(ctx: &ToolContext, env_key: Option<String>) -> (r: Option<String>)
    ensures
        match crate::json::lookup(ctx.extra@, "brave_api_key"@) {
            Some(crate::json::JsonSpec::Str(k)) => r matches Some(s) && s@ == k,
            _ => r == env_key,
        },
{
    match ctx.get_str("brave_api_key") {
        Some(k) => Some(k.to_string()),
        None => env_key,
    }
}

/// The error when no API key is configured.
pub fn missing_key_error() -> (r: ToolOutput)
    ensures
        crate::tool::answers(r, Err("Brave Search API key is not configured. Set it via ctx.extra[\"brave_api_key\"] or the BRAVE_API_KEY environment variable."@)),
{
    ToolOutput::error("Brave Search API key is not configured. Set it via ctx.extra[\"brave_api_key\"] or the BRAVE_API_KEY environment variable.")
}

/// The Tavily search endpoint.
pub const TAVILY_SEARCH_ENDPOINT: &'static str = "https://api.tavily.com/search";

/// The search APIs the tool can use.
#[derive(Debug, Clone, Copy, PartialEq, Eq, Structural)]
pub enum SearchProvider {
    Tavily,
    Brave,
}

/// Whether `s` spells the word whose lower-case form is `lower` and
/// upper-case form is `upper`, each letter in either case.
pub open spec fn spells_either_case(s: Seq<char>, lower: Seq<char>, upper: Seq<char>) -> bool {
    s.len() == lower.len() && forall|i: int| 0 <= i < s.len() ==>
        (#[trigger] s[i] == lower[i] || s[i] == upper[i])
}

fn spells_word(s: &str, lower: &str, upper: &str) -> (r: bool)
    requires
        lower@.len() == upper@.len(),
    ensures
        r == spells_either_case(s@, lower@, upper@),
{
    let a = crate::text::chars_of(s);
    let lo = crate::text::chars_of(lower);
    let up = crate::text::chars_of(upper);
    if a.len() != lo.len() {
        return false;
    }
    let mut i: usize = 0;
    while i < a.len()
        invariant
            a@ == s@,
            lo@ == lower@,
            up@ == upper@,
            a.len() == lo.len(),
            lo.len() == up.len(),
            i <= a.len(),
            forall|j: int| 0 <= j < i ==> (#[trigger] a@[j] == lo@[j] || a@[j] == up@[j]),
        decreases a.len() - i,
    {
        if !(a[i] == lo[i] || a[i] == up[i]) {
            return false;
        }
        i = i + 1;
    }
    true
}

/// The provider a `SEARCH_PROVIDER` setting forces: `tavily` or `brave`,
/// each letter in either case; anything else, or no setting, forces none.
pub open spec fn forced_provider(setting: Option<Seq<char>>) -> Option<SearchProvider> {
    match setting {
        Some(x) => if spells_either_case(x, "tavily"@, "TAVILY"@) {
            Some(SearchProvider::Tavily)
        } else if spells_either_case(x, "brave"@, "BRAVE"@) {
            Some(SearchProvider::Brave)
        } else {
            None
        },
        None => None,
    }
}

/// The provider the setting forces, if any.
pub fn requested_provider(setting: &Option<String>) -> (r: Option<SearchProvider>)
    ensures
        r == forced_provider(match setting { Some(x) => Some(x@), None => None }),
{
    proof {
        reveal_strlit("tavily");
        reveal_strlit("TAVILY");
        reveal_strlit("brave");
        reveal_strlit("BRAVE");
    }
    match setting {
        Some(x) => if spells_word(x.as_str(), "tavily", "TAVILY") {
            Some(SearchProvider::Tavily)
        } else if spells_word(x.as_str(), "brave", "BRAVE") {
            Some(SearchProvider::Brave)
        } else {
            None
        },
        None => None,
    }
}

/// The message when the forced Tavily provider has no key.
pub open spec fn tavily_key_missing() -> Seq<char> {
    "Tavily API key is not configured. Set the TAVILY_API_KEY environment variable."@
}

/// The message when the forced Brave provider has no key.
pub open spec fn brave_key_missing() -> Seq<char> {
    "Brave Search API key is not configured. Set it via ctx.extra[\"brave_api_key\"] or the BRAVE_API_KEY environment variable."@
}

/// The message when no provider has a key.
pub open spec fn no_key_configured() -> Seq<char> {
    "Search API key is not configured. Set TAVILY_API_KEY for Tavily, or BRAVE_API_KEY (or ctx.extra[\"brave_api_key\"]) for Brave."@
}

/// The provider and key a search uses: the forced provider with its key;
/// without one forced, Tavily when it has a key (it is preferred), else
/// Brave when it has one. Each way to have no key has its message.
pub open spec fn provider_choice(forced: Option<SearchProvider>, tavily: Option<Seq<char>>, brave: Option<Seq<char>>) -> Result<(SearchProvider, Seq<char>), Seq<char>> {
    match forced {
        Some(SearchProvider::Tavily) => match tavily {
            Some(k) => Ok((SearchProvider::Tavily, k)),
            None => Err(tavily_key_missing()),
        },
        Some(SearchProvider::Brave) => match brave {
            Some(k) => Ok((SearchProvider::Brave, k)),
            None => Err(brave_key_missing()),
        },
        None => match tavily {
            Some(k) => Ok((SearchProvider::Tavily, k)),
            None => match brave {
                Some(k) => Ok((SearchProvider::Brave, k)),
                None => Err(no_key_configured()),
            },
        },
    }
}

/// The Brave key the context and environment give (see [`resolve_api_key`]).
pub open spec fn brave_key(ctx: ToolContext, env_key: Option<String>) -> Option<Seq<char>> {
    match crate::json::lookup(ctx.extra@, "brave_api_key"@) {
        Some(crate::json::JsonSpec::Str(k)) => Some(k),
        _ => match env_key {
            Some(k) => Some(k@),
            None => None,
        },
    }
}

/// Chooses the search provider and its key from the `SEARCH_PROVIDER`,
/// `TAVILY_API_KEY` and `BRAVE_API_KEY` settings as read by the caller and
/// the context's `brave_api_key`; the error is the answer's message.
pub fn choose_provider(ctx: &ToolContext, setting: Option<String>, tavily_env: Option<String>, brave_env: Option<String>) -> (r: Result<(SearchProvider, String), String>)
    ensures
        match provider_choice(
            forced_provider(match setting { Some(x) => Some(x@), None => None }),
            match tavily_env { Some(k) => Some(k@), None => None },
            brave_key(*ctx, brave_env),
        ) {
            Ok((p, k)) => r matches Ok((q, key)) && q == p && key@ == k,
            Err(m) => r matches Err(e) && e@ == m,
        },
{
    let forced = requested_provider(&setting);
    let brave = resolve_api_key(ctx, brave_env);
    match forced {
        Some(SearchProvider::Tavily) => match tavily_env {
            Some(k) => Ok((SearchProvider::Tavily, k)),
            None => Err(String::from_str("Tavily API key is not configured. Set the TAVILY_API_KEY environment variable.")),
        },
        Some(SearchProvider::Brave) => match brave {
            Some(k) => Ok((SearchProvider::Brave, k)),
            None => Err(String::from_str("Brave Search API key is not configured. Set it via ctx.extra[\"brave_api_key\"] or the BRAVE_API_KEY environment variable.")),
        },
        None => match tavily_env {
            Some(k) => Ok((SearchProvider::Tavily, k)),
            None => match brave {
                Some(k) => Ok((SearchProvider::Brave, k)),
                None => Err(String::from_str("Search API key is not configured. Set TAVILY_API_KEY for Tavily, or BRAVE_API_KEY (or ctx.extra[\"brave_api_key\"]) for Brave.")),
            },
        },
    }
}

/// The endpoint of a provider.
pub fn search_endpoint(p: SearchProvider) -> (r: &'static str)
    ensures
        r@ == (match p {
            SearchProvider::Tavily => TAVILY_SEARCH_ENDPOINT@,
            SearchProvider::Brave => BRAVE_SEARCH_ENDPOINT@,
        }),
{
    match p {
        SearchProvider::Tavily => TAVILY_SEARCH_ENDPOINT,
        SearchProvider::Brave => BRAVE_SEARCH_ENDPOINT,
    }
}

/// The name a provider's errors carry: `Tavily Search` or `Brave Search`.
pub fn provider_label(p: SearchProvider) -> (r: &'static str)
    ensures
        r@ == (match p {
            SearchProvider::Tavily => "Tavily Search"@,
            SearchProvider::Brave => "Brave Search"@,
        }),
{
    match p {
        SearchProvider::Tavily => "Tavily Search",
        SearchProvider::Brave => "Brave Search",
    }
}

/// One search hit.
#[derive(Debug)]
pub struct SearchHit {
    pub title: String,
    pub url: String,
    pub description: Option<String>,
}

/// A hit's description, empty when it has none.
pub open spec fn description_of(h: SearchHit) -> Seq<char> {
    match h.description {
        Some(d) => d@,
        None => Seq::empty(),
    }
}

/// The text of the first `n` hits: each numbered from 1, with its URL and
/// description indented below it and a blank line after.
pub open spec fn hits_text(hits: Seq<SearchHit>, n: int) -> Seq<char>
    decreases n,
{
    if n <= 0 {
        Seq::empty()
    } else {
        hits_text(hits, n - 1) + nat_text(n as nat) + ". "@ + hits[n - 1].title@ + "\n   "@
            + hits[n - 1].url@ + "\n   "@ + description_of(hits[n - 1]) + "\n\n"@
    }
}

/// The answer text: the number of hits, then the hits, without surrounding
/// white space.
pub open spec fn search_text(hits: Seq<SearchHit>) -> Seq<char> {
    crate::text::trim("Found "@ + nat_text(hits.len() as nat) + " results:\n\n"@ + hits_text(hits, hits.len() as int))
}

/// The hits' URLs separated by `, `.
pub open spec fn joined_urls(hits: Seq<SearchHit>, n: int) -> Seq<char>
    decreases n,
{
    if n <= 0 {
        Seq::empty()
    } else if n == 1 {
        hits[0].url@
    } else {
        joined_urls(hits, n - 1) + ", "@ + hits[n - 1].url@
    }
}

/// The text the tool answers with for these hits.
pub fn format_hits(hits: &Vec<SearchHit>) -> (r: String)
    ensures
        r@ == search_text(hits@),
{
    let mut text = String::from_str("Found ");
    crate::text::push_decimal(&mut text, hits.len() as u64);
    text.append(" results:\n\n");
    let ghost head = text@;
    let mut i: usize = 0;
    while i < hits.len()
        invariant
            i <= hits.len(),
            text@ == head + hits_text(hits@, i as int),
        decreases hits.len() - i,
    {
        crate::text::push_decimal(&mut text, (i + 1) as u64);
        text.append(". ");
        text.append(hits[i].title.as_str());
        text.append("\n   ");
        text.append(hits[i].url.as_str());
        text.append("\n   ");
        match &hits[i].description {
            Some(d) => text.append(d.as_str()),
            None => {
                assert(text@ + description_of(hits@[i as int]) =~= text@);
            },
        }
        text.append("\n\n");
        proof {
            assert(text@ =~= head + hits_text(hits@, i + 1));
        }
        i = i + 1;
    }
    crate::text::trim_text(text.as_str())
}

/// The hits' URLs separated by `, `.
pub fn citation_of(hits: &Vec<SearchHit>) -> (r: String)
    ensures
        r@ == joined_urls(hits@, hits@.len() as int),
{
    let mut out = String::new();
    let mut i: usize = 0;
    while i < hits.len()
        invariant
            i <= hits.len(),
            out@ == joined_urls(hits@, i as int),
        decreases hits.len() - i,
    {
        if i > 0 {
            out.append(", ");
        }
        out.append(hits[i].url.as_str());
        proof {
            if i == 0 {
                assert(out@ =~= joined_urls(hits@, 1));
            }
        }
        i = i + 1;
    }
    out
}

/// The answer for the hits: their text, with the time the search took,
/// cited to their URLs unless that list is empty.
pub fn search_output(hits: &Vec<SearchHit>, duration_ms: u64) -> (r: ToolOutput)
    ensures
        r.content@.len() == 1,
        r.content@[0] matches crate::tool::ContentBlock::Text { text: t } && t@ == search_text(hits@),
        !r.is_error,
        !r.inject_to_context,
        r.duration_ms == Some(duration_ms),
        joined_urls(hits@, hits@.len() as int).len() == 0 ==> r.citation is None,
        joined_urls(hits@, hits@.len() as int).len() > 0
            ==> (r.citation matches Some(c) && c@ == joined_urls(hits@, hits@.len() as int)),
{
    let text = format_hits(hits);
    let citation = citation_of(hits);
    let out = ToolOutput::text(text.as_str()).with_duration(duration_ms);
    if citation.as_str().is_empty() {
        out
    } else {
        out.with_citation(citation.as_str())
    }
}

} // verus!
