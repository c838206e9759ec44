//! What the web-facing tools decide before and after a request: the URL
//! scheme, the host and port to resolve, which resolved addresses are
//! refused (private and reserved ranges), and the size limits on a body.

use vstd::prelude::*;

verus! {

// ---------------------------------------------------------------------------
// Addresses
// ---------------------------------------------------------------------------

/// An IP address.
#[derive(Debug, Clone, Copy, PartialEq, Eq, Structural)]
pub enum IpAddress {
    /// Four octets, most significant first.
    V4(u8, u8, u8, u8),
    /// Eight 16-bit segments, most significant first.
    V6(u16, u16, u16, u16, u16, u16, u16, u16),
}

/// Whether `ip` is loopback, private, link-local or unspecified (IPv4:
/// 127.0.0.0/8, 10.0.0.0/8, 172.16.0.0/12, 192.168.0.0/16, 169.254.0.0/16,
/// 0.0.0.0), or loopback or unspecified (IPv6: `::1`, `::`), the ranges of
/// `Ipv4Addr::is_loopback`, `is_private`, `is_link_local`, `is_unspecified`
/// and `Ipv6Addr::is_loopback`, `is_unspecified`.
pub open spec fn private_ip(ip: IpAddress) -> bool {
    match ip {
        IpAddress::V4(a, b, c, d) => {
            ||| a == 127
            ||| a == 10
            ||| (a == 172 && 16 <= b <= 31)
            ||| (a == 192 && b == 168)
            ||| (a == 169 && b == 254)
            ||| (a == 0 && b == 0 && c == 0 && d == 0)
        },
        IpAddress::V6(s0, s1, s2, s3, s4, s5, s6, s7) => {
            &&& s0 == 0 && s1 == 0 && s2 == 0 && s3 == 0 && s4 == 0 && s5 == 0 && s6 == 0
            &&& (s7 == 0 || s7 == 1)
        },
    }
}

/// Whether `ip` is in a private or reserved range.
pub fn is_private_ip(ip: IpAddress) -> (r: bool)
    ensures
        r == private_ip(ip),
{
    match ip {
        IpAddress::V4(a, b, c, d) => {
            a == 127 || a == 10 || (a == 172 && 16 <= b && b <= 31) || (a == 192 && b == 168)
                || (a == 169 && b == 254) || (a == 0 && b == 0 && c == 0 && d == 0)
        },
        IpAddress::V6(s0, s1, s2, s3, s4, s5, s6, s7) => {
            s0 == 0 && s1 == 0 && s2 == 0 && s3 == 0 && s4 == 0 && s5 == 0 && s6 == 0
                && (s7 == 0 || s7 == 1)
        },
    }
}

/// A resolved address with its text as the resolver renders it.
#[derive(Debug, Clone)]
pub struct ResolvedAddr {
    pub ip: IpAddress,
    pub text: String,
}

/// The index of the first private address in `addrs` (its length if none).
pub open spec fn first_private(addrs: Seq<ResolvedAddr>) -> int
    decreases addrs.len(),
{
    if addrs.len() == 0 {
        0
    } else if private_ip(addrs[0].ip) {
        0
    } else {
        1 + first_private(addrs.drop_first())
    }
}

/// The verdict on the addresses `host` resolved to: none at all, or the first
/// private one, is refused.
pub open spec fn resolved_verdict(host: Seq<char>, addrs: Seq<ResolvedAddr>) -> Result<(), Seq<char>> {
    if addrs.len() == 0 {
        Err("Could not resolve host"@)
    } else if first_private(addrs) < addrs.len() {
        Err("Blocked: "@ + host + " resolves to private/reserved IP "@ + addrs[first_private(addrs)].text@)
    } else {
        Ok(())
    }
}

/// Refuses a host that resolved to nothing or to a private or reserved
/// address (the first such address is named).
pub fn check_resolved(host: &str, addrs: &Vec<ResolvedAddr>) -> (r: Result<(), String>)
    ensures
        match r {
            Ok(()) => resolved_verdict(host@, addrs@) is Ok,
            Err(e) => resolved_verdict(host@, addrs@) == Err::<(), Seq<char>>(e@),
        },
{
    if addrs.len() == 0 {
        return Err(String::from_str("Could not resolve host"));
    }
    let mut i: usize = 0;
    proof {
        assert(addrs@.skip(0) =~= addrs@);
    }
    while i < addrs.len()
        invariant
            i <= addrs.len(),
            first_private(addrs@) == i + first_private(addrs@.skip(i as int)),
        decreases addrs.len() - i,
    {
        proof {
            assert(addrs@.skip(i as int).drop_first() =~= addrs@.skip(i + 1));
            assert(addrs@.skip(i as int)[0] == addrs@[i as int]);
        }
        if is_private_ip(addrs[i].ip) {
            let mut msg = String::from_str("Blocked: ");
            msg.append(host);
            msg.append(" resolves to private/reserved IP ");
            msg.append(addrs[i].text.as_str());
            return Err(msg);
        }
        i = i + 1;
    }
    Ok(())
}

// ---------------------------------------------------------------------------
// URLs
// ---------------------------------------------------------------------------

/// What `reqwest::Url::parse` reads from a URL: its host text and its port
/// (explicit or the scheme's default), or the parse error's text.
pub uninterp spec fn url_parts(url: Seq<char>) -> Result<(Option<Seq<char>>, Option<u16>), Seq<char>>;

/// `reqwest::Url::parse(url)`, then `host_str` and `port_or_known_default`.
#[verifier::external_body]
fn parse_url_parts(url: &str) -> (r: Result<(Option<String>, Option<u16>), String>)
    ensures
        match r {
            Ok((h, p)) => url_parts(url@) == Ok::<(Option<Seq<char>>, Option<u16>), Seq<char>>((
                match h { Some(s) => Some(s@), None => None },
                p,
            )),
            Err(e) => url_parts(url@) == Err::<(Option<Seq<char>>, Option<u16>), Seq<char>>(e@),
        },
{
    match reqwest::Url::parse(url) {
        Ok(u) => {
            let host = match u.host_str() {
                Some(h) => Some(h.to_string()),
                None => None,
            };
            Ok((host, u.port_or_known_default()))
        },
        Err(e) => Err(e.to_string()),
    }
}

/// The host and port a URL's connection goes to (port 80 when none is
/// known), or why there is none.
pub open spec fn url_target(url: Seq<char>) -> Result<(Seq<char>, u16), Seq<char>> {
    match url_parts(url) {
        Err(e) => Err("Invalid URL: "@ + e),
        Ok((None, _)) => Err("URL has no host"@),
        Ok((Some(h), p)) => Ok((h, match p { Some(n) => n, None => 80u16 })),
    }
}

/// The host and port to resolve for `url`.
pub fn ssrf_target(url: &str) -> (r: Result<(String, u16), String>)
    ensures
        match r {
            Ok((h, p)) => url_target(url@) == Ok::<(Seq<char>, u16), Seq<char>>((h@, p)),
            Err(e) => url_target(url@) == Err::<(Seq<char>, u16), Seq<char>>(e@),
        },
{
    match parse_url_parts(url) {
        Err(e) => {
            let mut msg = String::from_str("Invalid URL: ");
            msg.append(e.as_str());
            Err(msg)
        },
        Ok((None, _)) => Err(String::from_str("URL has no host")),
        Ok((Some(h), p)) => {
            let port: u16 = match p {
                Some(n) => n,
                None => 80,
            };
            Ok((h, port))
        },
    }
}

/// The SSRF verdict on `url`, given the addresses its target host and port
/// resolved to: the URL must name a host, and the addresses must pass.
pub open spec fn ssrf_verdict(url: Seq<char>, addrs: Seq<ResolvedAddr>) -> Result<(), Seq<char>> {
    match url_target(url) {
        Err(e) => Err(e),
        Ok((host, _)) => resolved_verdict(host, addrs),
    }
}

/// The address a checked request is pinned to, by its index among the
/// resolved ones: the first, once none of them is refused.
pub fn pin_address(host: &str, addrs: &Vec<ResolvedAddr>) -> (r: Result<usize, String>)
    ensures
        match r {
            Ok(i) => i == 0 && addrs.len() > 0 && resolved_verdict(host@, addrs@) is Ok,
            Err(e) => resolved_verdict(host@, addrs@) == Err::<(), Seq<char>>(e@),
        },
{
    match check_resolved(host, addrs) {
        Ok(()) => Ok(0),
        Err(e) => Err(e),
    }
}

/// Whether an HTTP status code is a success (2xx).
pub open spec fn status_success(code: u16) -> bool {
    200 <= code <= 299
}

/// Refuses a response whose status is not a success; `status` is the
/// status as the client renders it.
pub fn check_status(code: u16, status: &str, url: &str) -> (r: Result<(), String>)
    ensures
        match r {
            Ok(()) => status_success(code),
            Err(e) => !status_success(code) && e@ == "HTTP error "@ + status@ + " when fetching "@ + url@,
        },
{
    if 200 <= code && code <= 299 {
        Ok(())
    } else {
        let mut msg = String::from_str("HTTP error ");
        msg.append(status);
        msg.append(" when fetching ");
        msg.append(url);
        Err(msg)
    }
}

/// Whether `url` starts with `http://` or `https://`.
pub open spec fn http_url(url: Seq<char>) -> bool {
    "http://"@.is_prefix_of(url) || "https://"@.is_prefix_of(url)
}

/// Whether `s` starts with `prefix`.
pub fn starts_with(s: &str, prefix: &str) -> (r: bool)
    ensures
        r == prefix@.is_prefix_of(s@),
{
    let cs = crate::text::chars_of(s);
    let ps = crate::text::chars_of(prefix);
    let r = crate::text::matches_at(&cs, 0, &ps);
    proof {
        if prefix@.is_prefix_of(s@) {
            assert(crate::text::occurs_at(cs@, 0, ps@));
        }
    }
    r
}

/// Whether `url` is an HTTP or HTTPS URL.
pub fn is_http_url(url: &str) -> (r: bool)
    ensures
        r == http_url(url@),
{
    starts_with(url, "http://") || starts_with(url, "https://")
}

// ---------------------------------------------------------------------------
// Size limits
// ---------------------------------------------------------------------------

/// `{what} too large: {size} bytes exceeds {limit} byte limit` when `size`
/// is over `limit`.
pub open spec fn size_verdict(what: Seq<char>, size: int, limit: int) -> Result<(), Seq<char>> {
    if size > limit {
        Err(what + " too large: "@ + crate::text::nat_text(size as nat) + " bytes exceeds "@
            + crate::text::nat_text(limit as nat) + " byte limit"@)
    } else {
        Ok(())
    }
}

/// Refuses a body of `size` bytes over `limit`, naming it `what`.
pub fn check_size(what: &str, size: u64, limit: u64) -> (r: Result<(), String>)
    ensures
        match r {
            Ok(()) => size_verdict(what@, size as int, limit as int) is Ok,
            Err(e) => size_verdict(what@, size as int, limit as int) == Err::<(), Seq<char>>(e@),
        },
{
    if size > limit {
        let mut msg = String::from_str(what);
        msg.append(" too large: ");
        crate::text::push_decimal(&mut msg, size);
        msg.append(" bytes exceeds ");
        crate::text::push_decimal(&mut msg, limit);
        msg.append(" byte limit");
        Err(msg)
    } else {
        Ok(())
    }
}

} // verus!

verus! {

/// A host passes only when it resolved to at least one address and none of
/// its addresses is private or reserved.
pub proof fn lemma_passing_hosts_are_public(host: Seq<char>, addrs: Seq<ResolvedAddr>)
    ensures
        resolved_verdict(host, addrs) is Ok <==> (addrs.len() > 0
            && forall|i: int| 0 <= i < addrs.len() ==> !private_ip(#[trigger] addrs[i].ip)),
{
    lemma_first_private(addrs);
}

/// A URL passes the SSRF check exactly when it names a host, that host
/// resolved to at least one address, and no address is private or
/// reserved; a refused address is named in a `private/reserved IP` error.
pub proof fn lemma_ssrf_passes_iff(url: Seq<char>, addrs: Seq<ResolvedAddr>)
    ensures
        ssrf_verdict(url, addrs) is Ok <==> (url_target(url) is Ok && addrs.len() > 0
            && forall|i: int| 0 <= i < addrs.len() ==> !private_ip(#[trigger] addrs[i].ip)),
        (url_target(url) is Ok && addrs.len() > 0 && first_private(addrs) < addrs.len()) ==> ssrf_verdict(url, addrs)
            == Err::<(), Seq<char>>("Blocked: "@ + url_target(url)->Ok_0.0 + " resolves to private/reserved IP "@
                + addrs[first_private(addrs)].text@),
{
    lemma_first_private(addrs);
}

proof fn lemma_first_private(addrs: Seq<ResolvedAddr>)
    ensures
        0 <= first_private(addrs) <= addrs.len(),
        first_private(addrs) < addrs.len() ==> private_ip(addrs[first_private(addrs)].ip),
        forall|i: int| 0 <= i < first_private(addrs) ==> !private_ip(#[trigger] addrs[i].ip),
    decreases addrs.len(),
{
    if addrs.len() > 0 && !private_ip(addrs[0].ip) {
        let rest = addrs.drop_first();
        lemma_first_private(rest);
        assert forall|i: int| 0 <= i < first_private(addrs) implies !private_ip(#[trigger] addrs[i].ip) by {
            if i > 0 {
                assert(addrs[i] == rest[i - 1]);
            }
        }
        if first_private(addrs) < addrs.len() {
            assert(addrs[first_private(addrs)] == rest[first_private(rest)]);
        }
    }
}

} // verus!
