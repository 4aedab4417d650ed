//! URI construction and audience normalisation for Hybrid Connections.

use vstd::prelude::*;

use crate::relay::protocol::query_params;
use crate::text::{
    chars_of, to_lowercase, unicode_lower, decimal, has_prefix, push_chars, push_decimal, push_str, starts_with, string_of,
};

verus! {

/// The WebSocket path prefix for Hybrid Connections.
pub const HC_PATH_PREFIX: &'static str = "$hc/";

/// The user-agent value sent with all relay connections.
pub const RELAY_USER_AGENT_VALUE: &'static str = "azure-relay-rs/0.1.0";

// ---------------------------------------------------------------------------
// Audience normalisation
// ---------------------------------------------------------------------------

/// The SAS audience for a (lowercased) host and a path: `http://{host}/`,
/// then the path without a leading `/$hc/` (or `/$hc`) and without one more
/// leading `/`, ending in `/`.
pub open spec fn audience_spec(host: Seq<char>, path: Seq<char>) -> Seq<char> {
    let p1 = if has_prefix(path, "/$hc/"@) {
        path.skip("/$hc/"@.len() as int)
    } else if has_prefix(path, "/$hc"@) {
        path.skip("/$hc"@.len() as int)
    } else {
        path
    };
    let p2 = if has_prefix(p1, "/"@) {
        p1.skip("/"@.len() as int)
    } else {
        p1
    };
    let a = "http://"@ + host + "/"@ + p2;
    if a.len() > 0 && a.last() == '/' {
        a
    } else {
        a.push('/')
    }
}

/// The audience for an already lowercased host and a URL path.
pub fn audience_for(lower_host: &str, path: &str) -> (r: String)
    ensures
        r@ == audience_spec(lower_host@, path@),
{
    let p = chars_of(path);
    let hc_slash = chars_of("/$hc/");
    let hc = chars_of("/$hc");
    let slash = chars_of("/");
    let n = p.len();
    let p1: &[char] = if starts_with(p.as_slice(), hc_slash.as_slice()) {
        &p.as_slice()[hc_slash.len()..n]
    } else if starts_with(p.as_slice(), hc.as_slice()) {
        &p.as_slice()[hc.len()..n]
    } else {
        p.as_slice()
    };
    let ghost g1 = if has_prefix(path@, "/$hc/"@) {
        path@.skip("/$hc/"@.len() as int)
    } else if has_prefix(path@, "/$hc"@) {
        path@.skip("/$hc"@.len() as int)
    } else {
        path@
    };
    assert(p1@ =~= g1);
    let m = p1.len();
    let p2: &[char] = if starts_with(p1, slash.as_slice()) {
        &p1[slash.len()..m]
    } else {
        p1
    };
    let mut a: Vec<char> = Vec::new();
    push_str(&mut a, "http://");
    push_str(&mut a, lower_host);
    push_str(&mut a, "/");
    push_chars(&mut a, p2);
    let k = a.len();
    if !(k > 0 && a[k - 1] == '/') {
        a.push('/');
    }
    let r = string_of(a.as_slice());
    assert(r@ =~= audience_spec(lower_host@, path@));
    r
}

/// The host a URL names (`Url::host_str`), if it has one.
pub uninterp spec fn url_host_of(u: url::Url) -> Option<Seq<char>>;

/// The path of a URL (`Url::path`).
pub uninterp spec fn url_path_of(u: url::Url) -> Seq<char>;

/// The explicit port of a URL (`Url::port`), if it has one.
pub uninterp spec fn url_port_of(u: url::Url) -> Option<u16>;

/// The text of a URL (`Url::as_str`).
pub uninterp spec fn url_text_of(u: url::Url) -> Seq<char>;

/// `Url::host_str`, copied out.
#[verifier::external_body]
pub(crate) fn url_host(u: &url::Url) -> (r: Option<String>)
    ensures
        match r {
            Some(h) => url_host_of(*u) == Some(h@),
            None => url_host_of(*u) is None,
        },
{
    match u.host_str() {
        Some(h) => Some(h.to_owned()),
        None => None,
    }
}

/// `Url::path`, copied out.
#[verifier::external_body]
fn url_path(u: &url::Url) -> (r: String)
    ensures
        r@ == url_path_of(*u),
{
    u.path().to_owned()
}

/// `Url::port`.
#[verifier::external_body]
pub(crate) fn url_port(u: &url::Url) -> (r: Option<u16>)
    ensures
        r == url_port_of(*u),
{
    u.port()
}

/// `Url::as_str`, copied out.
#[verifier::external_body]
pub(crate) fn url_text(u: &url::Url) -> (r: String)
    ensures
        r@ == url_text_of(*u),
{
    u.as_str().to_owned()
}

/// The host a URL names, or nothing.
pub open spec fn host_or_empty(u: url::Url) -> Seq<char> {
    match url_host_of(u) {
        Some(h) => h,
        None => Seq::empty(),
    }
}

/// Normalizes a relay address into an audience URL for SAS token generation.
///
/// Converts `sb://` or `wss://` scheme to `http://`, lowercases the host,
/// strips the `/$hc/` path prefix, and ensures a trailing `/`.
/// The result is the audience that shared access signatures are signed for.
///
/// # Examples
/// - `wss://contoso.servicebus.windows.net/$hc/myconn` → `http://contoso.servicebus.windows.net/myconn/`
/// - `sb://CONTOSO.servicebus.windows.net/myconn` → `http://contoso.servicebus.windows.net/myconn/`
pub fn normalize_audience(address: &url::Url) -> (r: String)
    ensures
        r@ == audience_spec(unicode_lower(host_or_empty(*address)), url_path_of(*address)),
{
    let host = match url_host(address) {
        Some(h) => h,
        None => String::new(),
    };
    let lower = to_lowercase(host.as_str());
    let path = url_path(address);
    let r = audience_for(lower.as_str(), path.as_str());
    assert(r@ == audience_spec(unicode_lower(host@), path@));
    r
}

// ---------------------------------------------------------------------------
// URI construction
// ---------------------------------------------------------------------------

/// `{scheme}://{host}:{port}/$hc/{path}`.
pub open spec fn hc_uri_text(
    scheme: Seq<char>,
    host: Seq<char>,
    port: nat,
    path: Seq<char>,
) -> Seq<char> {
    scheme + "://"@ + host + ":"@ + decimal(port) + "/"@ + HC_PATH_PREFIX@ + path
}

/// The text of a Hybrid Connection URI before its query:
/// `{scheme}://{host}:{port}/$hc/{path}`.
pub fn hybrid_connection_uri_text(scheme: &str, host: &str, port: u16, path: &str) -> (r: String)
    ensures
        r@ == hc_uri_text(scheme@, host@, port as nat, path@),
{
    let mut t: Vec<char> = Vec::new();
    push_str(&mut t, scheme);
    push_str(&mut t, "://");
    push_str(&mut t, host);
    push_str(&mut t, ":");
    push_decimal(&mut t, port as u64);
    push_str(&mut t, "/");
    push_str(&mut t, HC_PATH_PREFIX);
    push_str(&mut t, path);
    let r = string_of(t.as_slice());
    assert(r@ =~= hc_uri_text(scheme@, host@, port as nat, path@));
    r
}

/// What `Url::parse` reports for a text it refuses: its error as it
/// displays; `None` for a text it accepts.
pub uninterp spec fn url_parse_error(s: Seq<char>) -> Option<Seq<char>>;

/// The URL `Url::parse` makes of a text it accepts.
pub uninterp spec fn url_parsed(s: Seq<char>) -> url::Url;

/// `Url::parse`: it accepts a text exactly when no error is named for it,
/// gives the URL named for it, and on refusal gives that error's text.
#[verifier::external_body]
pub(crate) fn parse_url(s: &str) -> (r: Result<url::Url, String>)
    ensures
        r is Ok <==> url_parse_error(s@) is None,
        r matches Ok(u) ==> u == url_parsed(s@),
        r matches Err(m) ==> url_parse_error(s@) == Some(m@),
{
    match url::Url::parse(s) {
        Ok(u) => Ok(u),
        Err(e) => Err(e.to_string()),
    }
}

/// The query of a URL as the list of pairs `Url::query_pairs` reads from
/// it (split at `&`, each at its first `=`, `+` and percent escapes
/// decoded); `None` when the URL has no query at all (`Url::query` is
/// `None`).
pub uninterp spec fn url_query(u: url::Url) -> Option<Seq<(Seq<char>, Seq<char>)>>;

/// The pairs of a URL's query; none when it has no query.
pub open spec fn query_pairs_of(u: url::Url) -> Seq<(Seq<char>, Seq<char>)> {
    match url_query(u) {
        Some(p) => p,
        None => Seq::empty(),
    }
}

/// Two URLs have the same host and port.
pub open spec fn same_authority(a: url::Url, b: url::Url) -> bool {
    &&& url_host_of(a) == url_host_of(b)
    &&& url_port_of(a) == url_port_of(b)
}

/// Two URLs have the same host, port and path.
pub open spec fn same_place(a: url::Url, b: url::Url) -> bool {
    &&& same_authority(a, b)
    &&& url_path_of(a) == url_path_of(b)
}

/// A path without the spaces at its end.
pub open spec fn without_trailing_spaces(p: Seq<char>) -> Seq<char>
    decreases p.len(),
{
    if p.len() > 0 && p.last() == ' ' {
        without_trailing_spaces(p.drop_last())
    } else {
        p
    }
}

/// What a path can become when the query is taken off its URL: the same
/// path, or (for an opaque path with no fragment after it) the path
/// without its trailing spaces.
pub open spec fn path_after_query_removed(before: Seq<char>, after: Seq<char>) -> bool {
    after == before || after == without_trailing_spaces(before)
}

/// `url.query_pairs_mut().append_pair(name, value)`: the pair is
/// form-encoded and added after the existing query (with a `&` between;
/// a URL without a query gets one), so the query reads as before with the
/// pair at its end; host, port and path stay as they were.
#[verifier::external_body]
fn url_append_pair(u: &mut url::Url, name: &str, value: &str)
    ensures
        url_query(*final(u)) == Some(query_pairs_of(*old(u)).push((name@, value@))),
        same_place(*final(u), *old(u)),
{
    u.query_pairs_mut().append_pair(name, value);
}

/// `Url::set_query(None)`: the URL has no query left; host and port stay
/// as they were. The path stays too, except that an opaque path (a URL
/// that cannot be a base) with no fragment loses its trailing spaces.
#[verifier::external_body]
fn url_clear_query(u: &mut url::Url)
    ensures
        url_query(*final(u)) is None,
        same_authority(*final(u), *old(u)),
        path_after_query_removed(url_path_of(*old(u)), url_path_of(*final(u))),
{
    u.set_query(None);
}

/// `Url::query_pairs`, each pair copied out.
#[verifier::external_body]
fn url_query_pairs(u: &url::Url) -> (r: Vec<(String, String)>)
    ensures
        pair_views(r@) == query_pairs_of(*u),
{
    u.query_pairs().map(|(k, v)| (k.into_owned(), v.into_owned())).collect()
}

/// `Url::clone`: the copy has the same query, host, port and path.
#[verifier::external_body]
fn url_clone(u: &url::Url) -> (r: url::Url)
    ensures
        url_query(r) == url_query(*u),
        same_place(r, *u),
{
    u.clone()
}

/// `u` is the URL parsed from `text` with `sb-hc-action={action}` and
/// `sb-hc-id={id}` added to its query.
pub open spec fn hc_uri_built(u: url::Url, text: Seq<char>, action: Seq<char>, id: Seq<char>) -> bool {
    &&& same_place(u, url_parsed(text))
    &&& url_query(u) == Some(
        query_pairs_of(url_parsed(text)).push((query_params::ACTION@, action)).push(
            (query_params::ID@, id),
        ),
    )
}

/// Builds a Hybrid Connection WebSocket URI with a specified scheme:
/// `{scheme}://{host}:{port}/$hc/{path}?sb-hc-action={action}&sb-hc-id={id}`.
/// `None` when the components do not form a URL.
pub fn build_uri_scheme(
    scheme: &str,
    host: &str,
    port: u16,
    path: &str,
    action: &str,
    id: &str,
) -> (r: Option<url::Url>)
    ensures
        r is Some <==> url_parse_error(hc_uri_text(scheme@, host@, port as nat, path@)) is None,
        r matches Some(u) ==> hc_uri_built(
            u,
            hc_uri_text(scheme@, host@, port as nat, path@),
            action@,
            id@,
        ),
{
    let text = hybrid_connection_uri_text(scheme, host, port, path);
    let mut url = match parse_url(text.as_str()) {
        Ok(u) => u,
        Err(_) => {
            return None;
        },
    };
    url_append_pair(&mut url, query_params::ACTION, action);
    url_append_pair(&mut url, query_params::ID, id);
    Some(url)
}

/// Builds a Hybrid Connection WebSocket URI.
///
/// Format: `wss://{host}:{port}/$hc/{path}?sb-hc-action={action}&sb-hc-id={id}`
pub fn build_uri(host: &str, port: u16, path: &str, action: &str, id: &str) -> (r: Option<url::Url>)
    ensures
        r is Some <==> url_parse_error(hc_uri_text("wss"@, host@, port as nat, path@)) is None,
        r matches Some(u) ==> hc_uri_built(u, hc_uri_text("wss"@, host@, port as nat, path@), action@, id@),
{
    build_uri_scheme("wss", host, port, path, action, id)
}

/// Builds a Hybrid Connection WebSocket URI with a SAS token.
pub fn build_uri_with_token(
    host: &str,
    port: u16,
    path: &str,
    action: &str,
    id: &str,
    token: &str,
) -> (r: Option<url::Url>)
    ensures
        r is Some <==> url_parse_error(hc_uri_text("wss"@, host@, port as nat, path@)) is None,
        r matches Some(u) ==> ({
            let t = hc_uri_text("wss"@, host@, port as nat, path@);
            &&& same_place(u, url_parsed(t))
            &&& url_query(u) == Some(
                query_pairs_of(url_parsed(t)).push((query_params::ACTION@, action@)).push(
                    (query_params::ID@, id@),
                ).push((query_params::TOKEN@, token@)),
            )
        }),
{
    let mut url = match build_uri(host, port, path, action, id) {
        Some(u) => u,
        None => {
            return None;
        },
    };
    url_append_pair(&mut url, query_params::TOKEN, token);
    Some(url)
}

/// The address a sender connects to: the relay address with
/// `sb-hc-action=connect` and `sb-hc-id={tracking_id}` added to its query.
pub fn connect_uri(address: &url::Url, tracking_id: &str) -> (r: url::Url)
    ensures
        same_place(r, *address),
        url_query(r) == Some(
            query_pairs_of(*address).push(
                (query_params::ACTION@, crate::relay::protocol::actions::CONNECT@),
            ).push((query_params::ID@, tracking_id@)),
        ),
{
    let mut u = url_clone(address);
    url_append_pair(&mut u, query_params::ACTION, crate::relay::protocol::actions::CONNECT);
    url_append_pair(&mut u, query_params::ID, tracking_id);
    u
}

/// Whether a query parameter is one of the protocol's own (`sb-hc-*`).
pub open spec fn is_relay_query_param(name: Seq<char>) -> bool {
    has_prefix(name, "sb-hc-"@)
}

/// The view of a list of query pairs.
pub open spec fn pair_views(p: Seq<(String, String)>) -> Seq<(Seq<char>, Seq<char>)> {
    p.map_values(|x: (String, String)| (x.0@, x.1@))
}

/// The pairs that are not the protocol's own, in order.
pub open spec fn kept_pairs(p: Seq<(Seq<char>, Seq<char>)>) -> Seq<(Seq<char>, Seq<char>)> {
    p.filter(|x: (Seq<char>, Seq<char>)| !is_relay_query_param(x.0))
}

/// Drops the `sb-hc-*` query pairs, keeping all others in order.
pub fn keep_non_relay_query_pairs(pairs: &Vec<(String, String)>) -> (r: Vec<(String, String)>)
    ensures
        pair_views(r@) == kept_pairs(pair_views(pairs@)),
{
    let prefix = chars_of("sb-hc-");
    let mut out: Vec<(String, String)> = Vec::new();
    let mut i: usize = 0;
    assert(pairs@.take(0) =~= Seq::<(String, String)>::empty());
    while i < pairs.len()
        invariant
            prefix@ == "sb-hc-"@,
            i <= pairs@.len(),
            pair_views(out@) == kept_pairs(pair_views(pairs@.take(i as int))),
        decreases pairs@.len() - i,
    {
        let ghost prev = out@;
        let (k, v) = &pairs[i];
        let kc = chars_of(k.as_str());
        let relay = starts_with(kc.as_slice(), prefix.as_slice());
        proof {
            let pv = pair_views(pairs@.take(i as int));
            let pv2 = pair_views(pairs@.take(i + 1));
            assert(pv2 =~= pv.push((k@, v@)));
            reveal_with_fuel(Seq::filter, 1);
            assert(pv2.drop_last() =~= pv);
        }
        if !relay {
            out.push((k.clone(), v.clone()));
            assert(pair_views(out@) =~= pair_views(prev).push((k@, v@)));
        } else {
            assert(pair_views(out@) =~= pair_views(prev));
        }
        i = i + 1;
    }
    assert(pairs@.take(pairs@.len() as int) =~= pairs@);
    out
}

/// Filters out `sb-hc-*` query parameters from a URL, preserving all others.
///
/// The result's query holds the pairs that are not the protocol's own, in
/// order; it has no query at all when none is left.
pub fn filter_hybrid_connection_query_params(uri: &url::Url) -> (r: url::Url)
    ensures
        url_query(r) == (if kept_pairs(query_pairs_of(*uri)).len() == 0 {
            None
        } else {
            Some(kept_pairs(query_pairs_of(*uri)))
        }),
        same_authority(r, *uri),
        path_after_query_removed(url_path_of(*uri), url_path_of(r)),
{
    let mut filtered = url_clone(uri);
    let pairs = url_query_pairs(&filtered);
    let kept = keep_non_relay_query_pairs(&pairs);
    url_clear_query(&mut filtered);
    let ghost cleared_path = url_path_of(filtered);
    let mut i: usize = 0;
    assert(pair_views(kept@).take(0) =~= Seq::<(Seq<char>, Seq<char>)>::empty());
    while i < kept.len()
        invariant
            i <= kept@.len(),
            url_query(filtered) == (if i == 0 {
                None
            } else {
                Some(pair_views(kept@).take(i as int))
            }),
            same_authority(filtered, *uri),
            url_path_of(filtered) == cleared_path,
        decreases kept@.len() - i,
    {
        let (k, v) = &kept[i];
        url_append_pair(&mut filtered, k.as_str(), v.as_str());
        assert(pair_views(kept@).take(i + 1) =~= pair_views(kept@).take(i as int).push((k@, v@)));
        i = i + 1;
    }
    assert(pair_views(kept@).take(kept@.len() as int) =~= pair_views(kept@));
    assert(pair_views(kept@).len() == kept@.len());
    filtered
}

} // verus!
