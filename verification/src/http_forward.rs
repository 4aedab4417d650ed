//! HTTP forwarding helpers: the target base URL, the header filter and the
//! relay-prefix stripping of request paths.

use vstd::prelude::*;

use crate::config::model::opt_str;
use crate::text::{
    chars_eq, chars_eq_str, chars_of, decimal, has_prefix, lower_chars, lower_seq, push_chars,
    push_decimal, push_str, starts_with, string_of, to_lowercase, unicode_lower,
};

verus! {

/// HTTP remote forwarder configuration.
#[derive(Debug)]
pub struct HttpForwardConfig {
    /// Target host (e.g., "localhost").
    pub host: String,
    /// Target port.
    pub port: u16,
    /// Whether target uses HTTPS.
    pub https: bool,
    /// Skip TLS certificate validation.
    pub insecure: bool,
    /// Path prefix to prepend to requests.
    pub path_prefix: Option<String>,
}

/// `scheme://host:port`, then the path prefix (with a `/` put in front when
/// it does not start with one).
pub open spec fn base_url_spec(
    https: bool,
    host: Seq<char>,
    port: nat,
    prefix: Option<Seq<char>>,
) -> Seq<char> {
    let scheme = if https {
        "https"@
    } else {
        "http"@
    };
    let head = scheme + "://"@ + host + ":"@ + decimal(port);
    match prefix {
        Some(p) => if p.len() > 0 && p[0] == '/' {
            head + p
        } else {
            head + seq!['/'] + p
        },
        None => head,
    }
}

impl HttpForwardConfig {
    /// Build the base URL for the target.
    pub fn base_url(&self) -> (r: String)
        ensures
            r@ == base_url_spec(self.https, self.host@, self.port as nat, opt_str(self.path_prefix)),
    {
        let mut url: Vec<char> = Vec::new();
        if self.https {
            push_str(&mut url, "https");
        } else {
            push_str(&mut url, "http");
        }
        push_str(&mut url, "://");
        push_str(&mut url, self.host.as_str());
        push_str(&mut url, ":");
        push_decimal(&mut url, self.port as u64);
        if let Some(prefix) = &self.path_prefix {
            let p = chars_of(prefix.as_str());
            if !(p.len() > 0 && p[0] == '/') {
                url.push('/');
            }
            push_chars(&mut url, p.as_slice());
        }
        let r = string_of(url.as_slice());
        proof {
            let scheme = if self.https {
                "https"@
            } else {
                "http"@
            };
            let head = scheme + "://"@ + self.host@ + ":"@ + decimal(self.port as nat);
            match opt_str(self.path_prefix) {
                Some(p) => {
                    if p.len() > 0 && p[0] == '/' {
                        assert(r@ =~= head + p);
                    } else {
                        assert(r@ =~= head + seq!['/'] + p);
                    }
                },
                None => {
                    assert(r@ =~= head);
                },
            }
        }
        r
    }
}

/// The headers that are never forwarded, compared in lowercase.
pub open spec fn is_skipped_header(lower: Seq<char>) -> bool {
    ||| lower == "host"@
    ||| lower == "content-length"@
    ||| lower == "transfer-encoding"@
    ||| lower == "connection"@
    ||| lower == "te"@
    ||| lower == "trailer"@
    ||| lower == "upgrade"@
    ||| lower == "close"@
}

/// Whether a header (by name) is forwarded. Lowercasing with
/// `str::to_lowercase` matches one of the skipped names exactly when the
/// ASCII lowercase does: no non-ASCII character lowercases to a letter of them.
pub open spec fn is_forwarded_header(name: Seq<char>) -> bool {
    !is_skipped_header(lower_seq(name))
}

/// The view of a header list: name and value of each header.
pub open spec fn header_views(h: Seq<(String, String)>) -> Seq<(Seq<char>, Seq<char>)> {
    h.map_values(|p: (String, String)| (p.0@, p.1@))
}

/// The headers of a list that are forwarded, in order.
pub open spec fn forwarded_headers(h: Seq<(Seq<char>, Seq<char>)>) -> Seq<(Seq<char>, Seq<char>)> {
    h.filter(|p: (Seq<char>, Seq<char>)| is_forwarded_header(p.0))
}

/// No two headers of a list have the same name, as in a header map.
pub open spec fn distinct_names(h: Seq<(Seq<char>, Seq<char>)>) -> bool {
    forall|i: int, j: int| 0 <= i < j < h.len() ==> #[trigger] h[i].0 != #[trigger] h[j].0
}

/// Forwarding a header map gives a header map: what is forwarded comes from
/// the request's headers, and no name occurs twice where none did before.
pub proof fn law_forwarded_headers_keep_names_distinct(h: Seq<(Seq<char>, Seq<char>)>)
    requires
        distinct_names(h),
    ensures
        distinct_names(forwarded_headers(h)),
        forall|i: int|
            0 <= i < forwarded_headers(h).len() ==> h.contains(#[trigger] forwarded_headers(h)[i]),
    decreases h.len(),
{
    reveal_with_fuel(Seq::filter, 1);
    if h.len() > 0 {
        let t = h.drop_last();
        let last = h.last();
        assert forall|i: int, j: int| 0 <= i < j < t.len() implies #[trigger] t[i].0
            != #[trigger] t[j].0 by {
            assert(t[i] == h[i] && t[j] == h[j]);
        }
        law_forwarded_headers_keep_names_distinct(t);
        let ft = forwarded_headers(t);
        let f = forwarded_headers(h);
        assert forall|i: int| 0 <= i < ft.len() implies exists|k: int|
            0 <= k < t.len() && #[trigger] h[k] == #[trigger] ft[i] by {
            assert(t.contains(ft[i]));
            let k = choose|k: int| 0 <= k < t.len() && t[k] == ft[i];
            assert(h[k] == t[k]);
        }
        if is_forwarded_header(last.0) {
            assert(f =~= ft.push(last));
            assert forall|i: int, j: int| 0 <= i < j < f.len() implies #[trigger] f[i].0
                != #[trigger] f[j].0 by {
                if j == f.len() - 1 {
                    let k = choose|k: int| 0 <= k < t.len() && #[trigger] h[k] == ft[i];
                    assert(h[k].0 != h[h.len() - 1].0);
                } else {
                    assert(f[i] == ft[i] && f[j] == ft[j]);
                }
            }
            assert forall|i: int| 0 <= i < f.len() implies h.contains(#[trigger] f[i]) by {
                if i == f.len() - 1 {
                    assert(h[h.len() - 1] == f[i]);
                } else {
                    let k = choose|k: int| 0 <= k < t.len() && #[trigger] h[k] == ft[i];
                    assert(h[k] == f[i]);
                }
            }
        } else {
            assert(f =~= ft);
            assert forall|i: int| 0 <= i < f.len() implies h.contains(#[trigger] f[i]) by {
                let k = choose|k: int| 0 <= k < t.len() && #[trigger] h[k] == ft[i];
                assert(h[k] == f[i]);
            }
        }
    }
}

/// No hop-by-hop header is forwarded: a forwarded header's lowercase name
/// is none of `host`, `content-length`, `transfer-encoding`, `connection`,
/// `te`, `trailer`, `upgrade` and `close`, and every other header is
/// forwarded.
pub proof fn law_hop_by_hop_headers_dropped(h: Seq<(Seq<char>, Seq<char>)>)
    ensures
        forall|i: int|
            0 <= i < forwarded_headers(h).len() ==> {
                let l = lower_seq((#[trigger] forwarded_headers(h)[i]).0);
                &&& l != "host"@
                &&& l != "content-length"@
                &&& l != "transfer-encoding"@
                &&& l != "connection"@
                &&& l != "te"@
                &&& l != "trailer"@
                &&& l != "upgrade"@
                &&& l != "close"@
            },
        forall|j: int|
            0 <= j < h.len() && ({
                let l = lower_seq(h[j].0);
                &&& l != "host"@
                &&& l != "content-length"@
                &&& l != "transfer-encoding"@
                &&& l != "connection"@
                &&& l != "te"@
                &&& l != "trailer"@
                &&& l != "upgrade"@
                &&& l != "close"@
            }) ==> forwarded_headers(h).contains(#[trigger] h[j]),
{
    let pred = |p: (Seq<char>, Seq<char>)| is_forwarded_header(p.0);
    assert forall|i: int| 0 <= i < forwarded_headers(h).len() implies !is_skipped_header(
        lower_seq((#[trigger] forwarded_headers(h)[i]).0),
    ) by {
        h.lemma_filter_pred(pred, i);
    }
    assert forall|j: int|
        0 <= j < h.len() && !is_skipped_header(lower_seq(h[j].0)) implies forwarded_headers(
        h,
    ).contains(#[trigger] h[j]) by {
        h.lemma_filter_contains(pred, j);
    }
}

fn header_is_forwarded(name: &String) -> (r: bool)
    ensures
        r == is_forwarded_header(name@),
{
    let v = chars_of(name.as_str());
    let l = lower_chars(v.as_slice());
    let s = l.as_slice();
    !(chars_eq_str(s, "host") || chars_eq_str(s, "content-length") || chars_eq_str(
        s,
        "transfer-encoding",
    ) || chars_eq_str(s, "connection") || chars_eq_str(s, "te") || chars_eq_str(s, "trailer")
        || chars_eq_str(s, "upgrade") || chars_eq_str(s, "close"))
}

/// Maps relay request headers to the forwarded request, stripping
/// relay-internal headers: Host, Content-Length, Transfer-Encoding,
/// Connection, TE, Trailer, Upgrade and Close (case-insensitively).
pub fn filter_forward_headers(headers: &Vec<(String, String)>) -> (r: Vec<(String, String)>)
    ensures
        header_views(r@) == forwarded_headers(header_views(headers@)),
{
    let mut out: Vec<(String, String)> = Vec::new();
    let mut i: usize = 0;
    assert(headers@.take(0) =~= Seq::<(String, String)>::empty());
    while i < headers.len()
        invariant
            i <= headers@.len(),
            header_views(out@) == forwarded_headers(header_views(headers@.take(i as int))),
        decreases headers@.len() - i,
    {
        let ghost prev = out@;
        let (k, v) = &headers[i];
        let keep = header_is_forwarded(k);
        proof {
            let hv = header_views(headers@.take(i as int));
            let hv2 = header_views(headers@.take(i + 1));
            assert(hv2 =~= hv.push((k@, v@)));
            reveal_with_fuel(Seq::filter, 1);
            assert(hv2.drop_last() =~= hv);
        }
        if keep {
            out.push((k.clone(), v.clone()));
            assert(header_views(out@) =~= header_views(prev).push((k@, v@)));
        } else {
            assert(header_views(out@) =~= header_views(prev));
        }
        i = i + 1;
    }
    assert(headers@.take(headers@.len() as int) =~= headers@);
    out
}

/// `path` with a leading `/{relay_name}` removed (an empty remainder
/// becomes `/`); unchanged when it does not start with that prefix.
pub open spec fn strip_relay_prefix_spec(path: Seq<char>, relay_name: Seq<char>) -> Seq<char> {
    let prefix = seq!['/'] + relay_name;
    if has_prefix(path, prefix) {
        let rest = path.skip(prefix.len() as int);
        if rest.len() == 0 {
            seq!['/']
        } else {
            rest
        }
    } else {
        path
    }
}

/// Strips the relay name prefix from the request path.
///
/// If the path starts with `/{relay_name}`, strips that prefix.
/// E.g., `/myrelay/api/data` with relay_name "myrelay" becomes `/api/data`.
pub fn strip_relay_prefix(path: &str, relay_name: &str) -> (r: String)
    ensures
        r@ == strip_relay_prefix_spec(path@, relay_name@),
{
    let p = chars_of(path);
    let mut prefix: Vec<char> = Vec::new();
    prefix.push('/');
    push_str(&mut prefix, relay_name);
    assert(prefix@ =~= seq!['/'] + relay_name@);
    if starts_with(p.as_slice(), prefix.as_slice()) {
        let n = p.len();
        let rest = &p.as_slice()[prefix.len()..n];
        assert(rest@ =~= p@.skip(prefix@.len() as int));
        if rest.len() == 0 {
            let mut root: Vec<char> = Vec::new();
            root.push('/');
            assert(root@ =~= seq!['/']);
            string_of(root.as_slice())
        } else {
            string_of(rest)
        }
    } else {
        string_of(p.as_slice())
    }
}

/// The text without its trailing `/`s (`str::trim_end_matches('/')`).
pub open spec fn trim_trailing_slashes(s: Seq<char>) -> Seq<char>
    decreases s.len(),
{
    if s.len() > 0 && s.last() == '/' {
        trim_trailing_slashes(s.drop_last())
    } else {
        s
    }
}

/// The URL a relayed request goes to: the base URL without trailing `/`s,
/// then the relative path, with a `/` between them when it has none.
pub open spec fn target_url_spec(base: Seq<char>, relative: Seq<char>) -> Seq<char> {
    let b = trim_trailing_slashes(base);
    if has_prefix(relative, "/"@) {
        b + relative
    } else {
        b + "/"@ + relative
    }
}

/// The URL of the target for a relayed request, whose URL is taken
/// relative to the relay name.
pub fn target_url(config: &HttpForwardConfig, request_url: &str, relay_name: &str) -> (r: String)
    ensures
        r@ == target_url_spec(
            base_url_spec(
                config.https,
                config.host@,
                config.port as nat,
                opt_str(config.path_prefix),
            ),
            strip_relay_prefix_spec(request_url@, relay_name@),
        ),
{
    let relative = strip_relay_prefix(request_url, relay_name);
    let base = config.base_url();
    let b = chars_of(base.as_str());
    let mut n = b.len();
    assert(b@.take(n as int) =~= b@);
    while n > 0 && b[n - 1] == '/'
        invariant
            n <= b@.len(),
            trim_trailing_slashes(b@) == trim_trailing_slashes(b@.take(n as int)),
        decreases n,
    {
        assert(b@.take(n as int).drop_last() =~= b@.take(n - 1));
        n = n - 1;
    }
    let mut out: Vec<char> = Vec::new();
    push_chars(&mut out, &b.as_slice()[0..n]);
    let rel = chars_of(relative.as_str());
    let slash = chars_of("/");
    proof {
        reveal_strlit("/");
    }
    if !starts_with(rel.as_slice(), slash.as_slice()) {
        push_str(&mut out, "/");
    }
    push_chars(&mut out, rel.as_slice());
    let r = string_of(out.as_slice());
    assert(b@.take(n as int) == trim_trailing_slashes(b@));
    assert(r@ =~= target_url_spec(base@, relative@));
    r
}

/// Whether a response header of the target is passed back: every one but
/// `Transfer-Encoding` (in any case).
pub fn keep_response_header(name: &str) -> (r: bool)
    ensures
        r == (unicode_lower(name@) != "transfer-encoding"@),
{
    let lower = to_lowercase(name);
    let l = chars_of(lower.as_str());
    !chars_eq_str(l.as_slice(), "transfer-encoding")
}

} // verus!
