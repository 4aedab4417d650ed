use std::collections::HashMap;

use url::Url;

use azbridge::relay::client::{build_relay_address, listener_address_of, relay_address_of};
use azbridge::relay::error::RelayError;
use azbridge::relay::protocol::query_params;
use azbridge::relay::protocol::uri::{
    build_uri, build_uri_with_token, filter_hybrid_connection_query_params, normalize_audience,
};

#[test]
fn build_uri_basic() {
    let url = build_uri("contoso.servicebus.windows.net", 443, "myconn", "listen", "tracking-123").unwrap();
    assert_eq!(url.scheme(), "wss");
    assert_eq!(url.host_str(), Some("contoso.servicebus.windows.net"));
    // Port 443 is the default for wss://, so the url crate normalises it away.
    assert!(url.port().is_none() || url.port() == Some(443));
    assert!(url.path().contains("$hc/myconn"));

    let pairs: HashMap<_, _> = url.query_pairs().map(|(k, v)| (k.into_owned(), v.into_owned())).collect();
    assert_eq!(pairs.get(query_params::ACTION).unwrap(), "listen");
    assert_eq!(pairs.get(query_params::ID).unwrap(), "tracking-123");
}

#[test]
fn build_uri_preserves_path_with_slashes() {
    let url = build_uri("host.example.com", 443, "a/b/c", "connect", "id-1").unwrap();
    assert!(url.path().ends_with("$hc/a/b/c"));
}

#[test]
fn build_uri_with_token_includes_token() {
    let url = build_uri_with_token(
        "contoso.servicebus.windows.net",
        443,
        "myconn",
        "listen",
        "id-1",
        "SharedAccessSignature sr=http%3a%2f%2fcontoso",
    )
    .unwrap();
    let pairs: HashMap<_, _> = url.query_pairs().map(|(k, v)| (k.into_owned(), v.into_owned())).collect();
    assert_eq!(pairs.get(query_params::ACTION).unwrap(), "listen");
    assert_eq!(pairs.get(query_params::ID).unwrap(), "id-1");
    assert_eq!(
        pairs.get(query_params::TOKEN).unwrap(),
        "SharedAccessSignature sr=http%3a%2f%2fcontoso"
    );
}

#[test]
fn build_uri_with_token_has_three_query_params() {
    let url = build_uri_with_token("h", 443, "p", "accept", "i", "t").unwrap();
    let count = url.query_pairs().count();
    assert_eq!(count, 3, "should have action, id, and token");
}

// ── filter_hybrid_connection_query_params ───────────────────────────────

#[test]
fn filter_query_params_removes_all_sb_hc() {
    let url = Url::parse("wss://host:443/$hc/path?sb-hc-action=listen&sb-hc-id=id1&sb-hc-token=tok").unwrap();
    let filtered = filter_hybrid_connection_query_params(&url);
    assert!(filtered.query().is_none() || filtered.query() == Some(""));
}

#[test]
fn filter_query_params_preserves_custom_params() {
    let url = Url::parse("wss://host:443/$hc/path?sb-hc-action=listen&custom=value&foo=bar").unwrap();
    let filtered = filter_hybrid_connection_query_params(&url);
    let pairs: HashMap<_, _> = filtered.query_pairs().map(|(k, v)| (k.into_owned(), v.into_owned())).collect();
    assert_eq!(pairs.len(), 2);
    assert_eq!(pairs.get("custom").unwrap(), "value");
    assert_eq!(pairs.get("foo").unwrap(), "bar");
    assert!(!pairs.contains_key("sb-hc-action"));
}

#[test]
fn filter_query_params_no_query_string() {
    let url = Url::parse("wss://host:443/$hc/path").unwrap();
    let filtered = filter_hybrid_connection_query_params(&url);
    assert!(filtered.query().is_none());
}

#[test]
fn filter_query_params_only_custom_params_unchanged() {
    let url = Url::parse("wss://host:443/path?a=1&b=2").unwrap();
    let filtered = filter_hybrid_connection_query_params(&url);
    let pairs: HashMap<_, _> = filtered.query_pairs().map(|(k, v)| (k.into_owned(), v.into_owned())).collect();
    assert_eq!(pairs.len(), 2);
    assert_eq!(pairs.get("a").unwrap(), "1");
    assert_eq!(pairs.get("b").unwrap(), "2");
}

#[test]
fn filter_query_params_mixed_sb_hc_and_custom() {
    let url = Url::parse(
        "wss://host:443/$hc/p?before=1&sb-hc-action=connect&middle=2&sb-hc-id=x&after=3"
    ).unwrap();
    let filtered = filter_hybrid_connection_query_params(&url);
    let pairs: HashMap<_, _> = filtered.query_pairs().map(|(k, v)| (k.into_owned(), v.into_owned())).collect();
    assert_eq!(pairs.len(), 3);
    assert_eq!(pairs.get("before").unwrap(), "1");
    assert_eq!(pairs.get("middle").unwrap(), "2");
    assert_eq!(pairs.get("after").unwrap(), "3");
}

#[test]
fn filter_query_params_preserves_scheme_host_path() {
    let url = Url::parse("wss://myhost:9443/$hc/mypath?sb-hc-action=listen&keep=yes").unwrap();
    let filtered = filter_hybrid_connection_query_params(&url);
    assert_eq!(filtered.scheme(), "wss");
    assert_eq!(filtered.host_str(), Some("myhost"));
    assert_eq!(filtered.port(), Some(9443));
    assert_eq!(filtered.path(), "/$hc/mypath");
}

#[test]
fn normalize_audience_wss_with_hc_prefix() {
    let url = Url::parse("wss://contoso.servicebus.windows.net/$hc/myconn").unwrap();
    assert_eq!(
        normalize_audience(&url),
        "http://contoso.servicebus.windows.net/myconn/"
    );
}

#[test]
fn normalize_audience_uppercase_host_lowercased() {
    let url = Url::parse("wss://CONTOSO.ServiceBus.Windows.NET/$hc/MyConn").unwrap();
    assert_eq!(
        normalize_audience(&url),
        "http://contoso.servicebus.windows.net/MyConn/"
    );
}

#[test]
fn normalize_audience_already_has_trailing_slash() {
    let url = Url::parse("wss://host.example.com/$hc/path/").unwrap();
    assert_eq!(
        normalize_audience(&url),
        "http://host.example.com/path/"
    );
}

#[test]
fn normalize_audience_no_path() {
    let url = Url::parse("wss://host.example.com").unwrap();
    assert_eq!(
        normalize_audience(&url),
        "http://host.example.com/"
    );
}

#[test]
fn client_normalize_audience_strips_hc_prefix_and_adds_trailing_slash() {
    let url = Url::parse("wss://mynamespace.servicebus.windows.net/$hc/myconn").unwrap();
    assert_eq!(normalize_audience(&url), "http://mynamespace.servicebus.windows.net/myconn/");
}

#[test]
fn normalize_audience_lowercases_host_of_namespace() {
    let url = Url::parse("wss://MyNamespace.ServiceBus.Windows.NET/$hc/myconn").unwrap();
    assert_eq!(normalize_audience(&url), "http://mynamespace.servicebus.windows.net/myconn/");
}

#[test]
fn client_normalize_audience_no_hc_prefix() {
    let url = Url::parse("wss://host.example.com/some/path").unwrap();
    assert_eq!(normalize_audience(&url), "http://host.example.com/some/path/");
}

#[test]
fn listener_normalize_audience_strips_hc_prefix_and_adds_trailing_slash() {
    let url = Url::parse("wss://mynamespace.servicebus.windows.net/$hc/myconn").unwrap();
    assert_eq!(normalize_audience(&url), "http://mynamespace.servicebus.windows.net/myconn/");
}

#[test]
fn listener_normalize_audience_no_hc_prefix() {
    let url = Url::parse("wss://mynamespace.servicebus.windows.net/plain").unwrap();
    assert_eq!(normalize_audience(&url), "http://mynamespace.servicebus.windows.net/plain/");
}

#[test]
fn build_relay_address_converts_sb_to_wss() {
    let endpoint = Url::parse("sb://mynamespace.servicebus.windows.net/").unwrap();
    let addr = build_relay_address(&endpoint, "myconn").unwrap();
    assert_eq!(addr.scheme(), "wss");
    assert_eq!(addr.host_str().unwrap(), "mynamespace.servicebus.windows.net");
    assert!(addr.path().contains("$hc/myconn"));
}

#[test]
fn build_relay_address_missing_host() {
    let endpoint = Url::parse("sb:///").unwrap();
    assert!(build_relay_address(&endpoint, "path").is_err());
}

#[test]
fn relay_address_parts() {
    let ok = relay_address_of(Some("ns.example.com"), Some(9443), "hc").unwrap();
    assert_eq!(ok.as_str(), "wss://ns.example.com:9443/$hc/hc");
    let missing = relay_address_of(None, None, "hc").unwrap_err();
    assert!(matches!(missing, RelayError::InvalidConnectionString(m) if m == "missing host"));
    let listener = listener_address_of(Some("ns.example.com"), "hc").unwrap();
    assert_eq!(listener.as_str(), "wss://ns.example.com/$hc/hc");
    let none = listener_address_of(None, "hc").unwrap_err();
    assert!(matches!(none, RelayError::InvalidConnectionString(m) if m == "Endpoint has no host"));
    let bad = listener_address_of(Some("bad host"), "hc").unwrap_err();
    assert!(matches!(bad, RelayError::InvalidConnectionString(m) if m.starts_with("failed to build relay URL: ")));
}

#[test]
fn connect_uri_adds_action_and_id() {
    let address = Url::parse("wss://ns.example.com/$hc/hc?x=1").unwrap();
    let u = azbridge::relay::protocol::uri::connect_uri(&address, "abc");
    let pairs: Vec<(String, String)> =
        u.query_pairs().map(|(k, v)| (k.into_owned(), v.into_owned())).collect();
    assert_eq!(
        pairs,
        vec![
            ("x".to_string(), "1".to_string()),
            ("sb-hc-action".to_string(), "connect".to_string()),
            ("sb-hc-id".to_string(), "abc".to_string()),
        ]
    );
    assert_eq!(u.path(), "/$hc/hc");
}

#[test]
fn filter_query_params_leaves_no_query_when_nothing_is_kept() {
    let url = Url::parse("wss://host:443/$hc/path?sb-hc-action=listen&sb-hc-id=id1").unwrap();
    let filtered = filter_hybrid_connection_query_params(&url);
    assert_eq!(filtered.query(), None);
    assert_eq!(filtered.as_str(), "wss://host/$hc/path");
    assert_eq!(filtered.path(), url.path());
}
