use azbridge::http_forward::{filter_forward_headers, strip_relay_prefix, HttpForwardConfig};

fn has_key(headers: &[(String, String)], key: &str) -> bool {
    headers.iter().any(|(k, _)| k == key)
}

fn pairs(items: &[(&str, &str)]) -> Vec<(String, String)> {
    items.iter().map(|(k, v)| (k.to_string(), v.to_string())).collect()
}

#[test]
fn base_url_http() {
    let config = HttpForwardConfig {
        host: "localhost".into(),
        port: 8080,
        https: false,
        insecure: false,
        path_prefix: None,
    };
    assert_eq!(config.base_url(), "http://localhost:8080");
}

#[test]
fn base_url_https() {
    let config = HttpForwardConfig {
        host: "example.com".into(),
        port: 443,
        https: true,
        insecure: false,
        path_prefix: None,
    };
    assert_eq!(config.base_url(), "https://example.com:443");
}

#[test]
fn base_url_with_path_prefix() {
    let config = HttpForwardConfig {
        host: "localhost".into(),
        port: 8080,
        https: false,
        insecure: false,
        path_prefix: Some("/api/v1".into()),
    };
    assert_eq!(config.base_url(), "http://localhost:8080/api/v1");
}

#[test]
fn base_url_with_path_prefix_no_leading_slash() {
    let config = HttpForwardConfig {
        host: "localhost".into(),
        port: 8080,
        https: false,
        insecure: false,
        path_prefix: Some("api".into()),
    };
    assert_eq!(config.base_url(), "http://localhost:8080/api");
}

#[test]
fn filter_headers_removes_internal() {
    let headers = pairs(&[
        ("Host", "relay.example.com"),
        ("Content-Length", "42"),
        ("Content-Type", "application/json"),
        ("X-Custom", "value"),
        ("Authorization", "Bearer token"),
    ]);
    let filtered = filter_forward_headers(&headers);
    assert!(!has_key(&filtered, "Host"));
    assert!(!has_key(&filtered, "Content-Length"));
    assert!(has_key(&filtered, "Content-Type"));
    assert!(has_key(&filtered, "X-Custom"));
    assert!(has_key(&filtered, "Authorization"));
}

#[test]
fn filter_headers_case_insensitive() {
    let headers = pairs(&[
        ("host", "value"),
        ("CONTENT-LENGTH", "0"),
        ("Transfer-Encoding", "chunked"),
        ("Connection", "keep-alive"),
    ]);
    let filtered = filter_forward_headers(&headers);
    assert!(filtered.is_empty());
}

#[test]
fn filter_headers_keeps_order_and_values() {
    let headers = pairs(&[("A", "1"), ("host", "x"), ("B", "2")]);
    let filtered = filter_forward_headers(&headers);
    assert_eq!(filtered, pairs(&[("A", "1"), ("B", "2")]));
}

#[test]
fn strip_relay_prefix_removes_prefix() {
    assert_eq!(strip_relay_prefix("/myrelay/api/data", "myrelay"), "/api/data");
}

#[test]
fn strip_relay_prefix_root_path() {
    assert_eq!(strip_relay_prefix("/myrelay", "myrelay"), "/");
}

#[test]
fn strip_relay_prefix_no_match() {
    assert_eq!(strip_relay_prefix("/other/api/data", "myrelay"), "/other/api/data");
}

#[test]
fn strip_relay_prefix_empty_path() {
    assert_eq!(strip_relay_prefix("", "myrelay"), "");
}

#[test]
fn strip_relay_prefix_with_query() {
    assert_eq!(strip_relay_prefix("/myrelay/api?key=val", "myrelay"), "/api?key=val");
}

#[test]
fn forwarded_headers_keep_distinct_names() {
    let headers: Vec<(String, String)> = vec![
        ("Host".into(), "example.com".into()),
        ("Accept".into(), "text/plain".into()),
        ("TE".into(), "trailers".into()),
        ("X-Trace".into(), "abc".into()),
    ];
    let out = filter_forward_headers(&headers);
    assert_eq!(
        out,
        vec![("Accept".to_string(), "text/plain".to_string()), ("X-Trace".to_string(), "abc".to_string())]
    );
    for (i, a) in out.iter().enumerate() {
        assert!(headers.contains(a));
        for b in &out[i + 1..] {
            assert_ne!(a.0, b.0);
        }
    }
}
