use azbridge::relay::protocol::uri::{
    audience_for, build_uri, build_uri_with_token, filter_hybrid_connection_query_params,
    hybrid_connection_uri_text, keep_non_relay_query_pairs, normalize_audience,
};
use azbridge::relay::connection_string::{
    parse_authentication_type, AuthenticationType, RelayConnectionStringBuilder,
};
use azbridge::relay::error::RelayError;

#[test]
fn audience_strips_hc_prefix_and_adds_slash() {
    assert_eq!(
        audience_for("contoso.servicebus.windows.net", "/$hc/myconn"),
        "http://contoso.servicebus.windows.net/myconn/"
    );
    assert_eq!(
        audience_for("contoso.servicebus.windows.net", "/hyco/"),
        "http://contoso.servicebus.windows.net/hyco/"
    );
    assert_eq!(audience_for("h", ""), "http://h/");
}

#[test]
fn normalize_audience_sb_scheme_to_http() {
    let url = url::Url::parse("sb://contoso.servicebus.windows.net/hyco").unwrap();
    assert_eq!(normalize_audience(&url), "http://contoso.servicebus.windows.net/hyco/");
}

#[test]
fn normalize_audience_lowercases_host() {
    let url = url::Url::parse("wss://CONTOSO.servicebus.windows.net/$hc/myconn").unwrap();
    assert_eq!(normalize_audience(&url), "http://contoso.servicebus.windows.net/myconn/");
}

#[test]
fn uri_text_and_builders() {
    assert_eq!(
        hybrid_connection_uri_text("wss", "ns.example.com", 443, "hc1"),
        "wss://ns.example.com:443/$hc/hc1"
    );
    let u = build_uri("ns.example.com", 443, "hc1", "listen", "id-1").unwrap();
    assert_eq!(u.as_str(), "wss://ns.example.com/$hc/hc1?sb-hc-action=listen&sb-hc-id=id-1");
    let u = build_uri_with_token("ns.example.com", 8443, "hc1", "connect", "x", "tok en").unwrap();
    assert_eq!(
        u.as_str(),
        "wss://ns.example.com:8443/$hc/hc1?sb-hc-action=connect&sb-hc-id=x&sb-hc-token=tok+en"
    );
}

#[test]
fn filter_keeps_foreign_query_pairs() {
    let pairs: Vec<(String, String)> = vec![
        ("sb-hc-action".into(), "listen".into()),
        ("foo".into(), "bar".into()),
        ("sb-hc-id".into(), "1".into()),
        ("baz".into(), "q".into()),
    ];
    let kept = keep_non_relay_query_pairs(&pairs);
    assert_eq!(kept, vec![("foo".to_string(), "bar".to_string()), ("baz".into(), "q".into())]);
    let u = url::Url::parse("wss://h/$hc/p?sb-hc-action=listen&foo=bar&sb-hc-id=1").unwrap();
    assert_eq!(filter_hybrid_connection_query_params(&u).as_str(), "wss://h/$hc/p?foo=bar");
}

#[test]
fn authentication_type_parsing() {
    assert_eq!(parse_authentication_type("Managed Identity"), AuthenticationType::ManagedIdentity);
    assert_eq!(parse_authentication_type("MANAGEDIDENTITY"), AuthenticationType::ManagedIdentity);
    assert_eq!(parse_authentication_type("sas"), AuthenticationType::Other);
    assert_eq!(AuthenticationType::default(), AuthenticationType::Unset);
}

#[test]
fn builder_validation_rules() {
    let mut b = RelayConnectionStringBuilder::new();
    assert!(b.validate().is_ok());
    b.set_shared_access_key("key");
    match b.validate() {
        Err(RelayError::InvalidArgument { name, .. }) => assert_eq!(name, "SharedAccessKeyName"),
        _ => panic!("a key needs a key name"),
    }
    b.set_shared_access_key_name("name");
    assert!(b.validate().is_ok());
    b.set_shared_access_signature("sig");
    assert!(b.validate().is_err());
    b.clear_shared_access_key().clear_shared_access_key_name();
    assert!(b.validate().is_ok());
    b.set_authentication(AuthenticationType::ManagedIdentity);
    assert!(b.validate().is_err());
}

#[test]
fn builder_setters_and_getters() {
    let mut b = RelayConnectionStringBuilder::new();
    let url = url::Url::parse("sb://test.servicebus.windows.net").unwrap();
    b.set_endpoint(url.clone())
        .set_entity_path("my-hc")
        .set_shared_access_key_name("policy")
        .set_shared_access_key("secret")
        .set_operation_timeout(std::time::Duration::from_secs(60))
        .set_authentication(AuthenticationType::ManagedIdentity);
    assert_eq!(b.endpoint().unwrap().as_str(), url.as_str());
    assert_eq!(b.entity_path(), Some("my-hc"));
    assert_eq!(b.shared_access_key_name(), Some("policy"));
    assert_eq!(b.shared_access_key(), Some("secret"));
    assert_eq!(b.operation_timeout(), Some(std::time::Duration::from_secs(60)));
    assert_eq!(*b.authentication(), AuthenticationType::ManagedIdentity);
    b.clear_endpoint().clear_entity_path().clear_operation_timeout();
    assert!(b.endpoint().is_none());
    assert!(b.entity_path().is_none());
    assert!(b.operation_timeout().is_none());
}
