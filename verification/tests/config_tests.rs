//! Tests of the forwarding-expression parsers and of configuration
//! validation, layering and normalisation.

use azbridge::config::{
    parse_http_binding, parse_local_forward, parse_remote_forward, parse_remote_forward_legacy,
    parse_remote_http_forward, Config, LocalForward, LocalForwardBinding, RemoteForward,
    RemoteForwardBinding,
};


// -----------------------------------------------------------------------
// -L parser tests
// -----------------------------------------------------------------------

#[test]
fn parse_local_forward_port_only() {
    let lf = parse_local_forward("29876:myrelay").unwrap();
    assert_eq!(lf.relay_name, "myrelay");
    assert_eq!(lf.bindings.len(), 1);
    assert_eq!(lf.bindings[0].bind_port, 29876);
    assert!(lf.bindings[0].bind_address.is_none());
}

#[test]
fn parse_local_forward_host_port() {
    let lf = parse_local_forward("127.0.0.1:29876:myrelay").unwrap();
    assert_eq!(lf.relay_name, "myrelay");
    assert_eq!(lf.bindings.len(), 1);
    assert_eq!(
        lf.bindings[0].bind_address.as_deref(),
        Some("127.0.0.1")
    );
    assert_eq!(lf.bindings[0].bind_port, 29876);
}

#[test]
fn parse_local_forward_with_port_name() {
    let lf = parse_local_forward("29876/myport:myrelay").unwrap();
    assert_eq!(lf.relay_name, "myrelay");
    assert_eq!(lf.bindings[0].bind_port, 29876);
    assert_eq!(lf.bindings[0].port_name.as_deref(), Some("myport"));
}

#[test]
fn parse_local_forward_with_port_name_reversed() {
    let lf = parse_local_forward("myport/29876:myrelay").unwrap();
    assert_eq!(lf.relay_name, "myrelay");
    assert_eq!(lf.bindings[0].bind_port, 29876);
    assert_eq!(lf.bindings[0].port_name.as_deref(), Some("myport"));
}

#[test]
fn parse_local_forward_udp() {
    let lf = parse_local_forward("29876U:myrelay").unwrap();
    assert_eq!(lf.relay_name, "myrelay");
    assert_eq!(lf.bindings[0].bind_port, -29876);
}

#[test]
fn parse_local_forward_multiple_bindings() {
    let lf = parse_local_forward("29876;29877:myrelay").unwrap();
    assert_eq!(lf.relay_name, "myrelay");
    assert_eq!(lf.bindings.len(), 2);
    assert_eq!(lf.bindings[0].bind_port, 29876);
    assert_eq!(lf.bindings[1].bind_port, 29877);
}

#[test]
fn parse_local_forward_multiple_bindings_with_hosts() {
    let lf =
        parse_local_forward("127.0.0.1:29876;127.0.0.2:29877:myrelay")
            .unwrap();
    assert_eq!(lf.bindings.len(), 2);
    assert_eq!(
        lf.bindings[0].bind_address.as_deref(),
        Some("127.0.0.1")
    );
    assert_eq!(lf.bindings[0].bind_port, 29876);
    assert_eq!(
        lf.bindings[1].bind_address.as_deref(),
        Some("127.0.0.2")
    );
    assert_eq!(lf.bindings[1].bind_port, 29877);
}

#[test]
fn parse_local_forward_unix_socket() {
    let lf = parse_local_forward("/tmp/mysocket:myrelay").unwrap();
    assert_eq!(lf.relay_name, "myrelay");
    assert_eq!(lf.bindings.len(), 1);
    assert_eq!(
        lf.bindings[0].bind_local_socket.as_deref(),
        Some("/tmp/mysocket")
    );
}

#[test]
fn parse_local_forward_empty_fails() {
    assert!(parse_local_forward("").is_err());
}

#[test]
fn parse_local_forward_no_relay_fails() {
    assert!(parse_local_forward("29876").is_err());
}

#[test]
fn parse_local_forward_empty_relay_name_fails() {
    assert!(parse_local_forward("29876:").is_err());
}

#[test]
fn parse_local_forward_invalid_relay_name_fails() {
    assert!(parse_local_forward("29876:relay name!").is_err());
}

// -----------------------------------------------------------------------
// -T parser tests
// -----------------------------------------------------------------------

#[test]
fn parse_remote_forward_port_only() {
    let rf = parse_remote_forward("myrelay:29876").unwrap();
    assert_eq!(rf.relay_name, "myrelay");
    assert_eq!(rf.bindings.len(), 1);
    assert_eq!(rf.bindings[0].host_port, 29876);
}

#[test]
fn parse_remote_forward_host_port() {
    let rf = parse_remote_forward("myrelay:hostname:29876").unwrap();
    assert_eq!(rf.relay_name, "myrelay");
    assert_eq!(rf.bindings[0].host.as_deref(), Some("hostname"));
    assert_eq!(rf.bindings[0].host_port, 29876);
}

#[test]
fn parse_remote_forward_with_port_name() {
    let rf = parse_remote_forward("myrelay:myport/29876").unwrap();
    assert_eq!(rf.bindings[0].host_port, 29876);
    assert_eq!(rf.bindings[0].port_name.as_deref(), Some("myport"));
}

#[test]
fn parse_remote_forward_udp() {
    let rf = parse_remote_forward("myrelay:29876U").unwrap();
    assert_eq!(rf.bindings[0].host_port, -29876);
}

#[test]
fn parse_remote_forward_unix_socket() {
    let rf = parse_remote_forward("myrelay:/tmp/mysocket").unwrap();
    assert_eq!(
        rf.bindings[0].local_socket.as_deref(),
        Some("/tmp/mysocket")
    );
}

#[test]
fn parse_remote_forward_multiple_bindings() {
    let rf = parse_remote_forward("myrelay:29876;29877").unwrap();
    assert_eq!(rf.bindings.len(), 2);
    assert_eq!(rf.bindings[0].host_port, 29876);
    assert_eq!(rf.bindings[1].host_port, 29877);
}

#[test]
fn parse_remote_forward_relay_name_with_special_chars() {
    let rf =
        parse_remote_forward("my_relay/sub.name-1:29876").unwrap();
    assert_eq!(rf.relay_name, "my_relay/sub.name-1");
    assert_eq!(rf.bindings[0].host_port, 29876);
}

#[test]
fn parse_remote_forward_empty_fails() {
    assert!(parse_remote_forward("").is_err());
}

#[test]
fn parse_remote_forward_no_binding_fails() {
    assert!(parse_remote_forward("myrelay:").is_err());
}

// -----------------------------------------------------------------------
// -R (legacy) parser tests
// -----------------------------------------------------------------------

#[test]
fn parse_remote_forward_legacy_host_port() {
    let rf =
        parse_remote_forward_legacy("myrelay:myhost:8080").unwrap();
    assert_eq!(rf.relay_name, "myrelay");
    assert_eq!(rf.bindings[0].host.as_deref(), Some("myhost"));
    assert_eq!(rf.bindings[0].host_port, 8080);
}

#[test]
fn parse_remote_forward_legacy_host_portname_port() {
    let rf = parse_remote_forward_legacy("myrelay:myhost:pname/8080")
        .unwrap();
    assert_eq!(rf.bindings[0].host.as_deref(), Some("myhost"));
    assert_eq!(rf.bindings[0].host_port, 8080);
    assert_eq!(rf.bindings[0].port_name.as_deref(), Some("pname"));
}

#[test]
fn parse_remote_forward_legacy_port_only() {
    let rf = parse_remote_forward_legacy("myrelay:8080").unwrap();
    assert_eq!(rf.bindings[0].host_port, 8080);
}

// -----------------------------------------------------------------------
// -H parser tests
// -----------------------------------------------------------------------

#[test]
fn parse_http_forward_basic() {
    let rf =
        parse_remote_http_forward("myrelay:http/localhost:8080")
            .unwrap();
    assert_eq!(rf.relay_name, "myrelay");
    assert_eq!(rf.bindings.len(), 1);
    assert!(rf.bindings[0].http);
    assert_eq!(rf.bindings[0].host.as_deref(), Some("localhost"));
    assert_eq!(rf.bindings[0].host_port, 8080);
    assert_eq!(rf.bindings[0].port_name.as_deref(), Some("http"));
}

#[test]
fn parse_http_forward_https() {
    let rf =
        parse_remote_http_forward("myrelay:https/localhost:443")
            .unwrap();
    assert!(rf.bindings[0].http);
    assert!(!rf.bindings[0].insecure);
    assert_eq!(rf.bindings[0].host.as_deref(), Some("localhost"));
    assert_eq!(rf.bindings[0].host_port, 443);
    assert_eq!(rf.bindings[0].port_name.as_deref(), Some("https"));
}

#[test]
fn parse_http_forward_with_path() {
    let rf = parse_remote_http_forward(
        "myrelay:http/localhost/api/v1:8080",
    )
    .unwrap();
    assert_eq!(rf.bindings[0].host.as_deref(), Some("localhost"));
    assert_eq!(rf.bindings[0].host_port, 8080);
    assert_eq!(rf.bindings[0].path.as_deref(), Some("/api/v1"));
}

#[test]
fn parse_http_forward_default_port_http() {
    let rf =
        parse_remote_http_forward("myrelay:http/localhost").unwrap();
    assert_eq!(rf.bindings[0].host_port, 80);
    assert_eq!(rf.bindings[0].host.as_deref(), Some("localhost"));
}

#[test]
fn parse_http_forward_default_port_https() {
    let rf =
        parse_remote_http_forward("myrelay:https/localhost").unwrap();
    assert_eq!(rf.bindings[0].host_port, 443);
}

#[test]
fn parse_http_forward_bad_scheme_fails() {
    assert!(
        parse_remote_http_forward("myrelay:ftp/localhost:21").is_err()
    );
}

#[test]
fn parse_http_forward_empty_fails() {
    assert!(parse_remote_http_forward("").is_err());
}

// -----------------------------------------------------------------------
// Config YAML round-trip
// -----------------------------------------------------------------------

#[test]
fn validate_good_config() {
    let config = Config {
        address_family: Some("inet".to_string()),
        connection_attempts: Some(3),
        connect_timeout: Some(30),
        local_forward: vec![LocalForward {
            relay_name: "valid-relay".to_string(),
            bindings: vec![LocalForwardBinding {
                bind_port: 8080,
                ..Default::default()
            }],
            ..Default::default()
        }],
        ..Default::default()
    };
    assert!(config.validate().is_ok());
}

#[test]
fn validate_bad_address_family() {
    let config = Config {
        address_family: Some("ipx".to_string()),
        ..Default::default()
    };
    assert!(config.validate().is_err());
}

#[test]
fn validate_connection_attempts_too_low() {
    let config = Config {
        connection_attempts: Some(0),
        ..Default::default()
    };
    assert!(config.validate().is_err());
}

#[test]
fn validate_connection_attempts_too_high() {
    let config = Config {
        connection_attempts: Some(11),
        ..Default::default()
    };
    assert!(config.validate().is_err());
}

#[test]
fn validate_connect_timeout_range() {
    let config = Config {
        connect_timeout: Some(121),
        ..Default::default()
    };
    assert!(config.validate().is_err());

    let ok = Config {
        connect_timeout: Some(120),
        ..Default::default()
    };
    assert!(ok.validate().is_ok());
}

#[test]
fn validate_bad_relay_name() {
    let config = Config {
        local_forward: vec![LocalForward {
            relay_name: "bad relay!".to_string(),
            bindings: vec![LocalForwardBinding {
                bind_port: 80,
                ..Default::default()
            }],
            ..Default::default()
        }],
        ..Default::default()
    };
    assert!(config.validate().is_err());
}

#[test]
fn validate_bad_remote_relay_name() {
    let config = Config {
        remote_forward: vec![RemoteForward {
            relay_name: "bad relay!".to_string(),
            bindings: vec![RemoteForwardBinding {
                host_port: 80,
                ..Default::default()
            }],
            ..Default::default()
        }],
        ..Default::default()
    };
    assert!(config.validate().is_err());
}

// -----------------------------------------------------------------------
// Merge tests
// -----------------------------------------------------------------------

#[test]
fn merge_overrides_values() {
    let mut base = Config {
        address_family: Some("inet".to_string()),
        connection_attempts: Some(1),
        local_forward: vec![LocalForward {
            relay_name: "base-relay".to_string(),
            ..Default::default()
        }],
        ..Default::default()
    };

    let overlay = Config {
        address_family: Some("inet6".to_string()),
        log_level: Some("debug".to_string()),
        local_forward: vec![LocalForward {
            relay_name: "overlay-relay".to_string(),
            ..Default::default()
        }],
        ..Default::default()
    };

    base.merge(&overlay);
    assert_eq!(base.address_family.as_deref(), Some("inet6"));
    assert_eq!(base.connection_attempts, Some(1)); // not overridden
    assert_eq!(base.log_level.as_deref(), Some("debug"));
    assert_eq!(base.local_forward.len(), 2);
    assert_eq!(base.local_forward[0].relay_name, "base-relay");
    assert_eq!(base.local_forward[1].relay_name, "overlay-relay");
}

#[test]
fn merge_clear_all_forwardings() {
    let mut base = Config {
        local_forward: vec![LocalForward {
            relay_name: "lf1".to_string(),
            ..Default::default()
        }],
        remote_forward: vec![RemoteForward {
            relay_name: "rf1".to_string(),
            ..Default::default()
        }],
        ..Default::default()
    };

    let overlay = Config {
        clear_all_forwardings: Some(true),
        local_forward: vec![LocalForward {
            relay_name: "new-lf".to_string(),
            ..Default::default()
        }],
        ..Default::default()
    };

    base.merge(&overlay);
    assert_eq!(base.local_forward.len(), 1);
    assert_eq!(base.local_forward[0].relay_name, "new-lf");
    assert_eq!(base.remote_forward.len(), 0);
}

#[test]
fn merge_none_does_not_override() {
    let mut base = Config {
        address_family: Some("inet".to_string()),
        ..Default::default()
    };
    let overlay = Config::default();
    base.merge(&overlay);
    assert_eq!(base.address_family.as_deref(), Some("inet"));
}

// -----------------------------------------------------------------------
// Normalize tests
// -----------------------------------------------------------------------

#[test]
fn local_forward_normalize_promotes_fields() {
    let mut lf = LocalForward {
        relay_name: "test".to_string(),
        bind_port: Some(8080),
        bind_address: Some("127.0.0.1".to_string()),
        port_name: Some("myport".to_string()),
        ..Default::default()
    };
    lf.normalize();
    assert_eq!(lf.bindings.len(), 1);
    assert_eq!(lf.bindings[0].bind_port, 8080);
    assert_eq!(
        lf.bindings[0].bind_address.as_deref(),
        Some("127.0.0.1")
    );
    assert_eq!(lf.bindings[0].port_name.as_deref(), Some("myport"));
    // Convenience fields should be consumed
    assert!(lf.bind_port.is_none());
    assert!(lf.bind_address.is_none());
}

#[test]
fn local_forward_normalize_noop_when_bindings_exist() {
    let mut lf = LocalForward {
        relay_name: "test".to_string(),
        bindings: vec![LocalForwardBinding {
            bind_port: 9090,
            ..Default::default()
        }],
        bind_port: Some(8080),
        ..Default::default()
    };
    lf.normalize();
    assert_eq!(lf.bindings.len(), 1);
    assert_eq!(lf.bindings[0].bind_port, 9090);
}

#[test]
fn remote_forward_normalize_promotes_fields() {
    let mut rf = RemoteForward {
        relay_name: "test".to_string(),
        host: Some("myhost".to_string()),
        host_port: Some(3000),
        ..Default::default()
    };
    rf.normalize();
    assert_eq!(rf.bindings.len(), 1);
    assert_eq!(rf.bindings[0].host.as_deref(), Some("myhost"));
    assert_eq!(rf.bindings[0].host_port, 3000);
}

// -----------------------------------------------------------------------
// Edge cases & error paths
// -----------------------------------------------------------------------

#[test]
fn parse_local_forward_whitespace_trimmed() {
    let lf = parse_local_forward("  29876:myrelay  ").unwrap();
    assert_eq!(lf.relay_name, "myrelay");
    assert_eq!(lf.bindings[0].bind_port, 29876);
}

#[test]
fn parse_remote_forward_whitespace_trimmed() {
    let rf = parse_remote_forward("  myrelay:29876  ").unwrap();
    assert_eq!(rf.relay_name, "myrelay");
    assert_eq!(rf.bindings[0].host_port, 29876);
}

#[test]
fn parse_local_forward_udp_lowercase() {
    let lf = parse_local_forward("29876u:myrelay").unwrap();
    assert_eq!(lf.bindings[0].bind_port, -29876);
}

#[test]
fn parse_remote_forward_host_port_with_port_name() {
    let rf =
        parse_remote_forward("myrelay:pname/myhost:8080").unwrap();
    assert_eq!(rf.bindings[0].host.as_deref(), Some("myhost"));
    assert_eq!(rf.bindings[0].host_port, 8080);
    assert_eq!(rf.bindings[0].port_name.as_deref(), Some("pname"));
}

#[test]
fn parse_http_forward_multiple_bindings() {
    let rf = parse_remote_http_forward(
        "myrelay:http/host1:8080;http/host2:9090",
    )
    .unwrap();
    assert_eq!(rf.bindings.len(), 2);
    assert_eq!(rf.bindings[0].host.as_deref(), Some("host1"));
    assert_eq!(rf.bindings[0].host_port, 8080);
    assert_eq!(rf.bindings[1].host.as_deref(), Some("host2"));
    assert_eq!(rf.bindings[1].host_port, 9090);
}

#[test]
fn default_config_validates() {
    let config = Config::default();
    assert!(config.validate().is_ok());
}

#[test]
fn parse_http_binding_https_not_insecure_by_default() {
    let binding = parse_http_binding("https/localhost:443").unwrap();
    assert!(!binding.insecure, "HTTPS bindings should not default to insecure");
    assert_eq!(binding.host.as_deref(), Some("localhost"));
    assert_eq!(binding.host_port, 443);
    assert!(binding.http);
}

#[test]
fn parse_http_binding_http_not_insecure() {
    let binding = parse_http_binding("http/localhost:80").unwrap();
    assert!(!binding.insecure, "HTTP bindings should not be insecure");
    assert_eq!(binding.host.as_deref(), Some("localhost"));
    assert_eq!(binding.host_port, 80);
    assert!(binding.http);
}

#[test]
fn validate_good_address_families() {
    for af in &["any", "inet", "inet6", "Any", "INET", "Inet6"] {
        let config = Config {
            address_family: Some(af.to_string()),
            ..Default::default()
        };
        assert!(
            config.validate().is_ok(),
            "Expected '{af}' to be valid"
        );
    }
}

#[test]
fn parse_http_forward_colon_form() {
    let rf = parse_remote_http_forward("my-relay:http:localhost:8080").unwrap();
    assert_eq!(rf.relay_name, "my-relay");
    assert_eq!(rf.bindings.len(), 1);
    let b = &rf.bindings[0];
    assert!(b.http);
    assert_eq!(b.host.as_deref(), Some("localhost"));
    assert_eq!(b.host_port, 8080);
    let rf = parse_remote_http_forward("r:https:example.com/api").unwrap();
    let b = &rf.bindings[0];
    assert_eq!(b.host.as_deref(), Some("example.com"));
    assert_eq!(b.host_port, 443);
    assert_eq!(b.path.as_deref(), Some("/api"));
    let rf = parse_remote_http_forward("r:http:example.com:81/x").unwrap();
    assert_eq!(rf.bindings[0].host_port, 81);
    assert_eq!(rf.bindings[0].path.as_deref(), Some("/x"));
}
