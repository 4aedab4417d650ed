use azbridge::cli::Cli;
use azbridge::config::{Config, LocalForward, RemoteForward};
use azbridge::config_loader::{
    check_startup, effective_log_file, effective_log_level, finish_config, option_yaml,
    StartupProblem,
};
use azbridge::http_forward::{keep_response_header, target_url, HttpForwardConfig};
use azbridge::relay::client::{client_refusal, plan_client, relay_address_text, CredentialSource};
use azbridge::relay::connection_string::RelayConnectionStringBuilder;
use azbridge::relay::error::RelayError;
use azbridge::relay::listener::{
    control_path, control_scheme, control_step, renewal_sleep, ControlAction, ControlEvent,
};

fn empty_cli() -> Cli {
    Cli {
        config_file: None,
        endpoint_uri: None,
        connection_string: None,
        shared_access_key_name: None,
        shared_access_key: None,
        signature: None,
        local_forward: Vec::new(),
        remote_forward: Vec::new(),
        remote_forward_legacy: Vec::new(),
        remote_http_forward: Vec::new(),
        log_file: None,
        quiet: false,
        verbose: 0,
        gateway_ports: false,
        bind_address: None,
        option: Vec::new(),
        keep_alive_interval: None,
        svc_install: false,
        svc_uninstall: false,
        svc: false,
        tui: false,
    }
}

#[test]
fn option_text_becomes_yaml() {
    assert_eq!(option_yaml("ConnectTimeout:45"), "ConnectTimeout: 45");
    assert_eq!(option_yaml("A:b:c"), "A: b:c");
    assert_eq!(option_yaml("NoColon"), "NoColon");
}

#[test]
fn config_merge_precedence() {
    let file = Config {
        azure_relay_endpoint: Some("sb://from-file.servicebus.windows.net".into()),
        log_level: Some("ERROR".into()),
        connect_timeout: Some(30),
        gateway_ports: Some(true),
        ..Config::default()
    };
    let option = Config { connect_timeout: Some(45), ..Config::default() };
    let cli = Cli {
        endpoint_uri: Some("sb://from-cli.servicebus.windows.net".into()),
        verbose: 1,
        local_forward: vec!["8080:test".into()],
        ..empty_cli()
    };
    let config = finish_config(&vec![file, option], &cli, None);
    assert_eq!(config.azure_relay_endpoint.as_deref(), Some("sb://from-cli.servicebus.windows.net"));
    assert_eq!(config.connect_timeout, Some(45));
    assert_eq!(config.gateway_ports, Some(true));
    assert_eq!(config.log_level.as_deref(), Some("VERBOSE"));
    assert_eq!(config.local_forward.len(), 1);
}

#[test]
fn env_var_connection_string_fallback() {
    let val = "Endpoint=sb://test-env.servicebus.windows.net/;SharedAccessKeyName=RootManageSharedAccessKey;SharedAccessKey=TESTKEY123=";
    let cli = Cli { local_forward: vec!["8080:relay".into()], ..empty_cli() };
    let config = finish_config(&Vec::new(), &cli, Some(val));
    assert_eq!(config.azure_relay_connection_string.as_deref(), Some(val));
    let config = finish_config(&Vec::new(), &cli, Some(""));
    assert!(config.azure_relay_connection_string.is_none());
}

#[test]
fn cli_overrides_env_var_connection_string() {
    let env_val = "Endpoint=sb://env.servicebus.windows.net/;SharedAccessKeyName=key;SharedAccessKey=ENV=";
    let cli_val = "Endpoint=sb://cli.servicebus.windows.net/;SharedAccessKeyName=key;SharedAccessKey=CLI=";
    let cli = Cli {
        connection_string: Some(cli_val.into()),
        local_forward: vec!["8080:relay".into()],
        ..empty_cli()
    };
    let config = finish_config(&Vec::new(), &cli, Some(env_val));
    assert_eq!(config.azure_relay_connection_string.as_deref(), Some(cli_val));
}

#[test]
fn load_config_normalizes_flat_local_forward() {
    let file = Config {
        local_forward: vec![LocalForward {
            relay_name: "test".into(),
            bind_port: Some(8080),
            bind_address: Some("127.0.0.1".into()),
            ..LocalForward::default()
        }],
        ..Config::default()
    };
    let config = finish_config(&vec![file], &empty_cli(), None);
    assert_eq!(config.local_forward.len(), 1);
    assert_eq!(config.local_forward[0].bindings.len(), 1);
    assert_eq!(config.local_forward[0].bindings[0].bind_port, 8080);
    assert_eq!(config.local_forward[0].bindings[0].bind_address.as_deref(), Some("127.0.0.1"));
}

#[test]
fn startup_checks() {
    assert_eq!(check_startup(&Config::default()), Err(StartupProblem::NoForwards));
    let mut config = Config::default();
    config.remote_forward.push(RemoteForward { relay_name: "r".into(), ..RemoteForward::default() });
    assert_eq!(check_startup(&config), Err(StartupProblem::NoConnection));
    config.remote_forward[0].connection_string = Some("Endpoint=sb://x/".into());
    assert_eq!(check_startup(&config), Ok(()));
    config.local_forward.push(LocalForward { relay_name: "l".into(), ..LocalForward::default() });
    assert_eq!(check_startup(&config), Err(StartupProblem::NoConnection));
    config.azure_relay_endpoint = Some("sb://ns/".into());
    assert_eq!(check_startup(&config), Ok(()));
}

#[test]
fn log_level_and_file_choice() {
    let config = Config {
        log_level: Some("ERROR".into()),
        log_file_name: Some("/var/log/a.log".into()),
        ..Config::default()
    };
    assert_eq!(effective_log_level(&empty_cli(), &config).as_deref(), Some("ERROR"));
    assert_eq!(effective_log_level(&Cli { quiet: true, ..empty_cli() }, &config).as_deref(), Some("QUIET"));
    assert_eq!(effective_log_level(&Cli { verbose: 3, ..empty_cli() }, &config).as_deref(), Some("DEBUG3"));
    assert_eq!(effective_log_file(&empty_cli(), &config).as_deref(), Some("/var/log/a.log"));
    let cli = Cli { log_file: Some("/tmp/x.log".into()), ..empty_cli() };
    assert_eq!(effective_log_file(&cli, &config).as_deref(), Some("/tmp/x.log"));
}

#[test]
fn http_target_urls() {
    let config = HttpForwardConfig {
        host: "localhost".into(),
        port: 8080,
        https: false,
        insecure: false,
        path_prefix: Some("/api/".into()),
    };
    assert_eq!(target_url(&config, "/relay/x?y=1", "relay"), "http://localhost:8080/api/x?y=1");
    assert_eq!(target_url(&config, "/relay", "relay"), "http://localhost:8080/api/");
    assert_eq!(target_url(&config, "other", "relay"), "http://localhost:8080/api/other");
    assert!(keep_response_header("Content-Type"));
    assert!(!keep_response_header("Transfer-Encoding"));
    assert!(!keep_response_header("TRANSFER-ENCODING"));
}

#[test]
fn client_plans() {
    let mut b = RelayConnectionStringBuilder::new();
    assert!(matches!(plan_client(&b), Err(RelayError::InvalidConnectionString(m)) if m == "missing Endpoint"));
    b.set_endpoint(url::Url::parse("sb://ns.servicebus.windows.net").unwrap());
    assert!(matches!(plan_client(&b), Err(RelayError::InvalidConnectionString(m)) if m == "missing EntityPath"));
    b.set_entity_path("hc");
    let p = plan_client(&b).unwrap();
    assert_eq!(p.entity_path, "hc");
    assert!(matches!(p.credentials, CredentialSource::Ambient));
    b.set_shared_access_key_name("n").set_shared_access_key("k");
    assert!(matches!(plan_client(&b).unwrap().credentials, CredentialSource::KeyPair { .. }));
    b.set_shared_access_signature("sig");
    assert!(matches!(plan_client(&b), Err(RelayError::InvalidArgument { .. })));
    b.clear_shared_access_key().clear_shared_access_key_name();
    assert!(matches!(plan_client(&b).unwrap().credentials, CredentialSource::Signature(s) if s == "sig"));
}

#[test]
fn relay_addresses_and_refusals() {
    assert_eq!(relay_address_text("ns.example", None, "hc"), "wss://ns.example:443/$hc/hc");
    assert_eq!(relay_address_text("ns.example", Some(9000), "hc"), "wss://ns.example:9000/$hc/hc");
    match client_refusal(401, "401 Unauthorized", "t1", "bad") {
        RelayError::AuthorizationFailed(m) => {
            assert_eq!(m, "server returned 401 Unauthorized for tracking_id=t1: bad")
        }
        _ => panic!("401 is an authorization failure"),
    }
    match client_refusal(404, "404 Not Found", "t2", "") {
        RelayError::EndpointNotFound(m) => assert_eq!(m, "server returned 404 for tracking_id=t2: "),
        _ => panic!("404 is an unknown endpoint"),
    }
    assert!(matches!(client_refusal(500, "500 Internal Server Error", "t", ""), RelayError::Communication { .. }));
}

#[test]
fn control_channel_decisions() {
    assert_eq!(control_scheme("ws"), "ws");
    assert_eq!(control_scheme("http"), "ws");
    assert_eq!(control_scheme("wss"), "wss");
    assert_eq!(control_scheme("sb"), "wss");
    assert_eq!(control_path("/$hc/myconn"), "myconn");
    assert_eq!(control_path("/plain"), "/plain");
    assert!(matches!(control_step(ControlEvent::Ping(vec![1, 2])), ControlAction::Pong(p) if p == vec![1, 2]));
    assert!(matches!(control_step(ControlEvent::KeepAliveTick), ControlAction::SendPing));
    assert!(matches!(control_step(ControlEvent::Closed), ControlAction::Stop));
    assert!(matches!(control_step(ControlEvent::Shutdown), ControlAction::CloseAndStop));
    assert!(matches!(control_step(ControlEvent::Unreadable), ControlAction::Ignore));
}

#[test]
fn token_renewal_sleep() {
    assert_eq!(renewal_sleep(10_000, 6_400, 0), (3_300, 0));
    assert_eq!(renewal_sleep(10_000, 6_399, 500_000_000), (3_300, 500_000_000));
    assert_eq!(renewal_sleep(10_000, 9_800, 0), (30, 0));
    assert_eq!(renewal_sleep(10_000, 10_001, 0), (3_300, 0));
}
