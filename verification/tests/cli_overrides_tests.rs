use azbridge::cli::Cli;
use azbridge::config::Config;
use azbridge::config_loader::apply_cli_overrides;

fn empty_cli() -> Cli {
    Cli {
        config_file: None,
        endpoint_uri: None,
        connection_string: None,
        shared_access_key_name: None,
        shared_access_key: None,
        signature: None,
        local_forward: Vec::new(),
        remote_forward: Vec::new(),
        remote_forward_legacy: Vec::new(),
        remote_http_forward: Vec::new(),
        log_file: None,
        quiet: false,
        verbose: 0,
        gateway_ports: false,
        bind_address: None,
        option: Vec::new(),
        keep_alive_interval: None,
        svc_install: false,
        svc_uninstall: false,
        svc: false,
        tui: false,
    }
}

#[test]
fn apply_cli_overrides_sets_endpoint() {
    let cli = Cli { endpoint_uri: Some("sb://test.servicebus.windows.net".into()), ..empty_cli() };
    let mut config = Config::default();
    apply_cli_overrides(&mut config, &cli);
    assert_eq!(config.azure_relay_endpoint.as_deref(), Some("sb://test.servicebus.windows.net"));
}

#[test]
fn apply_cli_overrides_quiet_sets_log_level() {
    let cli = Cli { quiet: true, verbose: 2, local_forward: vec!["8080:r".into()], ..empty_cli() };
    let mut config = Config::default();
    apply_cli_overrides(&mut config, &cli);
    assert_eq!(config.log_level.as_deref(), Some("QUIET"));
    assert_eq!(config.local_forward.len(), 1);
}

#[test]
fn apply_cli_overrides_verbose_sets_log_level() {
    let mut config = Config::default();
    apply_cli_overrides(&mut config, &Cli { verbose: 1, ..empty_cli() });
    assert_eq!(config.log_level.as_deref(), Some("VERBOSE"));
    apply_cli_overrides(&mut config, &Cli { verbose: 2, ..empty_cli() });
    assert_eq!(config.log_level.as_deref(), Some("DEBUG"));
    apply_cli_overrides(&mut config, &Cli { verbose: 7, ..empty_cli() });
    assert_eq!(config.log_level.as_deref(), Some("DEBUG3"));
    apply_cli_overrides(&mut config, &empty_cli());
    assert_eq!(config.log_level.as_deref(), Some("DEBUG3"));
}

#[test]
fn apply_cli_overrides_keeps_unset_values() {
    let mut config = Config {
        azure_relay_connection_string: Some("from-file".into()),
        gateway_ports: Some(false),
        keep_alive_interval: Some(10),
        ..Config::default()
    };
    apply_cli_overrides(&mut config, &empty_cli());
    assert_eq!(config.azure_relay_connection_string.as_deref(), Some("from-file"));
    assert_eq!(config.gateway_ports, Some(false));
    assert_eq!(config.keep_alive_interval, Some(10));
    let cli = Cli {
        connection_string: Some("from-cli".into()),
        gateway_ports: true,
        keep_alive_interval: Some(30),
        log_file: Some("/tmp/log.txt".into()),
        bind_address: Some("10.0.0.1".into()),
        ..empty_cli()
    };
    apply_cli_overrides(&mut config, &cli);
    assert_eq!(config.azure_relay_connection_string.as_deref(), Some("from-cli"));
    assert_eq!(config.gateway_ports, Some(true));
    assert_eq!(config.keep_alive_interval, Some(30));
    assert_eq!(config.log_file_name.as_deref(), Some("/tmp/log.txt"));
    assert_eq!(config.bind_address.as_deref(), Some("10.0.0.1"));
}

#[test]
fn apply_cli_overrides_appends_parsed_rules_only() {
    let cli = Cli {
        local_forward: vec!["8080:relay".into(), "not valid".into()],
        remote_forward: vec!["relay:3306".into()],
        remote_forward_legacy: vec!["legacy:localhost:22".into()],
        remote_http_forward: vec!["web:http/localhost:8080".into(), ":".into()],
        ..empty_cli()
    };
    let mut config = Config::default();
    apply_cli_overrides(&mut config, &cli);
    assert_eq!(config.local_forward.len(), 1);
    assert_eq!(config.local_forward[0].relay_name, "relay");
    assert_eq!(config.remote_forward.len(), 3);
    assert_eq!(config.remote_forward[0].relay_name, "relay");
    assert_eq!(config.remote_forward[1].relay_name, "legacy");
    assert_eq!(config.remote_forward[2].relay_name, "web");
    assert!(config.remote_forward[2].bindings[0].http);
}
