//! Layering the command line over a configuration.

use vstd::prelude::*;

use crate::cli::{texts, Cli};
use crate::config::model::{
    copy_opt_string, local_forward_views, opt_str, remote_forward_views, LocalForwardView,
    RemoteForwardView,
};
use crate::config::parse::{
    local_forward_spec, parse_local_forward, parse_remote_forward, parse_remote_forward_legacy,
    parse_remote_http_forward, remote_forward_spec, RemoteSyntax,
};
use crate::config::root::{
    default_config, merged, normalized_local, normalized_remote, ConfigView,
};
use crate::config::{Config, LocalForward, RemoteForward};
use crate::text::{chars_of, find_char, find_index, lemma_find_index, push_chars, push_str, string_of};

verus! {

/// `value` when given, else `current`.
pub open spec fn given_or(current: Option<Seq<char>>, value: Option<Seq<char>>) -> Option<
    Seq<char>,
> {
    match value {
        Some(v) => Some(v),
        None => current,
    }
}

/// The log level that `-q` and `-v` ask for: `QUIET`, or by the number of
/// `-v` flags `VERBOSE`, `DEBUG` and from three on `DEBUG3`; none without
/// either.
pub open spec fn cli_log_level(quiet: bool, verbose: u8) -> Option<Seq<char>> {
    if quiet {
        Some("QUIET"@)
    } else if verbose >= 3 {
        Some("DEBUG3"@)
    } else if verbose >= 2 {
        Some("DEBUG"@)
    } else if verbose >= 1 {
        Some("VERBOSE"@)
    } else {
        None
    }
}

/// The rules of the `-L` expressions that parse, in order; the others are
/// dropped.
pub open spec fn parsed_locals(exprs: Seq<Seq<char>>) -> Seq<LocalForwardView>
    decreases exprs.len(),
{
    if exprs.len() == 0 {
        Seq::empty()
    } else {
        let rest = parsed_locals(exprs.drop_last());
        match local_forward_spec(exprs.last()) {
            Some(f) => rest.push(f),
            None => rest,
        }
    }
}

/// The rules of the remote expressions of one syntax that parse, in order.
pub open spec fn parsed_remotes(k: RemoteSyntax, exprs: Seq<Seq<char>>) -> Seq<RemoteForwardView>
    decreases exprs.len(),
{
    if exprs.len() == 0 {
        Seq::empty()
    } else {
        let rest = parsed_remotes(k, exprs.drop_last());
        match remote_forward_spec(k, exprs.last()) {
            Some(f) => rest.push(f),
            None => rest,
        }
    }
}

/// The configuration after the command line is applied: each credential,
/// endpoint and address given on the command line replaces the configured
/// one, `-g` turns gateway ports on, `-q`/`-v` set the log level, `-l` the
/// log file, `-a` the keep-alive interval, and the rules of the `-L`, `-T`,
/// `-R` and `-H` expressions that parse are appended (remote ones in that
/// order).
pub open spec fn with_cli(c: ConfigView, cli: Cli) -> ConfigView {
    ConfigView {
        azure_relay_endpoint: given_or(c.azure_relay_endpoint, opt_str(cli.endpoint_uri)),
        azure_relay_connection_string: given_or(
            c.azure_relay_connection_string,
            opt_str(cli.connection_string),
        ),
        azure_relay_shared_access_key_name: given_or(
            c.azure_relay_shared_access_key_name,
            opt_str(cli.shared_access_key_name),
        ),
        azure_relay_shared_access_key: given_or(
            c.azure_relay_shared_access_key,
            opt_str(cli.shared_access_key),
        ),
        azure_relay_shared_access_signature: given_or(
            c.azure_relay_shared_access_signature,
            opt_str(cli.signature),
        ),
        bind_address: given_or(c.bind_address, opt_str(cli.bind_address)),
        gateway_ports: if cli.gateway_ports {
            Some(true)
        } else {
            c.gateway_ports
        },
        log_level: given_or(c.log_level, cli_log_level(cli.quiet, cli.verbose)),
        log_file_name: given_or(c.log_file_name, opt_str(cli.log_file)),
        keep_alive_interval: match cli.keep_alive_interval {
            Some(k) => Some(k),
            None => c.keep_alive_interval,
        },
        local_forward: c.local_forward + parsed_locals(texts(cli.local_forward@)),
        remote_forward: c.remote_forward + parsed_remotes(
            RemoteSyntax::Standard,
            texts(cli.remote_forward@),
        ) + parsed_remotes(RemoteSyntax::Legacy, texts(cli.remote_forward_legacy@))
            + parsed_remotes(RemoteSyntax::Http, texts(cli.remote_http_forward@)),
        ..c
    }
}

/// Replaces `dst` with a copy of `src` when `src` is given.
fn set_if_given(dst: &mut Option<String>, src: &Option<String>)
    ensures
        opt_str(*final(dst)) == given_or(opt_str(*old(dst)), opt_str(*src)),
{
    if src.is_some() {
        *dst = copy_opt_string(src);
    }
}

/// Appends the rules of the `-L` expressions that parse.
fn append_parsed_locals(config: &mut Config, exprs: &Vec<String>)
    ensures
        final(config)@ == (ConfigView {
            local_forward: old(config)@.local_forward + parsed_locals(texts(exprs@)),
            ..old(config)@
        }),
{
    let ghost start = config@;
    let mut i: usize = 0;
    while i < exprs.len()
        invariant
            i <= exprs@.len(),
            config@ == (ConfigView {
                local_forward: start.local_forward + parsed_locals(texts(exprs@.take(i as int))),
                ..start
            }),
        decreases exprs@.len() - i,
    {
        let ghost before = config.local_forward@;
        proof {
            assert(texts(exprs@.take(i + 1)).drop_last() =~= texts(exprs@.take(i as int)));
            assert(texts(exprs@.take(i + 1)).last() == exprs@[i as int]@);
        }
        match parse_local_forward(exprs[i].as_str()) {
            Ok(f) => {
                config.local_forward.push(f);
                assert(local_forward_views(config.local_forward@) =~= local_forward_views(before)
                    .push(config.local_forward@.last()@));
            },
            Err(_) => {},
        }
        i = i + 1;
    }
    assert(exprs@.take(exprs@.len() as int) =~= exprs@);
}

/// Appends the rules of the remote expressions of one syntax that parse.
fn append_parsed_remotes(config: &mut Config, k: RemoteSyntax, exprs: &Vec<String>)
    ensures
        final(config)@ == (ConfigView {
            remote_forward: old(config)@.remote_forward + parsed_remotes(k, texts(exprs@)),
            ..old(config)@
        }),
{
    let ghost start = config@;
    let mut i: usize = 0;
    while i < exprs.len()
        invariant
            i <= exprs@.len(),
            config@ == (ConfigView {
                remote_forward: start.remote_forward + parsed_remotes(
                    k,
                    texts(exprs@.take(i as int)),
                ),
                ..start
            }),
        decreases exprs@.len() - i,
    {
        let ghost before = config.remote_forward@;
        proof {
            assert(texts(exprs@.take(i + 1)).drop_last() =~= texts(exprs@.take(i as int)));
            assert(texts(exprs@.take(i + 1)).last() == exprs@[i as int]@);
        }
        let parsed = match k {
            RemoteSyntax::Standard => parse_remote_forward(exprs[i].as_str()),
            RemoteSyntax::Legacy => parse_remote_forward_legacy(exprs[i].as_str()),
            RemoteSyntax::Http => parse_remote_http_forward(exprs[i].as_str()),
        };
        match parsed {
            Ok(f) => {
                config.remote_forward.push(f);
                assert(remote_forward_views(config.remote_forward@) =~= remote_forward_views(
                    before,
                ).push(config.remote_forward@.last()@));
            },
            Err(_) => {},
        }
        i = i + 1;
    }
    assert(exprs@.take(exprs@.len() as int) =~= exprs@);
}

/// Apply CLI flags onto the config.
pub fn apply_cli_overrides(config: &mut Config, cli: &Cli)
    ensures
        final(config)@ == with_cli(old(config)@, *cli),
{
    set_if_given(&mut config.azure_relay_endpoint, &cli.endpoint_uri);
    set_if_given(&mut config.azure_relay_connection_string, &cli.connection_string);
    set_if_given(&mut config.azure_relay_shared_access_key_name, &cli.shared_access_key_name);
    set_if_given(&mut config.azure_relay_shared_access_key, &cli.shared_access_key);
    set_if_given(&mut config.azure_relay_shared_access_signature, &cli.signature);
    set_if_given(&mut config.bind_address, &cli.bind_address);
    if cli.gateway_ports {
        config.gateway_ports = Some(true);
    }
    if cli.quiet {
        config.log_level = Some("QUIET".to_owned());
    } else if cli.verbose >= 3 {
        config.log_level = Some("DEBUG3".to_owned());
    } else if cli.verbose >= 2 {
        config.log_level = Some("DEBUG".to_owned());
    } else if cli.verbose >= 1 {
        config.log_level = Some("VERBOSE".to_owned());
    }
    set_if_given(&mut config.log_file_name, &cli.log_file);
    if let Some(ka) = cli.keep_alive_interval {
        config.keep_alive_interval = Some(ka);
    }
    append_parsed_locals(config, &cli.local_forward);
    append_parsed_remotes(config, RemoteSyntax::Standard, &cli.remote_forward);
    append_parsed_remotes(config, RemoteSyntax::Legacy, &cli.remote_forward_legacy);
    append_parsed_remotes(config, RemoteSyntax::Http, &cli.remote_http_forward);
    proof {
        let c = old(config)@;
        assert(config@.remote_forward =~= c.remote_forward + parsed_remotes(
            RemoteSyntax::Standard,
            texts(cli.remote_forward@),
        ) + parsed_remotes(RemoteSyntax::Legacy, texts(cli.remote_forward_legacy@))
            + parsed_remotes(RemoteSyntax::Http, texts(cli.remote_http_forward@)));
    }
}

// ---------------------------------------------------------------------------
// Layers
// ---------------------------------------------------------------------------

/// An `-o Key:Value` option as YAML: the first `:` becomes `: `.
pub open spec fn option_yaml_spec(opt: Seq<char>) -> Seq<char> {
    match find_index(opt, ':') {
        Some(i) => opt.take(i) + ": "@ + opt.skip(i + 1),
        None => opt,
    }
}

/// The YAML text of an `-o Key:Value` option.
pub fn option_yaml(opt: &str) -> (r: String)
    ensures
        r@ == option_yaml_spec(opt@),
{
    let cs = chars_of(opt);
    let n = cs.len();
    match find_char(cs.as_slice(), ':') {
        Some(i) => {
            proof {
                lemma_find_index(opt@, ':');
            }
            let mut out: Vec<char> = Vec::new();
            push_chars(&mut out, &cs.as_slice()[0..i]);
            push_str(&mut out, ": ");
            push_chars(&mut out, &cs.as_slice()[i + 1..n]);
            let r = string_of(out.as_slice());
            assert(r@ =~= option_yaml_spec(opt@));
            r
        },
        None => opt.to_owned(),
    }
}

/// The configuration from layers merged in order over an empty one.
pub open spec fn merge_all(layers: Seq<ConfigView>) -> ConfigView
    decreases layers.len(),
{
    if layers.len() == 0 {
        default_config()
    } else {
        merged(merge_all(layers.drop_last()), layers.last())
    }
}

/// The views of a sequence of configurations.
pub open spec fn config_views(v: Seq<Config>) -> Seq<ConfigView> {
    v.map_values(|c: Config| c@)
}

/// The configuration in which the connection string from the environment
/// is used when none is configured (an empty one counts as none).
pub open spec fn with_env_connection_string(c: ConfigView, env: Option<Seq<char>>) -> ConfigView {
    match env {
        Some(e) => if c.azure_relay_connection_string is None && e.len() > 0 {
            ConfigView { azure_relay_connection_string: Some(e), ..c }
        } else {
            c
        },
        None => c,
    }
}

/// The configuration with every forwarding rule normalised.
pub open spec fn with_normalized_forwards(c: ConfigView) -> ConfigView {
    ConfigView {
        local_forward: c.local_forward.map_values(|f: LocalForwardView| normalized_local(f)),
        remote_forward: c.remote_forward.map_values(|f: RemoteForwardView| normalized_remote(f)),
        ..c
    }
}

/// The configuration azbridge runs with: the layers (machine file, user or
/// `-f` file, then each `-o` option) merged in order, then the command line
/// applied, then the connection string from the environment when none is
/// set, and every forwarding rule normalised.
pub open spec fn final_config(
    layers: Seq<ConfigView>,
    cli: Cli,
    env: Option<Seq<char>>,
) -> ConfigView {
    with_normalized_forwards(with_env_connection_string(with_cli(merge_all(layers), cli), env))
}

/// Uses the connection string from the environment when none is configured.
pub fn apply_env_connection_string(config: &mut Config, env: Option<&str>)
    ensures
        final(config)@ == with_env_connection_string(old(config)@, opt_view_str(env)),
{
    if config.azure_relay_connection_string.is_none() {
        if let Some(cs) = env {
            if !cs.is_empty() {
                config.azure_relay_connection_string = Some(cs.to_owned());
            }
        }
    }
}

/// The text of an optional string slice.
pub open spec fn opt_view_str(o: Option<&str>) -> Option<Seq<char>> {
    match o {
        Some(s) => Some(s@),
        None => None,
    }
}

/// Normalises every forwarding rule.
pub fn normalize_forwards(config: &mut Config)
    ensures
        final(config)@ == with_normalized_forwards(old(config)@),
{
    let ghost start = config@;
    let mut locals: Vec<LocalForward> = Vec::new();
    let mut i: usize = 0;
    while i < config.local_forward.len()
        invariant
            i <= config.local_forward@.len(),
            config@ == start,
            locals@.len() == i,
            forall|j: int|
                0 <= j < i ==> (#[trigger] locals@[j])@ == normalized_local(
                    config.local_forward@[j]@,
                ),
        decreases config.local_forward@.len() - i,
    {
        let mut f = config.local_forward[i].copy();
        f.normalize();
        locals.push(f);
        i = i + 1;
    }
    let mut remotes: Vec<RemoteForward> = Vec::new();
    let mut k: usize = 0;
    while k < config.remote_forward.len()
        invariant
            k <= config.remote_forward@.len(),
            config@ == start,
            remotes@.len() == k,
            forall|j: int|
                0 <= j < k ==> (#[trigger] remotes@[j])@ == normalized_remote(
                    config.remote_forward@[j]@,
                ),
        decreases config.remote_forward@.len() - k,
    {
        let mut f = config.remote_forward[k].copy();
        f.normalize();
        remotes.push(f);
        k = k + 1;
    }
    proof {
        assert(local_forward_views(locals@) =~= start.local_forward.map_values(
            |f: LocalForwardView| normalized_local(f),
        ));
        assert(remote_forward_views(remotes@) =~= start.remote_forward.map_values(
            |f: RemoteForwardView| normalized_remote(f),
        ));
    }
    config.local_forward = locals;
    config.remote_forward = remotes;
}

/// Builds the configuration azbridge runs with from its layers, the command
/// line and the connection string found in the environment.
pub fn finish_config(layers: &Vec<Config>, cli: &Cli, env: Option<&str>) -> (r: Config)
    ensures
        r@ == final_config(config_views(layers@), *cli, opt_view_str(env)),
{
    let mut config = Config::default();
    let mut i: usize = 0;
    while i < layers.len()
        invariant
            i <= layers@.len(),
            config@ == merge_all(config_views(layers@.take(i as int))),
        decreases layers@.len() - i,
    {
        proof {
            assert(config_views(layers@.take(i + 1)).drop_last() =~= config_views(
                layers@.take(i as int),
            ));
        }
        config.merge(&layers[i]);
        i = i + 1;
    }
    assert(layers@.take(layers@.len() as int) =~= layers@);
    apply_cli_overrides(&mut config, cli);
    apply_env_connection_string(&mut config, env);
    normalize_forwards(&mut config);
    config
}

/// The command line takes precedence over every file and option layer and
/// over the environment: a connection string, endpoint or key given on the
/// command line is the one azbridge runs with, and the environment's
/// connection string is used only when no layer and no flag gives one.
pub proof fn law_cli_takes_precedence(layers: Seq<ConfigView>, cli: Cli, env: Option<Seq<char>>)
    ensures
        opt_str(cli.connection_string) is Some ==> final_config(layers, cli, env).azure_relay_connection_string
            == opt_str(cli.connection_string),
        opt_str(cli.endpoint_uri) is Some ==> final_config(layers, cli, env).azure_relay_endpoint
            == opt_str(cli.endpoint_uri),
        opt_str(cli.shared_access_key) is Some ==> final_config(
            layers,
            cli,
            env,
        ).azure_relay_shared_access_key == opt_str(cli.shared_access_key),
        merge_all(layers).azure_relay_connection_string is None && opt_str(
            cli.connection_string,
        ) is None && (env matches Some(e) && e.len() > 0) ==> final_config(
            layers,
            cli,
            env,
        ).azure_relay_connection_string == env,
        merge_all(layers).azure_relay_connection_string is Some && opt_str(cli.connection_string) is None
            ==> final_config(layers, cli, env).azure_relay_connection_string == merge_all(
            layers,
        ).azure_relay_connection_string,
{
}

/// A later layer wins over an earlier one: any value the last layer sets
/// is the merged value.
pub proof fn law_later_layer_wins(layers: Seq<ConfigView>)
    requires
        layers.len() > 0,
    ensures
        layers.last().azure_relay_endpoint is Some ==> merge_all(layers).azure_relay_endpoint
            == layers.last().azure_relay_endpoint,
        layers.last().connect_timeout is Some ==> merge_all(layers).connect_timeout
            == layers.last().connect_timeout,
        layers.last().log_level is Some ==> merge_all(layers).log_level == layers.last().log_level,
        layers.last().gateway_ports is Some ==> merge_all(layers).gateway_ports
            == layers.last().gateway_ports,
{
}

// ---------------------------------------------------------------------------
// Start-up
// ---------------------------------------------------------------------------

/// Why azbridge cannot start with a configuration.
#[derive(Debug, Clone, Copy, PartialEq, Eq, Structural)]
pub enum StartupProblem {
    /// There is no forwarding rule.
    NoForwards,
    /// Neither a connection string nor an endpoint is configured, and some
    /// rule has no connection string of its own.
    NoConnection,
}

/// Every rule carries its own connection string.
pub open spec fn all_rules_have_connection_strings(c: ConfigView) -> bool {
    &&& forall|i: int|
        0 <= i < c.local_forward.len() ==> (#[trigger] c.local_forward[i]).connection_string is Some
    &&& forall|i: int|
        0 <= i < c.remote_forward.len() ==> (#[trigger] c.remote_forward[i]).connection_string is Some
}

/// The first reason the configuration cannot run, if any.
pub open spec fn startup_problem(c: ConfigView) -> Option<StartupProblem> {
    if c.local_forward.len() == 0 && c.remote_forward.len() == 0 {
        Some(StartupProblem::NoForwards)
    } else if c.azure_relay_connection_string is None && c.azure_relay_endpoint is None
        && !all_rules_have_connection_strings(c) {
        Some(StartupProblem::NoConnection)
    } else {
        None
    }
}

/// Checks that a (validated) configuration can run.
pub fn check_startup(config: &Config) -> (r: Result<(), StartupProblem>)
    ensures
        match r {
            Ok(()) => startup_problem(config@) is None,
            Err(p) => startup_problem(config@) == Some(p),
        },
{
    assert(config@.local_forward.len() == config.local_forward@.len());
    assert(config@.remote_forward.len() == config.remote_forward@.len());
    if config.local_forward.len() == 0 && config.remote_forward.len() == 0 {
        return Err(StartupProblem::NoForwards);
    }
    if config.azure_relay_connection_string.is_some() || config.azure_relay_endpoint.is_some() {
        return Ok(());
    }
    let mut i: usize = 0;
    while i < config.local_forward.len()
        invariant
            i <= config.local_forward@.len(),
            config@.azure_relay_connection_string is None,
            config@.azure_relay_endpoint is None,
            !(config@.local_forward.len() == 0 && config@.remote_forward.len() == 0),
            forall|j: int|
                0 <= j < i ==> (#[trigger] config.local_forward@[j]).connection_string is Some,
        decreases config.local_forward@.len() - i,
    {
        if config.local_forward[i].connection_string.is_none() {
            proof {
                assert(config@.local_forward[i as int].connection_string is None);
            }
            return Err(StartupProblem::NoConnection);
        }
        i = i + 1;
    }
    let mut k: usize = 0;
    while k < config.remote_forward.len()
        invariant
            k <= config.remote_forward@.len(),
            config@.azure_relay_connection_string is None,
            config@.azure_relay_endpoint is None,
            !(config@.local_forward.len() == 0 && config@.remote_forward.len() == 0),
            forall|j: int|
                0 <= j < config.local_forward@.len() ==> (#[trigger] config.local_forward@[j]).connection_string is Some,
            forall|j: int|
                0 <= j < k ==> (#[trigger] config.remote_forward@[j]).connection_string is Some,
        decreases config.remote_forward@.len() - k,
    {
        if config.remote_forward[k].connection_string.is_none() {
            proof {
                assert(config@.remote_forward[k as int].connection_string is None);
            }
            return Err(StartupProblem::NoConnection);
        }
        k = k + 1;
    }
    proof {
        assert forall|j: int| 0 <= j < config@.local_forward.len() implies (
        #[trigger] config@.local_forward[j]).connection_string is Some by {
            assert(config@.local_forward[j] == config.local_forward@[j]@);
        }
        assert forall|j: int| 0 <= j < config@.remote_forward.len() implies (
        #[trigger] config@.remote_forward[j]).connection_string is Some by {
            assert(config@.remote_forward[j] == config.remote_forward@[j]@);
        }
    }
    Ok(())
}

/// The log level azbridge runs with: the one `-q`/`-v` ask for, else the
/// configured one.
pub fn effective_log_level(cli: &Cli, config: &Config) -> (r: Option<String>)
    ensures
        opt_str(r) == given_or(opt_str(config.log_level), cli_log_level(cli.quiet, cli.verbose)),
{
    if cli.quiet {
        Some("QUIET".to_owned())
    } else if cli.verbose >= 3 {
        Some("DEBUG3".to_owned())
    } else if cli.verbose >= 2 {
        Some("DEBUG".to_owned())
    } else if cli.verbose >= 1 {
        Some("VERBOSE".to_owned())
    } else {
        copy_opt_string(&config.log_level)
    }
}

/// The log file azbridge writes: the one `-l` names, else the configured
/// one.
pub fn effective_log_file(cli: &Cli, config: &Config) -> (r: Option<String>)
    ensures
        opt_str(r) == given_or(opt_str(config.log_file_name), opt_str(cli.log_file)),
{
    if cli.log_file.is_some() {
        copy_opt_string(&cli.log_file)
    } else {
        copy_opt_string(&config.log_file_name)
    }
}

} // verus!
