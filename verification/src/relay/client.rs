//! Decisions of the sending side: what a connection string makes of a
//! client, its relay address, and the errors of a refused upgrade.

use vstd::prelude::*;

use crate::relay::connection_string::{
    credential_problem, opt_view, problem_argument, BuilderView, RelayConnectionStringBuilder,
};
use crate::relay::error::RelayError;
use crate::relay::protocol::uri::{
    hc_uri_text, hybrid_connection_uri_text, parse_url, url_host, url_host_of, url_parse_error,
    url_parsed, url_port, url_port_of,
};
use crate::text::{decimal, push_decimal, push_str, string_of};

verus! {

/// Operation timeout of a client whose connection string sets none, in
/// seconds.
pub const DEFAULT_OPERATION_TIMEOUT_SECS: u64 = 70;

/// Keep-alive interval of a client, in seconds.
pub const DEFAULT_KEEP_ALIVE_INTERVAL_SECS: u64 = 210;

/// Where a client's token comes from.
pub enum CredentialSource {
    /// A SAS key: tokens are signed with it.
    KeyPair { key_name: String, key: String },
    /// A pre-built SAS token.
    Signature(String),
    /// Neither: the ambient identity, where it is available.
    Ambient,
}

/// What a client is made of.
pub struct ClientPlan {
    /// The hybrid connection name.
    pub entity_path: String,
    pub credentials: CredentialSource,
}

/// `p` is the credential source of the builder: a key pair when both the
/// key name and the key are set, else the signature when it is set, else
/// the ambient identity.
pub open spec fn credentials_match(b: BuilderView, p: CredentialSource) -> bool {
    match (b.shared_access_key_name, b.shared_access_key) {
        (Some(n), Some(k)) => p matches CredentialSource::KeyPair { key_name, key } && key_name@ == n
            && key@ == k,
        _ => match b.shared_access_signature {
            Some(sig) => p matches CredentialSource::Signature(s) && s@ == sig,
            None => p is Ambient,
        },
    }
}

/// The client a connection string describes, once its credentials are
/// consistent: it needs an endpoint and an entity path.
pub fn plan_client(b: &RelayConnectionStringBuilder) -> (r: Result<ClientPlan, RelayError>)
    ensures
        credential_problem(b@) matches Some(p) ==> (r matches Err(e) && (e matches RelayError::InvalidArgument {
            name: n,
            ..
        } && n@ == problem_argument(p))),
        credential_problem(b@) is None && !b@.has_endpoint ==> (r matches Err(e) && (e matches RelayError::InvalidConnectionString(
            m,
        ) && m@ == "missing Endpoint"@)),
        credential_problem(b@) is None && b@.has_endpoint && b@.entity_path is None ==> (r matches Err(
            e,
        ) && (e matches RelayError::InvalidConnectionString(m) && m@ == "missing EntityPath"@)),
        r matches Ok(p) ==> credential_problem(b@) is None && b@.has_endpoint && b@.entity_path
            == Some(p.entity_path@) && credentials_match(b@, p.credentials),
        credential_problem(b@) is None && b@.has_endpoint && b@.entity_path is Some ==> r is Ok,
{
    b.validate()?;
    if b.endpoint().is_none() {
        return Err(RelayError::InvalidConnectionString("missing Endpoint".to_owned()));
    }
    let entity_path = match b.entity_path() {
        Some(p) => p.to_owned(),
        None => {
            return Err(RelayError::InvalidConnectionString("missing EntityPath".to_owned()));
        },
    };
    let credentials = credential_source(b);
    Ok(ClientPlan { entity_path, credentials })
}

/// Where the tokens of a connection string's credentials come from.
pub fn credential_source(b: &RelayConnectionStringBuilder) -> (r: CredentialSource)
    ensures
        credentials_match(b@, r),
{
    match (b.shared_access_key_name(), b.shared_access_key()) {
        (Some(n), Some(k)) => CredentialSource::KeyPair { key_name: n.to_owned(), key: k.to_owned() },
        _ => match b.shared_access_signature() {
            Some(s) => CredentialSource::Signature(s.to_owned()),
            None => CredentialSource::Ambient,
        },
    }
}

/// The listener a connection string describes: it needs an endpoint and
/// an entity path (its credentials are not checked for consistency).
pub fn plan_listener(b: &RelayConnectionStringBuilder) -> (r: Result<ClientPlan, RelayError>)
    ensures
        !b@.has_endpoint ==> (r matches Err(e) && (e matches RelayError::InvalidConnectionString(m)
            && m@ == "missing Endpoint"@)),
        b@.has_endpoint && b@.entity_path is None ==> (r matches Err(e) && (e matches RelayError::InvalidConnectionString(
            m,
        ) && m@ == "missing EntityPath"@)),
        b@.has_endpoint && b@.entity_path is Some ==> (r matches Ok(p) && b@.entity_path == Some(
            p.entity_path@,
        ) && credentials_match(b@, p.credentials)),
{
    if b.endpoint().is_none() {
        return Err(RelayError::InvalidConnectionString("missing Endpoint".to_owned()));
    }
    let entity_path = match b.entity_path() {
        Some(p) => p.to_owned(),
        None => {
            return Err(RelayError::InvalidConnectionString("missing EntityPath".to_owned()));
        },
    };
    Ok(ClientPlan { entity_path, credentials: credential_source(b) })
}

/// The text of a listener's relay address: `wss://{host}/$hc/{entity}`.
pub fn listener_address_text(host: &str, entity_path: &str) -> (r: String)
    ensures
        r@ == "wss://"@ + host@ + "/"@ + "$hc/"@ + entity_path@,
{
    let mut t: Vec<char> = Vec::new();
    push_str(&mut t, "wss://");
    push_str(&mut t, host);
    push_str(&mut t, "/");
    push_str(&mut t, "$hc/");
    push_str(&mut t, entity_path);
    let r = string_of(t.as_slice());
    assert(r@ =~= "wss://"@ + host@ + "/"@ + "$hc/"@ + entity_path@);
    r
}

/// The text of a client's relay address: `wss://{host}:{port}/$hc/{entity}`,
/// the port being 443 unless the endpoint names one.
pub fn relay_address_text(host: &str, port: Option<u16>, entity_path: &str) -> (r: String)
    ensures
        r@ == hc_uri_text(
            "wss"@,
            host@,
            match port {
                Some(p) => p as nat,
                None => 443,
            },
            entity_path@,
        ),
{
    let p = match port {
        Some(p) => p,
        None => 443,
    };
    hybrid_connection_uri_text("wss", host, p, entity_path)
}

/// The port a client connects to: the endpoint's, else 443.
pub open spec fn port_or_default(port: Option<u16>) -> nat {
    match port {
        Some(p) => p as nat,
        None => 443,
    }
}

/// `r` is the relay address of a client for an endpoint's host and port:
/// refused with `missing host` when there is no host, else the URL parsed
/// from `wss://{host}:{port}/$hc/{entity}`, or the parser's error.
pub open spec fn relay_address_spec(
    host: Option<Seq<char>>,
    port: Option<u16>,
    entity_path: Seq<char>,
    r: Result<url::Url, RelayError>,
) -> bool {
    match host {
        None => r matches Err(e) && (e matches RelayError::InvalidConnectionString(m) && m@
            == "missing host"@),
        Some(h) => {
            let t = hc_uri_text("wss"@, h, port_or_default(port), entity_path);
            &&& (r is Ok <==> url_parse_error(t) is None)
            &&& (r matches Ok(u) ==> u == url_parsed(t))
            &&& (r matches Err(e) ==> e matches RelayError::InvalidConnectionString(m)
                && url_parse_error(t) == Some(m@))
        },
    }
}

/// The view of an optional string slice.
pub open spec fn opt_text(o: Option<&str>) -> Option<Seq<char>> {
    match o {
        Some(s) => Some(s@),
        None => None,
    }
}

/// The relay address of a client for an endpoint's host and port.
pub fn relay_address_of(host: Option<&str>, port: Option<u16>, entity_path: &str) -> (r: Result<
    url::Url,
    RelayError,
>)
    ensures
        relay_address_spec(opt_text(host), port, entity_path@, r),
{
    match host {
        None => Err(RelayError::InvalidConnectionString("missing host".to_string())),
        Some(h) => {
            let text = relay_address_text(h, port, entity_path);
            match parse_url(text.as_str()) {
                Ok(u) => Ok(u),
                Err(m) => Err(RelayError::InvalidConnectionString(m)),
            }
        },
    }
}

/// Converts an `sb://` endpoint and entity path to a `wss://…/$hc/{entity_path}` URL.
pub fn build_relay_address(endpoint: &url::Url, entity_path: &str) -> (r: Result<url::Url, RelayError>)
    ensures
        relay_address_spec(url_host_of(*endpoint), url_port_of(*endpoint), entity_path@, r),
{
    let host = url_host(endpoint);
    let port = url_port(endpoint);
    relay_address_of(
        match &host {
            Some(h) => Some(h.as_str()),
            None => None,
        },
        port,
        entity_path,
    )
}

/// `r` is the relay address of a listener for an endpoint's host: refused
/// with `Endpoint has no host` when there is none, else the URL parsed from
/// `wss://{host}/$hc/{entity}`, or `failed to build relay URL: ` and the
/// parser's error.
pub open spec fn listener_address_spec(
    host: Option<Seq<char>>,
    entity_path: Seq<char>,
    r: Result<url::Url, RelayError>,
) -> bool {
    match host {
        None => r matches Err(e) && (e matches RelayError::InvalidConnectionString(m) && m@
            == "Endpoint has no host"@),
        Some(h) => {
            let t = "wss://"@ + h + "/"@ + "$hc/"@ + entity_path;
            &&& (r is Ok <==> url_parse_error(t) is None)
            &&& (r matches Ok(u) ==> u == url_parsed(t))
            &&& (r matches Err(e) ==> e matches RelayError::InvalidConnectionString(m)
                && url_parse_error(t) matches Some(pe) && m@ == "failed to build relay URL: "@
                + pe)
        },
    }
}

/// The relay address of a listener for an endpoint's host.
pub fn listener_address_of(host: Option<&str>, entity_path: &str) -> (r: Result<url::Url, RelayError>)
    ensures
        listener_address_spec(opt_text(host), entity_path@, r),
{
    match host {
        None => Err(RelayError::InvalidConnectionString("Endpoint has no host".to_string())),
        Some(h) => {
            let text = listener_address_text(h, entity_path);
            match parse_url(text.as_str()) {
                Ok(u) => Ok(u),
                Err(m) => {
                    let mut t: Vec<char> = Vec::new();
                    push_str(&mut t, "failed to build relay URL: ");
                    push_str(&mut t, m.as_str());
                    let msg = string_of(t.as_slice());
                    Err(RelayError::InvalidConnectionString(msg))
                },
            }
        },
    }
}

/// The relay address a listener opens its control channel on.
pub fn listener_address(endpoint: &url::Url, entity_path: &str) -> (r: Result<url::Url, RelayError>)
    ensures
        listener_address_spec(url_host_of(*endpoint), entity_path@, r),
{
    let host = url_host(endpoint);
    listener_address_of(
        match &host {
            Some(h) => Some(h.as_str()),
            None => None,
        },
        entity_path,
    )
}

/// `server returned {status} for tracking_id={id}: {body}`.
pub open spec fn refusal_text(status: Seq<char>, tracking_id: Seq<char>, body: Seq<char>) -> Seq<
    char,
> {
    "server returned "@ + status + " for tracking_id="@ + tracking_id + ": "@ + body
}

/// The error for an upgrade the service refused with an HTTP status (given
/// as its code and as it displays): 401 and 403 are authorization
/// failures, 404 an unknown endpoint, anything else a communication error.
pub open spec fn client_refusal_spec(
    code: nat,
    status: Seq<char>,
    tracking_id: Seq<char>,
    body: Seq<char>,
    e: RelayError,
) -> bool {
    if code == 401 || code == 403 {
        e matches RelayError::AuthorizationFailed(m) && m@ == refusal_text(status, tracking_id, body)
    } else if code == 404 {
        e matches RelayError::EndpointNotFound(m) && m@ == refusal_text(
            decimal(404),
            tracking_id,
            body,
        )
    } else {
        e matches RelayError::Communication { message: m } && m@ == refusal_text(
            status,
            tracking_id,
            body,
        )
    }
}

/// The error for a refused upgrade of a client connection.
pub fn client_refusal(code: u16, status: &str, tracking_id: &str, body: &str) -> (e: RelayError)
    ensures
        client_refusal_spec(code as nat, status@, tracking_id@, body@, e),
{
    let mut t: Vec<char> = Vec::new();
    push_str(&mut t, "server returned ");
    if code == 404 {
        push_decimal(&mut t, 404);
    } else {
        push_str(&mut t, status);
    }
    push_str(&mut t, " for tracking_id=");
    push_str(&mut t, tracking_id);
    push_str(&mut t, ": ");
    push_str(&mut t, body);
    let text = string_of(t.as_slice());
    if code == 401 || code == 403 {
        assert(text@ =~= refusal_text(status@, tracking_id@, body@));
        RelayError::AuthorizationFailed(text)
    } else if code == 404 {
        assert(text@ =~= refusal_text(decimal(404), tracking_id@, body@));
        RelayError::EndpointNotFound(text)
    } else {
        assert(text@ =~= refusal_text(status@, tracking_id@, body@));
        RelayError::Communication { message: text }
    }
}

} // verus!
