//! The Azure Relay connection-string builder: its fields, the
//! mutual-exclusion rules of its credentials, and the reading of one
//! `key=value` part of a connection string.
//!
//! Connection string format:
//! `Endpoint=sb://namespace.servicebus.windows.net;EntityPath=hybridconnection;SharedAccessKeyName=keyname;SharedAccessKey=key`

use vstd::prelude::*;

use crate::config::model::opt_str;
use crate::relay::error::RelayError;
use crate::relay::protocol::uri::{parse_url, url_parse_error, url_parsed, url_text, url_text_of};
use crate::relay::timespan::{
    hms_text, law_formatted_timespan_reads_back, lemma_hms_plain, read_timespan, timespan_fits,
    timespan_message, timespan_spec, timespan_text_fits, TimespanText,
};
use crate::text::{
    chars_eq_str, chars_of, decimal, find_char, find_index, is_ws, lemma_find_index, lower_chars,
    lower_seq, parse_u64, parse_u64_spec, push_chars, push_decimal, push_str, string_of, trim,
    trim_end, trim_start, lemma_trim_fixed, lemma_find_none, lemma_find_concat,
    trim_chars,
};

verus! {

/// Authentication type for managed identity connections.
#[derive(Debug, Clone, Copy, PartialEq, Eq, Structural)]
pub enum AuthenticationType {
    /// No special authentication (uses SAS or no auth).
    Unset,
    /// Azure Managed Identity authentication.
    ManagedIdentity,
    /// Other/unknown authentication type.
    Other,
}

impl Default for AuthenticationType {
    fn default() -> (r: Self)
        ensures
            r == AuthenticationType::Unset,
    {
        AuthenticationType::Unset
    }
}

/// The text without its spaces.
pub open spec fn without_spaces(s: Seq<char>) -> Seq<char> {
    s.filter(|c: char| c != ' ')
}

/// The authentication type a value names: `ManagedIdentity` when, without
/// spaces and in ASCII lowercase, it reads `managedidentity`; else `Other`.
pub open spec fn authentication_of(value: Seq<char>) -> AuthenticationType {
    if lower_seq(without_spaces(value)) == "managedidentity"@ {
        AuthenticationType::ManagedIdentity
    } else {
        AuthenticationType::Other
    }
}

/// Maps an authentication value string to an [`AuthenticationType`].
pub fn parse_authentication_type(value: &str) -> (r: AuthenticationType)
    ensures
        r == authentication_of(value@),
{
    let v = chars_of(value);
    let mut kept: Vec<char> = Vec::new();
    let mut i: usize = 0;
    assert(v@.take(0) =~= Seq::<char>::empty());
    while i < v.len()
        invariant
            i <= v@.len(),
            kept@ == without_spaces(v@.take(i as int)),
        decreases v@.len() - i,
    {
        proof {
            reveal_with_fuel(Seq::filter, 1);
            assert(v@.take(i + 1).drop_last() =~= v@.take(i as int));
        }
        if v[i] != ' ' {
            kept.push(v[i]);
        }
        i = i + 1;
    }
    assert(v@.take(v@.len() as int) =~= v@);
    let l = lower_chars(kept.as_slice());
    if chars_eq_str(l.as_slice(), "managedidentity") {
        AuthenticationType::ManagedIdentity
    } else {
        AuthenticationType::Other
    }
}

// ---------------------------------------------------------------------------
// Connection-string parts
// ---------------------------------------------------------------------------

/// The keys a connection string may hold (matched case-insensitively).
#[derive(Debug, Clone, Copy, PartialEq, Eq, Structural)]
pub enum ConnectionStringKey {
    Endpoint,
    EntityPath,
    SharedAccessKeyName,
    SharedAccessKey,
    SharedAccessSignature,
    OperationTimeout,
    Authentication,
}

/// The key a lowercased key name stands for, if it is a known one.
pub open spec fn key_of(lower: Seq<char>) -> Option<ConnectionStringKey> {
    if lower == "endpoint"@ {
        Some(ConnectionStringKey::Endpoint)
    } else if lower == "entitypath"@ {
        Some(ConnectionStringKey::EntityPath)
    } else if lower == "sharedaccesskeyname"@ {
        Some(ConnectionStringKey::SharedAccessKeyName)
    } else if lower == "sharedaccesskey"@ {
        Some(ConnectionStringKey::SharedAccessKey)
    } else if lower == "sharedaccesssignature"@ {
        Some(ConnectionStringKey::SharedAccessSignature)
    } else if lower == "operationtimeout"@ {
        Some(ConnectionStringKey::OperationTimeout)
    } else if lower == "authentication"@ {
        Some(ConnectionStringKey::Authentication)
    } else {
        None
    }
}

fn key_from_lower(lower: &[char]) -> (r: Option<ConnectionStringKey>)
    ensures
        r == key_of(lower@),
{
    if chars_eq_str(lower, "endpoint") {
        Some(ConnectionStringKey::Endpoint)
    } else if chars_eq_str(lower, "entitypath") {
        Some(ConnectionStringKey::EntityPath)
    } else if chars_eq_str(lower, "sharedaccesskeyname") {
        Some(ConnectionStringKey::SharedAccessKeyName)
    } else if chars_eq_str(lower, "sharedaccesskey") {
        Some(ConnectionStringKey::SharedAccessKey)
    } else if chars_eq_str(lower, "sharedaccesssignature") {
        Some(ConnectionStringKey::SharedAccessSignature)
    } else if chars_eq_str(lower, "operationtimeout") {
        Some(ConnectionStringKey::OperationTimeout)
    } else if chars_eq_str(lower, "authentication") {
        Some(ConnectionStringKey::Authentication)
    } else {
        None
    }
}

/// Why a part of a connection string is refused.
pub enum PartProblem {
    /// The part has no `=`.
    MissingDelimiter,
    /// The value after `=` is empty (after trimming).
    EmptyValue,
    /// The key is not one of the known keys.
    UnknownKey,
}

/// What one `;`-separated part of a connection string gives: nothing for a
/// blank part, else the key and the (trimmed) value, split at the first `=`.
pub open spec fn part_spec(part: Seq<char>) -> Result<Option<(ConnectionStringKey, Seq<char>)>, PartProblem> {
    let p = trim(part);
    if p.len() == 0 {
        Ok(None)
    } else {
        match find_index(p, '=') {
            None => Err(PartProblem::MissingDelimiter),
            Some(i) => {
                let key = trim(p.take(i));
                let value = trim(p.skip(i + 1));
                if value.len() == 0 {
                    Err(PartProblem::EmptyValue)
                } else {
                    match key_of(lower_seq(key)) {
                        Some(k) => Ok(Some((k, value))),
                        None => Err(PartProblem::UnknownKey),
                    }
                }
            },
        }
    }
}

/// An `InvalidConnectionString` error whose message is `before` + `middle` + `after`.
fn invalid_connection_string(before: &str, middle: &[char], after: &str) -> (e: RelayError)
    ensures
        e matches RelayError::InvalidConnectionString(m) && m@ == before@ + middle@ + after@,
{
    let mut m: Vec<char> = Vec::new();
    push_str(&mut m, before);
    push_chars(&mut m, middle);
    push_str(&mut m, after);
    RelayError::InvalidConnectionString(string_of(m.as_slice()))
}

/// The message for a refused part: the trimmed part when it has no `=`,
/// else its trimmed key (the value being empty, or the key unknown).
pub open spec fn part_message(part: Seq<char>) -> Seq<char> {
    let t = trim(part);
    match find_index(t, '=') {
        None => "Key-value pair missing '=' delimiter: '"@ + t + "'"@,
        Some(i) => {
            let key = trim(t.take(i));
            if trim(t.skip(i + 1)).len() == 0 {
                "Empty value for key '"@ + key + "'"@
            } else {
                "Unknown key '"@ + key + "'"@
            }
        },
    }
}

/// Reads one `;`-separated part of a connection string: `Ok(None)` for a
/// blank part, else the key (matched case-insensitively) and the trimmed
/// value. Values may contain `=`: only the first one delimits.
pub fn parse_connection_string_part(part: &str) -> (r: Result<
    Option<(ConnectionStringKey, String)>,
    RelayError,
>)
    ensures
        match (r, part_spec(part@)) {
            (Ok(None), Ok(None)) => true,
            (Ok(Some((k, v))), Ok(Some((k2, v2)))) => k == k2 && v@ == v2,
            (Err(e), Err(_)) => e matches RelayError::InvalidConnectionString(m) && m@
                == part_message(part@),
            _ => false,
        },
{
    let all = chars_of(part);
    let p = trim_chars(all.as_slice());
    if p.len() == 0 {
        return Ok(None);
    }
    let eq = match find_char(p, '=') {
        Some(i) => i,
        None => {
            return Err(
                invalid_connection_string("Key-value pair missing '=' delimiter: '", p, "'"),
            );
        },
    };
    proof {
        lemma_find_index(p@, '=');
    }
    let n = p.len();
    let key_part = &p[0..eq];
    let value_part = &p[eq + 1..n];
    assert(key_part@ =~= p@.take(eq as int));
    assert(value_part@ =~= p@.skip(eq + 1));
    let key = trim_chars(key_part);
    let value = trim_chars(value_part);
    if value.len() == 0 {
        return Err(invalid_connection_string("Empty value for key '", key, "'"));
    }
    let lower = lower_chars(key);
    match key_from_lower(lower.as_slice()) {
        Some(k) => Ok(Some((k, string_of(value)))),
        None => Err(invalid_connection_string("Unknown key '", key, "'")),
    }
}

// ---------------------------------------------------------------------------
// The builder
// ---------------------------------------------------------------------------

/// Builds and parses Azure Relay connection strings.
///
/// Supported keys:
/// - `Endpoint` (required) — the relay namespace URI (sb:// scheme)
/// - `EntityPath` — the Hybrid Connection name
/// - `SharedAccessKeyName` — SAS policy name
/// - `SharedAccessKey` — SAS policy key (base64)
/// - `SharedAccessSignature` — pre-built SAS token
/// - `OperationTimeout` — timeout as Duration string (e.g., "00:01:00")
/// - `Authentication` — "Managed Identity" or "ManagedIdentity"
#[derive(Debug)]
pub struct RelayConnectionStringBuilder {
    endpoint: Option<url::Url>,
    entity_path: Option<String>,
    shared_access_key_name: Option<String>,
    shared_access_key: Option<String>,
    shared_access_signature: Option<String>,
    operation_timeout: Option<std::time::Duration>,
    authentication: AuthenticationType,
}

/// The view of a builder: whether an endpoint is set and the endpoint's
/// text, the text fields, the timeout and the authentication type.
pub struct BuilderView {
    pub has_endpoint: bool,
    pub endpoint_text: Option<Seq<char>>,
    pub entity_path: Option<Seq<char>>,
    pub shared_access_key_name: Option<Seq<char>>,
    pub shared_access_key: Option<Seq<char>>,
    pub shared_access_signature: Option<Seq<char>>,
    pub operation_timeout: Option<std::time::Duration>,
    pub authentication: AuthenticationType,
}

impl View for RelayConnectionStringBuilder {
    type V = BuilderView;

    closed spec fn view(&self) -> BuilderView {
        BuilderView {
            has_endpoint: self.endpoint is Some,
            endpoint_text: match self.endpoint {
                Some(u) => Some(url_text_of(u)),
                None => None,
            },
            entity_path: opt_str(self.entity_path),
            shared_access_key_name: opt_str(self.shared_access_key_name),
            shared_access_key: opt_str(self.shared_access_key),
            shared_access_signature: opt_str(self.shared_access_signature),
            operation_timeout: self.operation_timeout,
            authentication: self.authentication,
        }
    }
}

/// The builder with no field set.
pub open spec fn empty_builder() -> BuilderView {
    BuilderView {
        has_endpoint: false,
        endpoint_text: None,
        entity_path: None,
        shared_access_key_name: None,
        shared_access_key: None,
        shared_access_signature: None,
        operation_timeout: None,
        authentication: AuthenticationType::Unset,
    }
}

/// Why a builder's credentials are inconsistent, in the order they are checked.
pub enum CredentialProblem {
    /// `SharedAccessKey` without `SharedAccessKeyName`.
    KeyWithoutKeyName,
    /// `SharedAccessKeyName` without `SharedAccessKey`.
    KeyNameWithoutKey,
    /// `SharedAccessSignature` together with a key or key name.
    SignatureWithKey,
    /// Managed identity together with any SAS credential.
    ManagedIdentityWithSas,
}

/// The first credential rule a builder breaks, if any.
pub open spec fn credential_problem(b: BuilderView) -> Option<CredentialProblem> {
    let has_key = b.shared_access_key is Some;
    let has_key_name = b.shared_access_key_name is Some;
    let has_signature = b.shared_access_signature is Some;
    if has_key && !has_key_name {
        Some(CredentialProblem::KeyWithoutKeyName)
    } else if has_key_name && !has_key {
        Some(CredentialProblem::KeyNameWithoutKey)
    } else if has_signature && (has_key || has_key_name) {
        Some(CredentialProblem::SignatureWithKey)
    } else if b.authentication == AuthenticationType::ManagedIdentity && (has_key || has_key_name
        || has_signature) {
        Some(CredentialProblem::ManagedIdentityWithSas)
    } else {
        None
    }
}

/// The argument an `InvalidArgument` error names for a credential problem.
pub open spec fn problem_argument(p: CredentialProblem) -> Seq<char> {
    match p {
        CredentialProblem::KeyWithoutKeyName => "SharedAccessKeyName"@,
        CredentialProblem::KeyNameWithoutKey => "SharedAccessKey"@,
        CredentialProblem::SignatureWithKey => "SharedAccessSignature"@,
        CredentialProblem::ManagedIdentityWithSas => "Authentication"@,
    }
}

impl RelayConnectionStringBuilder {
    /// Creates an empty builder with no fields set.
    pub fn new() -> (r: Self)
        ensures
            r@ == empty_builder(),
    {
        RelayConnectionStringBuilder {
            endpoint: None,
            entity_path: None,
            shared_access_key_name: None,
            shared_access_key: None,
            shared_access_signature: None,
            operation_timeout: None,
            authentication: AuthenticationType::Unset,
        }
    }

    /// Returns the relay namespace endpoint URI, if set.
    pub fn endpoint(&self) -> (r: Option<&url::Url>)
        ensures
            r is Some == self@.has_endpoint,
    {
        self.endpoint.as_ref()
    }

    /// Returns the Hybrid Connection entity path, if set.
    pub fn entity_path(&self) -> (r: Option<&str>)
        ensures
            opt_view(r) == self@.entity_path,
    {
        opt_as_str(&self.entity_path)
    }

    /// Returns the SAS policy name, if set.
    pub fn shared_access_key_name(&self) -> (r: Option<&str>)
        ensures
            opt_view(r) == self@.shared_access_key_name,
    {
        opt_as_str(&self.shared_access_key_name)
    }

    /// Returns the SAS policy key, if set.
    pub fn shared_access_key(&self) -> (r: Option<&str>)
        ensures
            opt_view(r) == self@.shared_access_key,
    {
        opt_as_str(&self.shared_access_key)
    }

    /// Returns the pre-built SAS token, if set.
    pub fn shared_access_signature(&self) -> (r: Option<&str>)
        ensures
            opt_view(r) == self@.shared_access_signature,
    {
        opt_as_str(&self.shared_access_signature)
    }

    /// Returns the operation timeout, if set.
    pub fn operation_timeout(&self) -> (r: Option<std::time::Duration>)
        ensures
            r == self@.operation_timeout,
    {
        self.operation_timeout
    }

    /// Returns the authentication type.
    pub fn authentication(&self) -> (r: &AuthenticationType)
        ensures
            *r == self@.authentication,
    {
        &self.authentication
    }

    /// Sets the relay namespace endpoint URI.
    pub fn set_endpoint(&mut self, endpoint: url::Url) -> (r: &mut Self)
        ensures
            r@ == (BuilderView {
                has_endpoint: true,
                endpoint_text: Some(url_text_of(endpoint)),
                ..old(self)@
            }),
            *final(self) == *final(r),
    {
        self.endpoint = Some(endpoint);
        self
    }

    /// Clears the endpoint.
    pub fn clear_endpoint(&mut self) -> (r: &mut Self)
        ensures
            r@ == (BuilderView { has_endpoint: false, endpoint_text: None, ..old(self)@ }),
            *final(self) == *final(r),
    {
        self.endpoint = None;
        self
    }

    /// Sets the Hybrid Connection entity path.
    pub fn set_entity_path(&mut self, entity_path: &str) -> (r: &mut Self)
        ensures
            r@ == (BuilderView { entity_path: Some(entity_path@), ..old(self)@ }),
            *final(self) == *final(r),
    {
        self.entity_path = Some(entity_path.to_owned());
        self
    }

    /// Clears the entity path.
    pub fn clear_entity_path(&mut self) -> (r: &mut Self)
        ensures
            r@ == (BuilderView { entity_path: None, ..old(self)@ }),
            *final(self) == *final(r),
    {
        self.entity_path = None;
        self
    }

    /// Sets the SAS policy name.
    pub fn set_shared_access_key_name(&mut self, key_name: &str) -> (r: &mut Self)
        ensures
            r@ == (BuilderView { shared_access_key_name: Some(key_name@), ..old(self)@ }),
            *final(self) == *final(r),
    {
        self.shared_access_key_name = Some(key_name.to_owned());
        self
    }

    /// Clears the SAS policy name.
    pub fn clear_shared_access_key_name(&mut self) -> (r: &mut Self)
        ensures
            r@ == (BuilderView { shared_access_key_name: None, ..old(self)@ }),
            *final(self) == *final(r),
    {
        self.shared_access_key_name = None;
        self
    }

    /// Sets the SAS policy key.
    pub fn set_shared_access_key(&mut self, key: &str) -> (r: &mut Self)
        ensures
            r@ == (BuilderView { shared_access_key: Some(key@), ..old(self)@ }),
            *final(self) == *final(r),
    {
        self.shared_access_key = Some(key.to_owned());
        self
    }

    /// Clears the SAS policy key.
    pub fn clear_shared_access_key(&mut self) -> (r: &mut Self)
        ensures
            r@ == (BuilderView { shared_access_key: None, ..old(self)@ }),
            *final(self) == *final(r),
    {
        self.shared_access_key = None;
        self
    }

    /// Sets a pre-built SAS token.
    pub fn set_shared_access_signature(&mut self, signature: &str) -> (r: &mut Self)
        ensures
            r@ == (BuilderView {
                shared_access_signature: Some(signature@),
                ..old(self)@
            }),
            *final(self) == *final(r),
    {
        self.shared_access_signature = Some(signature.to_owned());
        self
    }

    /// Clears the SAS token.
    pub fn clear_shared_access_signature(&mut self) -> (r: &mut Self)
        ensures
            r@ == (BuilderView { shared_access_signature: None, ..old(self)@ }),
            *final(self) == *final(r),
    {
        self.shared_access_signature = None;
        self
    }

    /// Sets the operation timeout.
    pub fn set_operation_timeout(&mut self, timeout: std::time::Duration) -> (r: &mut Self)
        ensures
            r@ == (BuilderView { operation_timeout: Some(timeout), ..old(self)@ }),
            *final(self) == *final(r),
    {
        self.operation_timeout = Some(timeout);
        self
    }

    /// Clears the operation timeout.
    pub fn clear_operation_timeout(&mut self) -> (r: &mut Self)
        ensures
            r@ == (BuilderView { operation_timeout: None, ..old(self)@ }),
            *final(self) == *final(r),
    {
        self.operation_timeout = None;
        self
    }

    /// Sets the authentication type.
    pub fn set_authentication(&mut self, auth: AuthenticationType) -> (r: &mut Self)
        ensures
            r@ == (BuilderView { authentication: auth, ..old(self)@ }),
            *final(self) == *final(r),
    {
        self.authentication = auth;
        self
    }

    /// Validates the builder's state for mutual-exclusion rules.
    ///
    /// Rules:
    /// - `SharedAccessKey` and `SharedAccessKeyName` must both be set or both absent.
    /// - `SharedAccessSignature` cannot coexist with `SharedAccessKey`/`SharedAccessKeyName`.
    /// - `ManagedIdentity` authentication cannot coexist with any SAS credential.
    pub fn validate(&self) -> (r: Result<(), RelayError>)
        ensures
            r is Ok <==> credential_problem(self@) is None,
            r matches Err(e) ==> e matches RelayError::InvalidArgument { name: n, .. } && n@
                == problem_argument(credential_problem(self@).unwrap()),
    {
        let has_key = self.shared_access_key.is_some();
        let has_key_name = self.shared_access_key_name.is_some();
        let has_signature = self.shared_access_signature.is_some();
        if has_key && !has_key_name {
            return Err(
                RelayError::invalid_argument(
                    "SharedAccessKeyName",
                    "SharedAccessKeyName is required when SharedAccessKey is set",
                ),
            );
        }
        if has_key_name && !has_key {
            return Err(
                RelayError::invalid_argument(
                    "SharedAccessKey",
                    "SharedAccessKey is required when SharedAccessKeyName is set",
                ),
            );
        }
        if has_signature && (has_key || has_key_name) {
            return Err(
                RelayError::invalid_argument(
                    "SharedAccessSignature",
                    "SharedAccessSignature cannot be used together with SharedAccessKey or SharedAccessKeyName",
                ),
            );
        }
        let managed = match self.authentication {
            AuthenticationType::ManagedIdentity => true,
            _ => false,
        };
        if managed && (has_key || has_key_name || has_signature) {
            return Err(
                RelayError::invalid_argument(
                    "Authentication",
                    "Managed Identity authentication cannot be combined with SAS credentials",
                ),
            );
        }
        Ok(())
    }
}

/// The endpoint's text, or nothing when no endpoint is set.
pub open spec fn endpoint_or_empty(b: BuilderView) -> Seq<char> {
    match b.endpoint_text {
        Some(e) => e,
        None => Seq::empty(),
    }
}

/// `prefix` and the value, as the one part of a set field, or no part.
pub open spec fn opt_kv(prefix: Seq<char>, v: Option<Seq<char>>) -> Seq<Seq<char>> {
    match v {
        Some(x) => seq![prefix + x],
        None => Seq::empty(),
    }
}

/// The `Key=value` parts a builder is written as, in this order and each
/// only when its field is set: `Endpoint` (with the endpoint's text),
/// `EntityPath`, `SharedAccessKeyName`, `SharedAccessKey`,
/// `SharedAccessSignature`, `OperationTimeout` (with the timeout's text)
/// and `Authentication` (`ManagedIdentity` or `Other`).
pub open spec fn builder_parts(b: BuilderView, endpoint: Seq<char>, timeout: Seq<char>) -> Seq<
    Seq<char>,
> {
    opt_kv("Endpoint="@, if b.has_endpoint { Some(endpoint) } else { None })
        + opt_kv("EntityPath="@, b.entity_path)
        + opt_kv("SharedAccessKeyName="@, b.shared_access_key_name)
        + opt_kv("SharedAccessKey="@, b.shared_access_key)
        + opt_kv("SharedAccessSignature="@, b.shared_access_signature)
        + opt_kv("OperationTimeout="@, if b.operation_timeout is Some { Some(timeout) } else { None })
        + match b.authentication {
            AuthenticationType::Unset => Seq::<Seq<char>>::empty(),
            AuthenticationType::ManagedIdentity => seq!["Authentication=ManagedIdentity"@],
            AuthenticationType::Other => seq!["Authentication=Other"@],
        }
}

/// Parts joined with `;` between them.
pub open spec fn join_parts(parts: Seq<Seq<char>>) -> Seq<char>
    decreases parts.len(),
{
    if parts.len() == 0 {
        Seq::empty()
    } else if parts.len() == 1 {
        parts[0]
    } else {
        join_parts(parts.drop_last()) + ";"@ + parts.last()
    }
}

/// Appends a part to the joined text of the parts before it; `first` says
/// whether there are none.
fn add_part(out: &mut Vec<char>, Ghost(before): Ghost<Seq<Seq<char>>>, first: bool, part: &[char])
    requires
        old(out)@ == join_parts(before),
        first == (before.len() == 0),
    ensures
        final(out)@ == join_parts(before.push(part@)),
{
    assert(before.push(part@).drop_last() =~= before);
    if first {
        push_chars(out, part);
        assert(out@ =~= part@);
    } else {
        out.push(';');
        push_chars(out, part);
        proof {
            reveal_strlit(";");
        }
        assert(out@ =~= join_parts(before) + ";"@ + part@);
    }
}

/// Appends `Key=value` for a set field.
fn add_kv(
    out: &mut Vec<char>,
    Ghost(before): Ghost<Seq<Seq<char>>>,
    first: bool,
    prefix: &str,
    v: Option<&str>,
) -> (r: bool)
    requires
        old(out)@ == join_parts(before),
        first == (before.len() == 0),
    ensures
        final(out)@ == join_parts(before + opt_kv(prefix@, opt_view(v))),
        r == ((before + opt_kv(prefix@, opt_view(v))).len() == 0),
{
    match v {
        Some(x) => {
            let mut part = chars_of(prefix);
            push_str(&mut part, x);
            add_part(out, Ghost(before), first, part.as_slice());
            assert(before + opt_kv(prefix@, opt_view(v)) =~= before.push(part@));
            false
        },
        None => {
            assert(before + opt_kv(prefix@, opt_view(v)) =~= before);
            first
        },
    }
}

impl RelayConnectionStringBuilder {
    /// The connection string of the builder, given the text its endpoint
    /// and its timeout are written as (used only when they are set).
    pub fn connection_string_text(&self, endpoint_text: &str, timeout_text: &str) -> (r: String)
        ensures
            r@ == join_parts(builder_parts(self@, endpoint_text@, timeout_text@)),
    {
        let ghost b = self@;
        let mut out: Vec<char> = Vec::new();
        let ghost p0 = Seq::<Seq<char>>::empty();
        let ep = if self.endpoint.is_some() {
            Some(endpoint_text)
        } else {
            None
        };
        let first = add_kv(&mut out, Ghost(p0), true, "Endpoint=", ep);
        let ghost p1 = p0 + opt_kv("Endpoint="@, opt_view(ep));
        let first = add_kv(&mut out, Ghost(p1), first, "EntityPath=", opt_as_str(&self.entity_path));
        let ghost p2 = p1 + opt_kv("EntityPath="@, b.entity_path);
        let first = add_kv(
            &mut out,
            Ghost(p2),
            first,
            "SharedAccessKeyName=",
            opt_as_str(&self.shared_access_key_name),
        );
        let ghost p3 = p2 + opt_kv("SharedAccessKeyName="@, b.shared_access_key_name);
        let first = add_kv(
            &mut out,
            Ghost(p3),
            first,
            "SharedAccessKey=",
            opt_as_str(&self.shared_access_key),
        );
        let ghost p4 = p3 + opt_kv("SharedAccessKey="@, b.shared_access_key);
        let first = add_kv(
            &mut out,
            Ghost(p4),
            first,
            "SharedAccessSignature=",
            opt_as_str(&self.shared_access_signature),
        );
        let ghost p5 = p4 + opt_kv("SharedAccessSignature="@, b.shared_access_signature);
        let tt = if self.operation_timeout.is_some() {
            Some(timeout_text)
        } else {
            None
        };
        let first = add_kv(&mut out, Ghost(p5), first, "OperationTimeout=", tt);
        let ghost p6 = p5 + opt_kv("OperationTimeout="@, opt_view(tt));
        match self.authentication {
            AuthenticationType::Unset => {
                assert(p6 + Seq::<Seq<char>>::empty() =~= p6);
            },
            AuthenticationType::ManagedIdentity => {
                let part = chars_of("Authentication=ManagedIdentity");
                add_part(&mut out, Ghost(p6), first, part.as_slice());
                assert(p6.push(part@) =~= p6 + seq!["Authentication=ManagedIdentity"@]);
            },
            AuthenticationType::Other => {
                let part = chars_of("Authentication=Other");
                add_part(&mut out, Ghost(p6), first, part.as_slice());
                assert(p6.push(part@) =~= p6 + seq!["Authentication=Other"@]);
            },
        }
        assert(p0 + opt_kv("Endpoint="@, opt_view(ep)) =~= opt_kv("Endpoint="@, opt_view(ep)));
        string_of(out.as_slice())
    }

    /// The connection string of the builder, its endpoint written as the
    /// URL's text and its timeout as `format_timeout` writes it.
    pub fn to_connection_string<F: Fn(std::time::Duration) -> String>(&self, format_timeout: F) -> (r:
        String)
        requires
            forall|d: std::time::Duration| format_timeout.requires((d,)),
        ensures
            exists|t: String|
                #![trigger builder_parts(self@, endpoint_or_empty(self@), t@)]
                r@ == join_parts(builder_parts(self@, endpoint_or_empty(self@), t@)) && (
                self@.operation_timeout matches Some(d) ==> format_timeout.ensures((d,), t)),
    {
        let e = match &self.endpoint {
            Some(u) => url_text(u),
            None => String::new(),
        };
        let t = match self.operation_timeout {
            Some(d) => format_timeout(d),
            None => String::new(),
        };
        let r = self.connection_string_text(e.as_str(), t.as_str());
        assert(self@.has_endpoint ==> e@ == endpoint_or_empty(self@));
        assert(builder_parts(self@, e@, t@) == builder_parts(self@, endpoint_or_empty(self@), t@));
        assert(r@ == join_parts(builder_parts(self@, endpoint_or_empty(self@), t@)) && (self@.operation_timeout matches Some(
            d,
        ) ==> format_timeout.ensures((d,), t)));
        r
    }
}

impl Default for RelayConnectionStringBuilder {
    fn default() -> (r: Self)
        ensures
            r@ == empty_builder(),
    {
        Self::new()
    }
}

/// The view of an optional string slice.
pub open spec fn opt_view(o: Option<&str>) -> Option<Seq<char>> {
    match o {
        Some(s) => Some(s@),
        None => None,
    }
}

fn opt_as_str(o: &Option<String>) -> (r: Option<&str>)
    ensures
        opt_view(r) == opt_str(*o),
{
    match o {
        Some(s) => Some(s.as_str()),
        None => None,
    }
}

// ---------------------------------------------------------------------------
// Reading a connection string
// ---------------------------------------------------------------------------

/// The `;`-separated parts of a text, as `str::split(';')` gives them.
pub open spec fn split_parts(s: Seq<char>) -> Seq<Seq<char>>
    decreases s.len(),
{
    match find_index(s, ';') {
        None => seq![s],
        Some(i) => {
            proof {
                lemma_find_index(s, ';');
            }
            seq![s.take(i)] + split_parts(s.skip(i + 1))
        },
    }
}

/// `tt` is how the timeout text `v` reads.
pub open spec fn timespan_text_of(v: Seq<char>, tt: TimespanText) -> bool {
    match timespan_spec(v) {
        Ok(None) => tt matches TimespanText::Seconds(t) && t@ == trim(v),
        Ok(Some((whole, frac))) => tt matches TimespanText::Clock { whole_secs, fraction }
            && whole_secs == whole && opt_str(fraction) == frac,
        Err(_) => false,
    }
}

/// The timeout of a part, if it has one, can be read.
pub open spec fn part_timeout_fits(part: Seq<char>) -> bool {
    match part_spec(part) {
        Ok(Some((ConnectionStringKey::OperationTimeout, v))) => timespan_fits(v),
        _ => true,
    }
}

/// `r` is what reading the parts gives, starting from the builder `b`:
/// part by part, a blank part changes nothing, a refused part ends the
/// reading with its error, and each key sets its field (the last
/// occurrence wins). An endpoint must be a URL; a timeout is read as a
/// timespan text, and `seconds` turns that into a duration or an error.
pub open spec fn reads_from<F: Fn(TimespanText) -> Result<std::time::Duration, RelayError>>(
    b: BuilderView,
    parts: Seq<Seq<char>>,
    seconds: F,
    r: Result<BuilderView, RelayError>,
) -> bool
    decreases parts.len(),
{
    if parts.len() == 0 {
        r == Ok::<BuilderView, RelayError>(b)
    } else {
        let part = parts[0];
        let rest = parts.drop_first();
        match part_spec(part) {
            Err(_) => r matches Err(e) && (e matches RelayError::InvalidConnectionString(m) && m@
                == part_message(part)),
            Ok(None) => reads_from(b, rest, seconds, r),
            Ok(Some((k, v))) => match k {
                ConnectionStringKey::Endpoint => match url_parse_error(v) {
                    None => reads_from(
                        BuilderView {
                            has_endpoint: true,
                            endpoint_text: Some(url_text_of(url_parsed(v))),
                            ..b
                        },
                        rest,
                        seconds,
                        r,
                    ),
                    Some(err) => r matches Err(e) && (e matches RelayError::InvalidConnectionString(
                        m,
                    ) && m@ == "Invalid Endpoint URI '"@ + v + "': "@ + err),
                },
                ConnectionStringKey::EntityPath => reads_from(
                    BuilderView { entity_path: Some(v), ..b },
                    rest,
                    seconds,
                    r,
                ),
                ConnectionStringKey::SharedAccessKeyName => reads_from(
                    BuilderView { shared_access_key_name: Some(v), ..b },
                    rest,
                    seconds,
                    r,
                ),
                ConnectionStringKey::SharedAccessKey => reads_from(
                    BuilderView { shared_access_key: Some(v), ..b },
                    rest,
                    seconds,
                    r,
                ),
                ConnectionStringKey::SharedAccessSignature => reads_from(
                    BuilderView { shared_access_signature: Some(v), ..b },
                    rest,
                    seconds,
                    r,
                ),
                ConnectionStringKey::OperationTimeout => match timespan_spec(v) {
                    Err(p) => r matches Err(e) && (e matches RelayError::InvalidConnectionString(m)
                        && m@ == timespan_message(p, trim(v))),
                    Ok(_) => exists|tt: TimespanText, d: Result<std::time::Duration, RelayError>|
                        #![trigger call_ensures(seconds, (tt,), d)]
                        timespan_text_of(v, tt) && call_ensures(seconds, (tt,), d) && match d {
                            Ok(dur) => reads_from(
                                BuilderView { operation_timeout: Some(dur), ..b },
                                rest,
                                seconds,
                                r,
                            ),
                            Err(e) => r == Err::<BuilderView, RelayError>(e),
                        },
                },
                ConnectionStringKey::Authentication => reads_from(
                    BuilderView { authentication: authentication_of(v), ..b },
                    rest,
                    seconds,
                    r,
                ),
            },
        }
    }
}

/// The view of a reading's result.
pub open spec fn result_view(r: Result<RelayConnectionStringBuilder, RelayError>) -> Result<
    BuilderView,
    RelayError,
> {
    match r {
        Ok(b) => Ok(b@),
        Err(e) => Err(e),
    }
}

impl RelayConnectionStringBuilder {
    /// Parses a connection string into a builder. `seconds` turns an
    /// `OperationTimeout` value into a duration.
    ///
    /// # Errors
    /// Returns `RelayError::InvalidConnectionString` if the string is malformed.
    pub fn from_connection_string<F: Fn(TimespanText) -> Result<std::time::Duration, RelayError>>(
        s: &str,
        seconds: F,
    ) -> (r: Result<Self, RelayError>)
        requires
            forall|tt: TimespanText| #[trigger] seconds.requires((tt,)),
            forall|i: int|
                0 <= i < split_parts(s@).len() ==> #[trigger] part_timeout_fits(split_parts(s@)[i]),
        ensures
            reads_from(empty_builder(), split_parts(s@), seconds, result_view(r)),
    {
        let all = chars_of(s);
        let n = all.len();
        let mut b = Self::new();
        let mut start: usize = 0;
        assert(all@.skip(0) =~= s@);
        loop
            invariant
                start <= n,
                n == all@.len(),
                all@ == s@,
                forall|tt: TimespanText| #[trigger] seconds.requires((tt,)),
                forall|i: int|
                    0 <= i < split_parts(all@.skip(start as int)).len() ==> #[trigger] part_timeout_fits(
                        split_parts(all@.skip(start as int))[i],
                    ),
                forall|r: Result<BuilderView, RelayError>|
                    #[trigger] reads_from(b@, split_parts(all@.skip(start as int)), seconds, r)
                        ==> reads_from(empty_builder(), split_parts(s@), seconds, r),
            decreases n - start,
        {
            let ghost before = b@;
            let ghost parts = split_parts(all@.skip(start as int));
            let rest = &all.as_slice()[start..n];
            assert(rest@ =~= all@.skip(start as int));
            proof {
                lemma_find_index(rest@, ';');
            }
            let (end, more) = match find_char(rest, ';') {
                Some(i) => (start + i, true),
                None => (n, false),
            };
            proof {
                if more {
                    assert(rest@.take(end - start) =~= all@.subrange(start as int, end as int));
                    assert(rest@.skip(end - start + 1) =~= all@.skip(end + 1));
                } else {
                    assert(rest@ =~= all@.subrange(start as int, end as int));
                }
            }
            let part = string_of(&all.as_slice()[start..end]);
            assert(parts[0] == part@);
            assert(part_timeout_fits(parts[0]));
            let ghost next_parts = parts.drop_first();
            assert(more ==> next_parts =~= split_parts(all@.skip(end + 1)));
            assert(!more ==> next_parts =~= Seq::<Seq<char>>::empty());
            match parse_connection_string_part(part.as_str()) {
                Err(e) => {
                    proof {
                        assert(reads_from(before, parts, seconds, result_view(Err(e))));
                    }
                    return Err(e);
                },
                Ok(None) => {},
                Ok(Some((k, v))) => {
                    match k {
                        ConnectionStringKey::Endpoint => match parse_url(v.as_str()) {
                            Ok(u) => {
                                b.endpoint = Some(u);
                            },
                            Err(m) => {
                                let mut t: Vec<char> = Vec::new();
                                push_str(&mut t, "Invalid Endpoint URI '");
                                push_str(&mut t, v.as_str());
                                push_str(&mut t, "': ");
                                push_str(&mut t, m.as_str());
                                let e = RelayError::InvalidConnectionString(string_of(t.as_slice()));
                                proof {
                                    assert(reads_from(before, parts, seconds, result_view(Err(e))));
                                }
                                return Err(e);
                            },
                        },
                        ConnectionStringKey::EntityPath => {
                            b.entity_path = Some(v);
                        },
                        ConnectionStringKey::SharedAccessKeyName => {
                            b.shared_access_key_name = Some(v);
                        },
                        ConnectionStringKey::SharedAccessKey => {
                            b.shared_access_key = Some(v);
                        },
                        ConnectionStringKey::SharedAccessSignature => {
                            b.shared_access_signature = Some(v);
                        },
                        ConnectionStringKey::OperationTimeout => {
                            match read_timespan(v.as_str()) {
                                Err(e) => {
                                    proof {
                                        assert(reads_from(
                                            before,
                                            parts,
                                            seconds,
                                            result_view(Err(e)),
                                        ));
                                    }
                                    return Err(e);
                                },
                                Ok(tt) => {
                                    let ghost tt0 = tt;
                                    let d = seconds(tt);
                                    match d {
                                        Ok(dur) => {
                                            b.operation_timeout = Some(dur);
                                            proof {
                                                assert forall|r: Result<BuilderView, RelayError>|
                                                    #[trigger] reads_from(
                                                        b@,
                                                        next_parts,
                                                        seconds,
                                                        r,
                                                    ) implies reads_from(
                                                    before,
                                                    parts,
                                                    seconds,
                                                    r,
                                                ) by {
                                                    assert(timespan_text_of(v@, tt0));
                                                    assert(call_ensures(seconds, (tt0,), d));
                                                }
                                            }
                                        },
                                        Err(e) => {
                                            proof {
                                                assert(timespan_text_of(v@, tt0));
                                                assert(call_ensures(seconds, (tt0,), d));
                                                assert(reads_from(
                                                    before,
                                                    parts,
                                                    seconds,
                                                    result_view(Err(e)),
                                                ));
                                            }
                                            return Err(e);
                                        },
                                    }
                                },
                            }
                        },
                        ConnectionStringKey::Authentication => {
                            b.authentication = parse_authentication_type(v.as_str());
                        },
                    }
                },
            }
            proof {
                assert forall|r: Result<BuilderView, RelayError>|
                    #[trigger] reads_from(b@, next_parts, seconds, r) implies reads_from(
                    before,
                    parts,
                    seconds,
                    r,
                ) by {}
            }
            if !more {
                proof {
                    assert(reads_from(b@, next_parts, seconds, Ok::<BuilderView, RelayError>(b@)));
                }
                return Ok(b);
            }
            start = end + 1;
        }
    }
}

/// Whether every `OperationTimeout` of a connection string stays within
/// `u64` seconds, as reading it needs.
pub fn timeouts_fit(s: &str) -> (r: bool)
    ensures
        r == forall|i: int|
            0 <= i < split_parts(s@).len() ==> #[trigger] part_timeout_fits(split_parts(s@)[i]),
{
    let all = chars_of(s);
    let n = all.len();
    let mut start: usize = 0;
    assert(all@.skip(0) =~= s@);
    loop
        invariant
            start <= n,
            n == all@.len(),
            all@ == s@,
            (forall|i: int|
                0 <= i < split_parts(s@).len() ==> #[trigger] part_timeout_fits(split_parts(s@)[i]))
                <==> (forall|i: int|
                0 <= i < split_parts(all@.skip(start as int)).len() ==> #[trigger] part_timeout_fits(
                    split_parts(all@.skip(start as int))[i],
                )),
        decreases n - start,
    {
        let ghost parts = split_parts(all@.skip(start as int));
        let rest = &all.as_slice()[start..n];
        assert(rest@ =~= all@.skip(start as int));
        proof {
            lemma_find_index(rest@, ';');
        }
        let (end, more) = match find_char(rest, ';') {
            Some(i) => (start + i, true),
            None => (n, false),
        };
        proof {
            if more {
                assert(rest@.take(end - start) =~= all@.subrange(start as int, end as int));
                assert(rest@.skip(end - start + 1) =~= all@.skip(end + 1));
            } else {
                assert(rest@ =~= all@.subrange(start as int, end as int));
            }
        }
        let part = string_of(&all.as_slice()[start..end]);
        assert(parts[0] == part@);
        let ghost next_parts = parts.drop_first();
        assert(more ==> next_parts =~= split_parts(all@.skip(end + 1)));
        assert(!more ==> next_parts =~= Seq::<Seq<char>>::empty());
        let fits = match parse_connection_string_part(part.as_str()) {
            Ok(Some((ConnectionStringKey::OperationTimeout, v))) => timespan_text_fits(v.as_str()),
            _ => true,
        };
        proof {
            assert((forall|i: int| 0 <= i < parts.len() ==> #[trigger] part_timeout_fits(parts[i]))
                <==> (part_timeout_fits(parts[0]) && forall|i: int|
                0 <= i < next_parts.len() ==> #[trigger] part_timeout_fits(next_parts[i]))) by {
                if part_timeout_fits(parts[0]) && forall|i: int|
                    0 <= i < next_parts.len() ==> #[trigger] part_timeout_fits(next_parts[i]) {
                    assert forall|i: int| 0 <= i < parts.len() implies #[trigger] part_timeout_fits(
                        parts[i],
                    ) by {
                        if i > 0 {
                            assert(parts[i] == next_parts[i - 1]);
                        }
                    }
                }
                if forall|i: int| 0 <= i < parts.len() ==> #[trigger] part_timeout_fits(parts[i]) {
                    assert forall|i: int| 0 <= i < next_parts.len() implies #[trigger] part_timeout_fits(
                        next_parts[i],
                    ) by {
                        assert(next_parts[i] == parts[i + 1]);
                    }
                }
            }
        }
        if !fits {
            return false;
        }
        if !more {
            return true;
        }
        start = end + 1;
    }
}

} // verus!

verus! {

// ---------------------------------------------------------------------------
// Writing a builder and reading it back
// ---------------------------------------------------------------------------

/// A field value that reads back as it was written: not blank, without
/// leading or trailing whitespace, and without `;`.
pub open spec fn plain_value(v: Seq<char>) -> bool {
    v.len() > 0 && trim(v) == v && !v.contains(';')
}

proof fn lemma_trim_start_len(s: Seq<char>)
    ensures
        trim_start(s).len() <= s.len(),
    decreases s.len(),
{
    if s.len() > 0 && is_ws(s[0]) {
        lemma_trim_start_len(s.drop_first());
    }
}

proof fn lemma_trim_end_len(s: Seq<char>)
    ensures
        trim_end(s).len() <= s.len(),
    decreases s.len(),
{
    if s.len() > 0 && is_ws(s.last()) {
        lemma_trim_end_len(s.drop_last());
    }
}

/// A plain value neither starts nor ends with whitespace.
proof fn lemma_plain_ends(v: Seq<char>)
    requires
        plain_value(v),
    ensures
        !is_ws(v[0]),
        !is_ws(v.last()),
{
    if is_ws(v[0]) {
        lemma_trim_start_len(v.drop_first());
        lemma_trim_end_len(trim_start(v));
        assert(trim_start(v) == trim_start(v.drop_first()));
        assert(false);
    }
    assert(trim_start(v) == v);
    if is_ws(v.last()) {
        lemma_trim_end_len(v.drop_last());
        assert(trim_end(v) == trim_end(v.drop_last()));
        assert(false);
    }
}

/// `prefix` is a key, then `=`: its key has no whitespace and no `=`, and
/// names `k`.
pub open spec fn prefix_names(prefix: Seq<char>, k: ConnectionStringKey) -> bool {
    &&& prefix.len() >= 2
    &&& prefix.last() == '='
    &&& forall|i: int| 0 <= i < prefix.len() - 1 ==> !is_ws(#[trigger] prefix[i]) && prefix[i] != '='
    &&& !prefix.contains(';')
    &&& key_of(lower_seq(prefix.drop_last())) == Some(k)
}

/// A `Key=value` part with a plain value reads as that key and value.
proof fn lemma_part_kv(prefix: Seq<char>, v: Seq<char>, k: ConnectionStringKey)
    requires
        prefix_names(prefix, k),
        plain_value(v),
    ensures
        part_spec(prefix + v) == Ok::<Option<(ConnectionStringKey, Seq<char>)>, PartProblem>(
            Some((k, v)),
        ),
{
    let p = prefix + v;
    let a = prefix.drop_last();
    lemma_plain_ends(v);
    assert(p[0] == prefix[0]);
    assert(p.last() == v.last());
    lemma_trim_fixed(p);
    assert forall|i: int| 0 <= i < a.len() implies a[i] != '=' by {
        assert(a[i] == prefix[i]);
    }
    let b = seq!['='] + v;
    assert(p =~= a + b);
    assert(b[0] == '=');
    assert(find_index(b, '=') == Some(0int));
    lemma_find_concat(a, b, '=');
    assert(p.take(a.len() as int) =~= a);
    assert(p.skip(a.len() as int + 1) =~= v);
    assert(a[0] == prefix[0]);
    assert(a.last() == prefix[a.len() - 1]);
    lemma_trim_fixed(a);
}

/// Joining parts with `;` in front of all but the first.
proof fn lemma_join_front(ps: Seq<Seq<char>>)
    requires
        ps.len() >= 2,
    ensures
        join_parts(ps) == ps[0] + ";"@ + join_parts(ps.drop_first()),
    decreases ps.len(),
{
    if ps.len() == 2 {
        assert(join_parts(ps.drop_last()) == ps[0]);
        assert(join_parts(ps.drop_first()) == ps[1]);
    } else {
        lemma_join_front(ps.drop_last());
        assert(ps.drop_last().drop_first() =~= ps.drop_first().drop_last());
        assert(ps.drop_first().last() == ps.last());
        assert(join_parts(ps) =~= ps[0] + ";"@ + join_parts(ps.drop_first()));
    }
}

/// Parts without `;`, joined, split back into the same parts.
proof fn lemma_split_join(ps: Seq<Seq<char>>)
    requires
        ps.len() >= 1,
        forall|i: int| 0 <= i < ps.len() ==> !(#[trigger] ps[i]).contains(';'),
    ensures
        split_parts(join_parts(ps)) == ps,
    decreases ps.len(),
{
    reveal_strlit(";");
    if ps.len() == 1 {
        lemma_find_none(ps[0], ';');
        assert(ps =~= seq![ps[0]]);
    } else {
        lemma_join_front(ps);
        let rest = ps.drop_first();
        assert forall|i: int| 0 <= i < rest.len() implies !(#[trigger] rest[i]).contains(';') by {
            assert(rest[i] == ps[i + 1]);
        }
        lemma_split_join(rest);
        let j = join_parts(rest);
        let s = ps[0] + ";"@ + j;
        assert(s =~= ps[0] + (seq![';'] + j));
        assert((seq![';'] + j)[0] == ';');
        lemma_find_concat(ps[0], seq![';'] + j, ';');
        assert(s.take(ps[0].len() as int) =~= ps[0]);
        assert(s.skip(ps[0].len() as int + 1) =~= j);
        assert(ps =~= seq![ps[0]] + rest);
    }
}

/// The keys a builder is written with, each naming its field.
proof fn lemma_prefixes()
    ensures
        prefix_names("Endpoint="@, ConnectionStringKey::Endpoint),
        prefix_names("EntityPath="@, ConnectionStringKey::EntityPath),
        prefix_names("SharedAccessKeyName="@, ConnectionStringKey::SharedAccessKeyName),
        prefix_names("SharedAccessKey="@, ConnectionStringKey::SharedAccessKey),
        prefix_names("SharedAccessSignature="@, ConnectionStringKey::SharedAccessSignature),
        prefix_names("Authentication="@, ConnectionStringKey::Authentication),
        prefix_names("OperationTimeout="@, ConnectionStringKey::OperationTimeout),
{
    reveal_strlit("endpoint");
    reveal_strlit("entitypath");
    reveal_strlit("sharedaccesskeyname");
    reveal_strlit("sharedaccesskey");
    reveal_strlit("sharedaccesssignature");
    reveal_strlit("operationtimeout");
    reveal_strlit("authentication");
    reveal_strlit("Endpoint=");
    reveal_strlit("EntityPath=");
    reveal_strlit("SharedAccessKeyName=");
    reveal_strlit("SharedAccessKey=");
    reveal_strlit("SharedAccessSignature=");
    reveal_strlit("Authentication=");
    reveal_strlit("OperationTimeout=");
    assert(lower_seq("Endpoint="@.drop_last()) =~= "endpoint"@);
    assert(lower_seq("EntityPath="@.drop_last()) =~= "entitypath"@);
    assert(lower_seq("SharedAccessKeyName="@.drop_last()) =~= "sharedaccesskeyname"@);
    assert(lower_seq("SharedAccessKey="@.drop_last()) =~= "sharedaccesskey"@);
    assert(lower_seq("SharedAccessSignature="@.drop_last()) =~= "sharedaccesssignature"@);
    assert(lower_seq("Authentication="@.drop_last()) =~= "authentication"@);
    assert(lower_seq("OperationTimeout="@.drop_last()) =~= "operationtimeout"@);
}

/// The text has no space in it, so removing spaces leaves it as it is.
proof fn lemma_without_spaces_none(s: Seq<char>)
    requires
        forall|i: int| 0 <= i < s.len() ==> #[trigger] s[i] != ' ',
    ensures
        without_spaces(s) == s,
    decreases s.len(),
{
    reveal_with_fuel(Seq::filter, 1);
    if s.len() > 0 {
        assert forall|i: int| 0 <= i < s.drop_last().len() implies #[trigger] s.drop_last()[i]
            != ' ' by {
            assert(s.drop_last()[i] == s[i]);
        }
        lemma_without_spaces_none(s.drop_last());
        assert(s.last() == s[s.len() - 1]);
        assert(s.drop_last().push(s.last()) =~= s);
    }
}

/// The `Authentication` values a builder is written with read back as the
/// type they were written for.
proof fn lemma_authentication_values()
    ensures
        plain_value("ManagedIdentity"@),
        plain_value("Other"@),
        authentication_of("ManagedIdentity"@) == AuthenticationType::ManagedIdentity,
        authentication_of("Other"@) == AuthenticationType::Other,
        "Authentication=ManagedIdentity"@ == "Authentication="@ + "ManagedIdentity"@,
        "Authentication=Other"@ == "Authentication="@ + "Other"@,
{
    reveal_strlit("ManagedIdentity");
    reveal_strlit("Other");
    reveal_strlit("managedidentity");
    reveal_strlit("Authentication=ManagedIdentity");
    reveal_strlit("Authentication=Other");
    reveal_strlit("Authentication=");
    let mi = "ManagedIdentity"@;
    let ot = "Other"@;
    lemma_trim_fixed(mi);
    lemma_trim_fixed(ot);
    lemma_without_spaces_none(mi);
    lemma_without_spaces_none(ot);
    assert(lower_seq(mi) =~= "managedidentity"@);
    assert(lower_seq(ot).len() == 5);
    assert("Authentication=ManagedIdentity"@ =~= "Authentication="@ + mi);
    assert("Authentication=Other"@ =~= "Authentication="@ + ot);
}

/// No part holds a `;`.
pub open spec fn no_semicolons(ps: Seq<Seq<char>>) -> bool {
    forall|i: int| 0 <= i < ps.len() ==> !(#[trigger] ps[i]).contains(';')
}

proof fn lemma_no_semicolons_concat(a: Seq<Seq<char>>, b: Seq<Seq<char>>)
    requires
        no_semicolons(a),
        no_semicolons(b),
    ensures
        no_semicolons(a + b),
{
    assert forall|i: int| 0 <= i < (a + b).len() implies !(#[trigger] (a + b)[i]).contains(';') by {
        if i < a.len() {
            assert((a + b)[i] == a[i]);
        } else {
            assert((a + b)[i] == b[i - a.len()]);
        }
    }
}

/// The part of a set field holds no `;` when its key and value hold none.
proof fn lemma_kv_plain(ps: Seq<Seq<char>>, prefix: Seq<char>, v: Option<Seq<char>>)
    requires
        ps == opt_kv(prefix, v),
        !prefix.contains(';'),
        v matches Some(x) ==> plain_value(x),
    ensures
        no_semicolons(ps),
{
    if let Some(x) = v {
        let p = prefix + x;
        assert forall|i: int| 0 <= i < p.len() implies p[i] != ';' by {
            if i < prefix.len() {
                assert(p[i] == prefix[i]);
            } else {
                assert(p[i] == x[i - prefix.len()]);
            }
        }
        assert(ps[0] == p);
    }
}

/// The builder after reading `Key=value` for a text field (or the endpoint).
pub open spec fn with_text(b: BuilderView, k: ConnectionStringKey, v: Seq<char>) -> BuilderView {
    match k {
        ConnectionStringKey::Endpoint => BuilderView {
            has_endpoint: true,
            endpoint_text: Some(url_text_of(url_parsed(v))),
            ..b
        },
        ConnectionStringKey::EntityPath => BuilderView { entity_path: Some(v), ..b },
        ConnectionStringKey::SharedAccessKeyName => BuilderView {
            shared_access_key_name: Some(v),
            ..b
        },
        ConnectionStringKey::SharedAccessKey => BuilderView { shared_access_key: Some(v), ..b },
        ConnectionStringKey::SharedAccessSignature => BuilderView {
            shared_access_signature: Some(v),
            ..b
        },
        ConnectionStringKey::Authentication => BuilderView {
            authentication: authentication_of(v),
            ..b
        },
        ConnectionStringKey::OperationTimeout => b,
    }
}

/// Reading an optional `Key=value` part, then the rest.
proof fn lemma_read_part<F: Fn(TimespanText) -> Result<std::time::Duration, RelayError>>(
    b0: BuilderView,
    prefix: Seq<char>,
    k: ConnectionStringKey,
    v: Option<Seq<char>>,
    rest: Seq<Seq<char>>,
    seconds: F,
    r: Result<BuilderView, RelayError>,
)
    requires
        prefix_names(prefix, k),
        k != ConnectionStringKey::OperationTimeout,
        v matches Some(x) ==> plain_value(x),
        k == ConnectionStringKey::Endpoint ==> (v matches Some(x) ==> url_parse_error(x) is None),
        reads_from(
            match v {
                Some(x) => with_text(b0, k, x),
                None => b0,
            },
            rest,
            seconds,
            r,
        ),
    ensures
        reads_from(b0, opt_kv(prefix, v) + rest, seconds, r),
{
    match v {
        None => {
            assert(opt_kv(prefix, v) + rest =~= rest);
        },
        Some(x) => {
            lemma_part_kv(prefix, x, k);
            let parts = opt_kv(prefix, v) + rest;
            assert(parts[0] == prefix + x);
            assert(parts.drop_first() =~= rest);
        },
    }
}

/// The parts a builder is written as, grouped from the right.
pub open spec fn grouped_parts(b: BuilderView, endpoint: Seq<char>, timeout: Seq<char>) -> Seq<
    Seq<char>,
> {
    opt_kv("Endpoint="@, if b.has_endpoint { Some(endpoint) } else { None }) + (opt_kv(
        "EntityPath="@,
        b.entity_path,
    ) + (opt_kv("SharedAccessKeyName="@, b.shared_access_key_name) + (opt_kv(
        "SharedAccessKey="@,
        b.shared_access_key,
    ) + (opt_kv("SharedAccessSignature="@, b.shared_access_signature) + (opt_kv(
        "OperationTimeout="@,
        timeout_value(b, timeout),
    ) + opt_kv("Authentication="@, auth_value(b.authentication)))))))
}

/// The value an authentication type is written with, if any.
pub open spec fn auth_value(a: AuthenticationType) -> Option<Seq<char>> {
    match a {
        AuthenticationType::Unset => None,
        AuthenticationType::ManagedIdentity => Some("ManagedIdentity"@),
        AuthenticationType::Other => Some("Other"@),
    }
}

/// The timeout's text, when the builder has a timeout.
pub open spec fn timeout_value(b: BuilderView, timeout: Seq<char>) -> Option<Seq<char>> {
    if b.operation_timeout is Some {
        Some(timeout)
    } else {
        None
    }
}

/// The reading of a timeout written as `hh:mm:ss`: whole seconds, no
/// fraction.
pub open spec fn whole_seconds_reading(n: u64) -> TimespanText {
    TimespanText::Clock { whole_secs: n, fraction: None }
}

/// The conditions under which the text fields of a written builder read
/// back: plain values, and an endpoint whose text the URL parser accepts
/// and gives back as it was.
pub open spec fn reads_back_plainly(b: BuilderView, endpoint: Seq<char>) -> bool {
    &&& b.endpoint_text == (if b.has_endpoint {
        Some(endpoint)
    } else {
        None
    })
    &&& b.has_endpoint ==> plain_value(endpoint) && url_parse_error(endpoint) is None
        && url_text_of(url_parsed(endpoint)) == endpoint
    &&& b.entity_path matches Some(v) ==> plain_value(v)
    &&& b.shared_access_key_name matches Some(v) ==> plain_value(v)
    &&& b.shared_access_key matches Some(v) ==> plain_value(v)
    &&& b.shared_access_signature matches Some(v) ==> plain_value(v)
}

proof fn lemma_grouped_parts(b: BuilderView, endpoint: Seq<char>, timeout: Seq<char>)
    ensures
        builder_parts(b, endpoint, timeout) == grouped_parts(b, endpoint, timeout),
{
    lemma_authentication_values();
    let auth_part = match b.authentication {
        AuthenticationType::Unset => Seq::<Seq<char>>::empty(),
        AuthenticationType::ManagedIdentity => seq!["Authentication=ManagedIdentity"@],
        AuthenticationType::Other => seq!["Authentication=Other"@],
    };
    assert(auth_part =~= opt_kv("Authentication="@, auth_value(b.authentication)));
    let pa = opt_kv("Endpoint="@, if b.has_endpoint { Some(endpoint) } else { None });
    let pb = opt_kv("EntityPath="@, b.entity_path);
    let pc = opt_kv("SharedAccessKeyName="@, b.shared_access_key_name);
    let pd = opt_kv("SharedAccessKey="@, b.shared_access_key);
    let pe = opt_kv("SharedAccessSignature="@, b.shared_access_signature);
    let pf = opt_kv("OperationTimeout="@, timeout_value(b, timeout));
    let pg = opt_kv("Authentication="@, auth_value(b.authentication));
    assert(builder_parts(b, endpoint, timeout) == pa + pb + pc + pd + pe + pf + pg);
    vstd::seq_lib::lemma_concat_associative(pa + pb + pc + pd + pe, pf, pg);
    vstd::seq_lib::lemma_concat_associative(pa + pb + pc + pd, pe, pf + pg);
    vstd::seq_lib::lemma_concat_associative(pa + pb + pc, pd, pe + (pf + pg));
    vstd::seq_lib::lemma_concat_associative(pa + pb, pc, pd + (pe + (pf + pg)));
    vstd::seq_lib::lemma_concat_associative(pa, pb, pc + (pd + (pe + (pf + pg))));
}

/// Reading `OperationTimeout=hh:mm:ss`, then the rest: the reader is handed
/// the whole seconds, and what it makes of them is the builder's timeout.
proof fn lemma_read_timeout_part<F: Fn(TimespanText) -> Result<std::time::Duration, RelayError>>(
    b0: BuilderView,
    n: u64,
    d: std::time::Duration,
    rest: Seq<Seq<char>>,
    seconds: F,
    r: Result<BuilderView, RelayError>,
)
    requires
        call_ensures(seconds, (whole_seconds_reading(n),), Ok::<std::time::Duration, RelayError>(d)),
        reads_from(BuilderView { operation_timeout: Some(d), ..b0 }, rest, seconds, r),
    ensures
        reads_from(b0, opt_kv("OperationTimeout="@, Some(hms_text(n as nat))) + rest, seconds, r),
{
    let v = hms_text(n as nat);
    let prefix = "OperationTimeout="@;
    lemma_prefixes();
    lemma_hms_plain(n);
    lemma_part_kv(prefix, v, ConnectionStringKey::OperationTimeout);
    law_formatted_timespan_reads_back(n);
    let parts = opt_kv(prefix, Some(v)) + rest;
    assert(parts[0] == prefix + v);
    assert(parts.drop_first() =~= rest);
    let tt = whole_seconds_reading(n);
    assert(timespan_text_of(v, tt));
    let ok = Ok::<std::time::Duration, RelayError>(d);
    assert(call_ensures(seconds, (tt,), ok));
}

/// Reading the grouped parts, field by field, gives the builder back.
proof fn lemma_read_grouped<F: Fn(TimespanText) -> Result<std::time::Duration, RelayError>>(
    b: BuilderView,
    endpoint: Seq<char>,
    whole_secs: u64,
    seconds: F,
)
    requires
        reads_back_plainly(b, endpoint),
        b.operation_timeout matches Some(d) ==> call_ensures(
            seconds,
            (whole_seconds_reading(whole_secs),),
            Ok::<std::time::Duration, RelayError>(d),
        ),
    ensures
        reads_from(
            empty_builder(),
            grouped_parts(b, endpoint, hms_text(whole_secs as nat)),
            seconds,
            Ok::<BuilderView, RelayError>(b),
        ),
{
    lemma_prefixes();
    lemma_authentication_values();
    let ep = if b.has_endpoint {
        Some(endpoint)
    } else {
        None
    };
    let timeout = hms_text(whole_secs as nat);
    let pb = opt_kv("EntityPath="@, b.entity_path);
    let pc = opt_kv("SharedAccessKeyName="@, b.shared_access_key_name);
    let pd = opt_kv("SharedAccessKey="@, b.shared_access_key);
    let pe = opt_kv("SharedAccessSignature="@, b.shared_access_signature);
    let pf = opt_kv("OperationTimeout="@, timeout_value(b, timeout));
    let pg = opt_kv("Authentication="@, auth_value(b.authentication));
    let b0 = empty_builder();
    let b1 = BuilderView { has_endpoint: b.has_endpoint, endpoint_text: b.endpoint_text, ..b0 };
    let b2 = BuilderView { entity_path: b.entity_path, ..b1 };
    let b3 = BuilderView { shared_access_key_name: b.shared_access_key_name, ..b2 };
    let b4 = BuilderView { shared_access_key: b.shared_access_key, ..b3 };
    let b5 = BuilderView { shared_access_signature: b.shared_access_signature, ..b4 };
    let b6 = BuilderView { operation_timeout: b.operation_timeout, ..b5 };
    let ok = Ok::<BuilderView, RelayError>(b);
    assert(reads_from(b, Seq::<Seq<char>>::empty(), seconds, ok));
    lemma_read_part(
        b6,
        "Authentication="@,
        ConnectionStringKey::Authentication,
        auth_value(b.authentication),
        Seq::empty(),
        seconds,
        ok,
    );
    assert(pg + Seq::<Seq<char>>::empty() =~= pg);
    match b.operation_timeout {
        Some(d) => {
            lemma_read_timeout_part(b5, whole_secs, d, pg, seconds, ok);
        },
        None => {
            assert(pf + pg =~= pg);
        },
    }
    lemma_read_part(
        b4,
        "SharedAccessSignature="@,
        ConnectionStringKey::SharedAccessSignature,
        b.shared_access_signature,
        pf + pg,
        seconds,
        ok,
    );
    lemma_read_part(
        b3,
        "SharedAccessKey="@,
        ConnectionStringKey::SharedAccessKey,
        b.shared_access_key,
        pe + (pf + pg),
        seconds,
        ok,
    );
    lemma_read_part(
        b2,
        "SharedAccessKeyName="@,
        ConnectionStringKey::SharedAccessKeyName,
        b.shared_access_key_name,
        pd + (pe + (pf + pg)),
        seconds,
        ok,
    );
    lemma_read_part(
        b1,
        "EntityPath="@,
        ConnectionStringKey::EntityPath,
        b.entity_path,
        pc + (pd + (pe + (pf + pg))),
        seconds,
        ok,
    );
    lemma_read_part(
        b0,
        "Endpoint="@,
        ConnectionStringKey::Endpoint,
        ep,
        pb + (pc + (pd + (pe + (pf + pg)))),
        seconds,
        ok,
    );
}

/// No part of a plainly written builder holds a `;`.
proof fn lemma_grouped_no_semicolons(b: BuilderView, endpoint: Seq<char>, whole_secs: u64)
    requires
        reads_back_plainly(b, endpoint),
    ensures
        no_semicolons(grouped_parts(b, endpoint, hms_text(whole_secs as nat))),
{
    lemma_prefixes();
    lemma_authentication_values();
    lemma_hms_plain(whole_secs);
    let timeout = hms_text(whole_secs as nat);
    let ep = if b.has_endpoint {
        Some(endpoint)
    } else {
        None
    };
    let pa = opt_kv("Endpoint="@, ep);
    let pb = opt_kv("EntityPath="@, b.entity_path);
    let pc = opt_kv("SharedAccessKeyName="@, b.shared_access_key_name);
    let pd = opt_kv("SharedAccessKey="@, b.shared_access_key);
    let pe = opt_kv("SharedAccessSignature="@, b.shared_access_signature);
    let pf = opt_kv("OperationTimeout="@, timeout_value(b, timeout));
    let pg = opt_kv("Authentication="@, auth_value(b.authentication));
    lemma_kv_plain(pa, "Endpoint="@, ep);
    lemma_kv_plain(pb, "EntityPath="@, b.entity_path);
    lemma_kv_plain(pc, "SharedAccessKeyName="@, b.shared_access_key_name);
    lemma_kv_plain(pd, "SharedAccessKey="@, b.shared_access_key);
    lemma_kv_plain(pe, "SharedAccessSignature="@, b.shared_access_signature);
    lemma_kv_plain(pf, "OperationTimeout="@, timeout_value(b, timeout));
    lemma_kv_plain(pg, "Authentication="@, auth_value(b.authentication));
    lemma_no_semicolons_concat(pf, pg);
    lemma_no_semicolons_concat(pe, pf + pg);
    lemma_no_semicolons_concat(pd, pe + (pf + pg));
    lemma_no_semicolons_concat(pc, pd + (pe + (pf + pg)));
    lemma_no_semicolons_concat(pb, pc + (pd + (pe + (pf + pg))));
    lemma_no_semicolons_concat(pa, pb + (pc + (pd + (pe + (pf + pg)))));
}

/// A connection string written from a builder reads back as the same
/// builder: every field that was set comes back with its value, the
/// endpoint's text included, when the texts are plain values (not blank,
/// not padded with whitespace, without `;`) and the endpoint's text is one
/// the URL parser accepts and gives back as it was. A timeout written as
/// `hh:mm:ss` of a whole number of seconds comes back as the duration that
/// the given reader makes of those whole seconds.
pub proof fn law_written_connection_string_reads_back<F: Fn(TimespanText) -> Result<
    std::time::Duration,
    RelayError,
>>(b: BuilderView, endpoint: Seq<char>, whole_secs: u64, seconds: F)
    requires
        reads_back_plainly(b, endpoint),
        b.operation_timeout matches Some(d) ==> call_ensures(
            seconds,
            (whole_seconds_reading(whole_secs),),
            Ok::<std::time::Duration, RelayError>(d),
        ),
    ensures
        reads_from(
            empty_builder(),
            split_parts(join_parts(builder_parts(b, endpoint, hms_text(whole_secs as nat)))),
            seconds,
            Ok::<BuilderView, RelayError>(b),
        ),
{
    let timeout = hms_text(whole_secs as nat);
    lemma_grouped_parts(b, endpoint, timeout);
    lemma_read_grouped(b, endpoint, whole_secs, seconds);
    let ps = grouped_parts(b, endpoint, timeout);
    if ps.len() == 0 {
        let e = Seq::<char>::empty();
        assert(join_parts(ps) == e);
        assert(find_index(e, ';') is None);
        assert(split_parts(e) == seq![e]);
        assert(trim(e) =~= e);
        assert(part_spec(e) is Ok);
        assert(seq![e].drop_first() =~= Seq::<Seq<char>>::empty());
        assert(reads_from(empty_builder(), ps, seconds, Ok::<BuilderView, RelayError>(b)));
        assert(reads_from(empty_builder(), seq![e], seconds, Ok::<BuilderView, RelayError>(b)));
    } else {
        lemma_grouped_no_semicolons(b, endpoint, whole_secs);
        lemma_split_join(ps);
    }
}

} // verus!
