use std::time::Duration;

use url::Url;

use azbridge::relay::connection_string::{AuthenticationType, RelayConnectionStringBuilder};
use azbridge::relay::error::RelayError;
use azbridge::relay::timespan::{format_hms, TimespanText};

fn to_duration(t: TimespanText) -> Result<Duration, RelayError> {
    match t {
        TimespanText::Seconds(s) => {
            let secs: f64 = s.parse().unwrap();
            if secs < 0.0 {
                return Err(RelayError::InvalidConnectionString(format!(
                    "OperationTimeout cannot be negative: '{s}'"
                )));
            }
            Ok(Duration::from_secs_f64(secs))
        }
        TimespanText::Clock { whole_secs, fraction } => {
            let frac: f64 = match fraction {
                Some(f) => format!("0.{f}").parse().unwrap(),
                None => 0.0,
            };
            Ok(Duration::from_secs(whole_secs) + Duration::from_secs_f64(frac))
        }
    }
}

fn timeout_text(d: Duration) -> String {
    format_hms(d.as_secs())
}


#[test]
fn test_new_builder_is_empty() {
    let b = RelayConnectionStringBuilder::new();
    assert!(b.endpoint().is_none());
    assert!(b.entity_path().is_none());
    assert!(b.shared_access_key_name().is_none());
    assert!(b.shared_access_key().is_none());
    assert!(b.shared_access_signature().is_none());
    assert!(b.operation_timeout().is_none());
    assert_eq!(*b.authentication(), AuthenticationType::Unset);
}

#[test]
fn test_parse_full_connection_string() {
    let cs = "Endpoint=sb://mynamespace.servicebus.windows.net/;\
               EntityPath=myentity;\
               SharedAccessKeyName=mykeyname;\
               SharedAccessKey=bXlrZXk=";
    let b = RelayConnectionStringBuilder::from_connection_string(cs, to_duration).unwrap();

    assert_eq!(
        b.endpoint().unwrap().as_str(),
        "sb://mynamespace.servicebus.windows.net/"
    );
    assert_eq!(b.entity_path(), Some("myentity"));
    assert_eq!(b.shared_access_key_name(), Some("mykeyname"));
    assert_eq!(b.shared_access_key(), Some("bXlrZXk="));
}

#[test]
fn test_parse_case_insensitive_keys() {
    let cs = "endpoint=sb://ns.servicebus.windows.net;ENTITYPATH=ep";
    let b = RelayConnectionStringBuilder::from_connection_string(cs, to_duration).unwrap();
    assert!(b.endpoint().is_some());
    assert_eq!(b.entity_path(), Some("ep"));
}

#[test]
fn test_parse_value_with_equals() {
    let cs = "Endpoint=sb://ns.servicebus.windows.net;\
               SharedAccessSignature=SharedAccessSignature sr=sb%3a%2f%2f&sig=abc%3d%3d&se=123";
    let b = RelayConnectionStringBuilder::from_connection_string(cs, to_duration).unwrap();
    assert_eq!(
        b.shared_access_signature(),
        Some("SharedAccessSignature sr=sb%3a%2f%2f&sig=abc%3d%3d&se=123")
    );
}

#[test]
fn test_parse_unknown_key_errors() {
    let cs = "Endpoint=sb://ns.servicebus.windows.net;BadKey=value";
    let err = RelayConnectionStringBuilder::from_connection_string(cs, to_duration).unwrap_err();
    assert!(matches!(err, RelayError::InvalidConnectionString(_)));
}

#[test]
fn test_parse_empty_value_errors() {
    let cs = "Endpoint=";
    let err = RelayConnectionStringBuilder::from_connection_string(cs, to_duration).unwrap_err();
    assert!(matches!(err, RelayError::InvalidConnectionString(_)));
}

#[test]
fn test_parse_invalid_endpoint_errors() {
    let cs = "Endpoint=not a url";
    let err = RelayConnectionStringBuilder::from_connection_string(cs, to_duration).unwrap_err();
    assert!(matches!(err, RelayError::InvalidConnectionString(_)));
}

#[test]
fn test_parse_operation_timeout_hms() {
    let cs = "Endpoint=sb://ns.servicebus.windows.net;OperationTimeout=00:01:30";
    let b = RelayConnectionStringBuilder::from_connection_string(cs, to_duration).unwrap();
    assert_eq!(b.operation_timeout(), Some(Duration::from_secs(90)));
}

#[test]
fn test_parse_operation_timeout_seconds() {
    let cs = "Endpoint=sb://ns.servicebus.windows.net;OperationTimeout=90";
    let b = RelayConnectionStringBuilder::from_connection_string(cs, to_duration).unwrap();
    assert_eq!(b.operation_timeout(), Some(Duration::from_secs(90)));
}

#[test]
fn test_parse_authentication_managed_identity() {
    let cs = "Endpoint=sb://ns.servicebus.windows.net;Authentication=Managed Identity";
    let b = RelayConnectionStringBuilder::from_connection_string(cs, to_duration).unwrap();
    assert_eq!(*b.authentication(), AuthenticationType::ManagedIdentity);
}

#[test]
fn test_parse_authentication_other() {
    let cs = "Endpoint=sb://ns.servicebus.windows.net;Authentication=SomeOtherType";
    let b = RelayConnectionStringBuilder::from_connection_string(cs, to_duration).unwrap();
    assert_eq!(*b.authentication(), AuthenticationType::Other);
}

#[test]
fn test_display_round_trip() {
    let cs = "Endpoint=sb://ns.servicebus.windows.net/;\
               EntityPath=myentity;\
               SharedAccessKeyName=keyname;\
               SharedAccessKey=a2V5";
    let b = RelayConnectionStringBuilder::from_connection_string(cs, to_duration).unwrap();
    let output = b.to_connection_string(timeout_text);

    let b2 = RelayConnectionStringBuilder::from_connection_string(&output, to_duration).unwrap();
    assert_eq!(
        b.endpoint().unwrap().as_str(),
        b2.endpoint().unwrap().as_str()
    );
    assert_eq!(b.entity_path(), b2.entity_path());
    assert_eq!(b.shared_access_key_name(), b2.shared_access_key_name());
    assert_eq!(b.shared_access_key(), b2.shared_access_key());
}

#[test]
fn test_display_omits_none_fields() {
    let mut b = RelayConnectionStringBuilder::new();
    b.set_endpoint(Url::parse("sb://ns.servicebus.windows.net").unwrap());
    let s = b.to_connection_string(timeout_text);
    assert!(s.starts_with("Endpoint=sb://ns.servicebus.windows.net"));
    assert!(!s.contains("EntityPath"));
}

#[test]
fn test_from_str_trait() {
    let cs = "Endpoint=sb://ns.servicebus.windows.net;EntityPath=ep";
    let b = RelayConnectionStringBuilder::from_connection_string(cs, to_duration).unwrap();
    assert_eq!(b.entity_path(), Some("ep"));
}

#[test]
fn test_validate_key_without_key_name() {
    let mut b = RelayConnectionStringBuilder::new();
    b.set_shared_access_key("mykey");
    assert!(b.validate().is_err());
}

#[test]
fn test_validate_key_name_without_key() {
    let mut b = RelayConnectionStringBuilder::new();
    b.set_shared_access_key_name("mykeyname");
    assert!(b.validate().is_err());
}

#[test]
fn test_validate_signature_with_key() {
    let mut b = RelayConnectionStringBuilder::new();
    b.set_shared_access_key_name("name")
        .set_shared_access_key("key")
        .set_shared_access_signature("sig");
    assert!(b.validate().is_err());
}

#[test]
fn test_validate_managed_identity_with_sas() {
    let mut b = RelayConnectionStringBuilder::new();
    b.set_authentication(AuthenticationType::ManagedIdentity)
        .set_shared_access_key_name("name")
        .set_shared_access_key("key");
    assert!(b.validate().is_err());
}

#[test]
fn test_validate_valid_key_pair() {
    let mut b = RelayConnectionStringBuilder::new();
    b.set_shared_access_key_name("name")
        .set_shared_access_key("key");
    assert!(b.validate().is_ok());
}

#[test]
fn test_validate_valid_signature_only() {
    let mut b = RelayConnectionStringBuilder::new();
    b.set_shared_access_signature("sig");
    assert!(b.validate().is_ok());
}

#[test]
fn test_validate_managed_identity_alone() {
    let mut b = RelayConnectionStringBuilder::new();
    b.set_authentication(AuthenticationType::ManagedIdentity);
    assert!(b.validate().is_ok());
}

#[test]
fn test_validate_empty_builder() {
    let b = RelayConnectionStringBuilder::new();
    assert!(b.validate().is_ok());
}

#[test]
fn test_setters_and_getters() {
    let mut b = RelayConnectionStringBuilder::new();
    let url = Url::parse("sb://test.servicebus.windows.net").unwrap();
    b.set_endpoint(url.clone())
        .set_entity_path("my-hc")
        .set_shared_access_key_name("policy")
        .set_shared_access_key("secret")
        .set_operation_timeout(Duration::from_secs(60))
        .set_authentication(AuthenticationType::ManagedIdentity);

    assert_eq!(b.endpoint().unwrap().as_str(), url.as_str());
    assert_eq!(b.entity_path(), Some("my-hc"));
    assert_eq!(b.shared_access_key_name(), Some("policy"));
    assert_eq!(b.shared_access_key(), Some("secret"));
    assert_eq!(b.operation_timeout(), Some(Duration::from_secs(60)));
    assert_eq!(*b.authentication(), AuthenticationType::ManagedIdentity);
}

#[test]
fn test_clear_methods() {
    let mut b = RelayConnectionStringBuilder::new();
    b.set_endpoint(Url::parse("sb://ns.servicebus.windows.net").unwrap())
        .set_entity_path("ep")
        .set_shared_access_key_name("name")
        .set_shared_access_key("key")
        .set_shared_access_signature("sig")
        .set_operation_timeout(Duration::from_secs(30));

    b.clear_endpoint()
        .clear_entity_path()
        .clear_shared_access_key_name()
        .clear_shared_access_key()
        .clear_shared_access_signature()
        .clear_operation_timeout();

    assert!(b.endpoint().is_none());
    assert!(b.entity_path().is_none());
    assert!(b.shared_access_key_name().is_none());
    assert!(b.shared_access_key().is_none());
    assert!(b.shared_access_signature().is_none());
    assert!(b.operation_timeout().is_none());
}

#[test]
fn test_trailing_semicolons_ignored() {
    let cs = "Endpoint=sb://ns.servicebus.windows.net;EntityPath=ep;";
    let b = RelayConnectionStringBuilder::from_connection_string(cs, to_duration).unwrap();
    assert_eq!(b.entity_path(), Some("ep"));
}

#[test]
fn test_display_with_timeout_and_auth() {
    let mut b = RelayConnectionStringBuilder::new();
    b.set_endpoint(Url::parse("sb://ns.servicebus.windows.net").unwrap())
        .set_operation_timeout(Duration::from_secs(60))
        .set_authentication(AuthenticationType::ManagedIdentity);
    let s = b.to_connection_string(timeout_text);
    assert!(s.contains("OperationTimeout=00:01:00"));
    assert!(s.contains("Authentication=ManagedIdentity"));
}

#[test]
fn test_shared_access_signature_getter() {
    let mut b = RelayConnectionStringBuilder::new();
    assert!(b.shared_access_signature().is_none());
    b.set_shared_access_signature("sig-token-value");
    assert_eq!(b.shared_access_signature(), Some("sig-token-value"));
}

#[test]
fn test_operation_timeout_getter() {
    let mut b = RelayConnectionStringBuilder::new();
    assert!(b.operation_timeout().is_none());
    b.set_operation_timeout(Duration::from_secs(120));
    assert_eq!(b.operation_timeout(), Some(Duration::from_secs(120)));
}

#[test]
fn test_clear_endpoint_individually() {
    let mut b = RelayConnectionStringBuilder::new();
    b.set_endpoint(Url::parse("sb://ns.servicebus.windows.net").unwrap());
    assert!(b.endpoint().is_some());
    b.clear_endpoint();
    assert!(b.endpoint().is_none());
}

#[test]
fn test_clear_entity_path_individually() {
    let mut b = RelayConnectionStringBuilder::new();
    b.set_entity_path("ep");
    assert_eq!(b.entity_path(), Some("ep"));
    b.clear_entity_path();
    assert!(b.entity_path().is_none());
}

#[test]
fn test_clear_shared_access_key_name_individually() {
    let mut b = RelayConnectionStringBuilder::new();
    b.set_shared_access_key_name("keyname");
    assert_eq!(b.shared_access_key_name(), Some("keyname"));
    b.clear_shared_access_key_name();
    assert!(b.shared_access_key_name().is_none());
}

#[test]
fn test_clear_shared_access_key_individually() {
    let mut b = RelayConnectionStringBuilder::new();
    b.set_shared_access_key("secret");
    assert_eq!(b.shared_access_key(), Some("secret"));
    b.clear_shared_access_key();
    assert!(b.shared_access_key().is_none());
}

#[test]
fn test_clear_shared_access_signature_individually() {
    let mut b = RelayConnectionStringBuilder::new();
    b.set_shared_access_signature("sig");
    assert_eq!(b.shared_access_signature(), Some("sig"));
    b.clear_shared_access_signature();
    assert!(b.shared_access_signature().is_none());
}

#[test]
fn test_clear_operation_timeout_individually() {
    let mut b = RelayConnectionStringBuilder::new();
    b.set_operation_timeout(Duration::from_secs(45));
    assert_eq!(b.operation_timeout(), Some(Duration::from_secs(45)));
    b.clear_operation_timeout();
    assert!(b.operation_timeout().is_none());
}

#[test]
fn test_authentication_type_default_is_none() {
    assert_eq!(AuthenticationType::default(), AuthenticationType::Unset);
}
