use std::time::Duration;

use azbridge::relay::connection_string::{AuthenticationType, RelayConnectionStringBuilder};
use azbridge::relay::error::RelayError;
use azbridge::relay::timespan::{format_hms, TimespanText};

fn to_duration(t: TimespanText) -> Result<Duration, RelayError> {
    match t {
        TimespanText::Seconds(s) => {
            let secs: f64 = s.parse().unwrap();
            if secs < 0.0 {
                return Err(RelayError::InvalidConnectionString(format!(
                    "OperationTimeout cannot be negative: '{s}'"
                )));
            }
            Ok(Duration::from_secs_f64(secs))
        }
        TimespanText::Clock { whole_secs, fraction } => {
            let frac: f64 = match fraction {
                Some(f) => format!("0.{f}").parse().unwrap(),
                None => 0.0,
            };
            Ok(Duration::from_secs(whole_secs) + Duration::from_secs_f64(frac))
        }
    }
}

fn timeout_text(d: Duration) -> String {
    format_hms(d.as_secs())
}
#[test]
fn connection_string_builder_operation_validation() {
    // 1. Build via properties, verify ToString output contains each field
    let mut builder = RelayConnectionStringBuilder::new();
    builder.set_endpoint("sb://contoso.servicebus.windows.net".parse().unwrap());
    builder.set_entity_path("hybrid1");
    builder.set_shared_access_key_name("keyName");
    builder.set_shared_access_key("key123");
    let cs = builder.to_connection_string(timeout_text);
    assert!(cs.contains("Endpoint=sb://contoso.servicebus.windows.net"));
    assert!(cs.contains("EntityPath=hybrid1"));
    assert!(cs.contains("SharedAccessKeyName=keyName"));
    assert!(cs.contains("SharedAccessKey=key123"));

    // 2. SAS key name alone (without key) should fail validation
    let mut builder2 = RelayConnectionStringBuilder::new();
    builder2.set_shared_access_key_name("keyName");
    assert!(builder2.validate().is_err());

    // 3. SAS key alone (without key name) should fail validation
    let mut builder3 = RelayConnectionStringBuilder::new();
    builder3.set_shared_access_key("key123");
    assert!(builder3.validate().is_err());

    // 4. SAS signature cannot coexist with SAS key
    let mut builder4 = RelayConnectionStringBuilder::new();
    builder4.set_shared_access_key_name("keyName");
    builder4.set_shared_access_key("key123");
    builder4.set_shared_access_signature(
        "SharedAccessSignature sr=foo&sig=bar&se=99999999999&skn=key",
    );
    assert!(builder4.validate().is_err());
}

#[test]
fn create_connection_string_builder_from_connection_string() {
    let original = "Endpoint=sb://contoso.servicebus.windows.net;\
                    EntityPath=hybrid1;\
                    SharedAccessKeyName=keyName;\
                    SharedAccessKey=key123";
    let builder = RelayConnectionStringBuilder::from_connection_string(original, to_duration).unwrap();

    // Verify all properties parsed correctly
    // Note: url::Url does not add a trailing slash for non-special schemes like sb://
    assert_eq!(
        builder.endpoint().unwrap().as_str(),
        "sb://contoso.servicebus.windows.net"
    );
    assert_eq!(builder.entity_path(), Some("hybrid1"));
    assert_eq!(builder.shared_access_key_name(), Some("keyName"));
    assert_eq!(builder.shared_access_key(), Some("key123"));

    // Round-trip: serialize back and parse again
    let cs = builder.to_connection_string(timeout_text);
    let builder2 = RelayConnectionStringBuilder::from_connection_string(&cs, to_duration).unwrap();
    assert_eq!(builder.endpoint(), builder2.endpoint());
    assert_eq!(builder.entity_path(), builder2.entity_path());
    assert_eq!(
        builder.shared_access_key_name(),
        builder2.shared_access_key_name()
    );
    assert_eq!(builder.shared_access_key(), builder2.shared_access_key());
}

#[test]
fn managed_identity_connection_string() {
    // "Managed Identity" (with space)
    let cs1 = "Endpoint=sb://contoso.servicebus.windows.net;Authentication=Managed Identity";
    let b1 = RelayConnectionStringBuilder::from_connection_string(cs1, to_duration).unwrap();
    assert_eq!(b1.authentication(), &AuthenticationType::ManagedIdentity);

    // "ManagedIdentity" (no space)
    let cs2 = "Endpoint=sb://contoso.servicebus.windows.net;Authentication=ManagedIdentity";
    let b2 = RelayConnectionStringBuilder::from_connection_string(cs2, to_duration).unwrap();
    assert_eq!(b2.authentication(), &AuthenticationType::ManagedIdentity);

    // Managed identity with SAS credentials should fail validation
    let cs3 = "Endpoint=sb://contoso.servicebus.windows.net;\
               Authentication=Managed Identity;\
               SharedAccessKeyName=key;\
               SharedAccessKey=value";
    let b3 = RelayConnectionStringBuilder::from_connection_string(cs3, to_duration).unwrap();
    assert!(b3.validate().is_err());

    // "Garbage" -> Other
    let cs4 = "Endpoint=sb://contoso.servicebus.windows.net;Authentication=Garbage";
    let b4 = RelayConnectionStringBuilder::from_connection_string(cs4, to_duration).unwrap();
    assert_eq!(b4.authentication(), &AuthenticationType::Other);
}

#[test]
fn relay_connection_string_builder_validation() {
    // Malformed pair (no '=' delimiter)
    assert!(RelayConnectionStringBuilder::from_connection_string("noequals", to_duration).is_err());
    // Non-absolute URI endpoint
    assert!(RelayConnectionStringBuilder::from_connection_string("Endpoint=not-a-uri", to_duration).is_err());
    // Unknown key
    assert!(RelayConnectionStringBuilder::from_connection_string("Endpoint=sb://test.servicebus.windows.net;NOT_A_KEY=value", to_duration)
    .is_err());
    // Empty value
    assert!(RelayConnectionStringBuilder::from_connection_string("Endpoint=", to_duration).is_err());
    // Invalid operation timeout
    assert!(RelayConnectionStringBuilder::from_connection_string("Endpoint=sb://test.servicebus.windows.net;OperationTimeout=not_a_time", to_duration)
    .is_err());
    // Valid edge cases should succeed
    assert!(
        RelayConnectionStringBuilder::from_connection_string("Endpoint=sb://test.servicebus.windows.net", to_duration)
        .is_ok()
    );
    assert!(RelayConnectionStringBuilder::from_connection_string("Endpoint=sb://test.servicebus.windows.net;EntityPath=hyco", to_duration)
    .is_ok());
}

#[test]
fn client_validation() {
    // Missing EntityPath — not an error at builder level
    let builder = RelayConnectionStringBuilder::from_connection_string("Endpoint=sb://test.servicebus.windows.net;\
         SharedAccessKeyName=key;\
         SharedAccessKey=value", to_duration)
    .unwrap();
    assert!(builder.validate().is_ok());
    assert!(builder.entity_path().is_none());

    // Duplicate EntityPath (in connection string AND separately set) — builder stores latest
    let mut builder = RelayConnectionStringBuilder::from_connection_string("Endpoint=sb://test.servicebus.windows.net;EntityPath=one", to_duration)
    .unwrap();
    builder.set_entity_path("two");
    assert_eq!(builder.entity_path(), Some("two"));

    // SAS key without key name fails validation
    let builder = RelayConnectionStringBuilder::from_connection_string("Endpoint=sb://test.servicebus.windows.net;SharedAccessKey=value", to_duration)
    .unwrap();
    assert!(builder.validate().is_err());
}

#[test]
fn listener_validation() {
    // SAS key name without SAS key fails validation
    let builder = RelayConnectionStringBuilder::from_connection_string("Endpoint=sb://test.servicebus.windows.net;SharedAccessKeyName=key", to_duration)
    .unwrap();
    assert!(builder.validate().is_err());

    // Valid: full SAS credentials
    let builder = RelayConnectionStringBuilder::from_connection_string("Endpoint=sb://test.servicebus.windows.net;\
         SharedAccessKeyName=key;\
         SharedAccessKey=value", to_duration)
    .unwrap();
    assert!(builder.validate().is_ok());

    // Valid: signature only
    let builder = RelayConnectionStringBuilder::from_connection_string("Endpoint=sb://test.servicebus.windows.net;\
         SharedAccessSignature=SharedAccessSignature sr=foo&sig=bar&se=99999999999&skn=key", to_duration)
    .unwrap();
    assert!(builder.validate().is_ok());
}

#[test]
fn written_connection_string_with_whole_second_timeout_reads_back() {
    let mut builder = RelayConnectionStringBuilder::new();
    builder.set_endpoint("sb://contoso.servicebus.windows.net/".parse().unwrap());
    builder.set_entity_path("hybrid1");
    builder.set_shared_access_key_name("keyName");
    builder.set_shared_access_key("key123");
    builder.set_operation_timeout(Duration::from_secs(90061));
    builder.set_authentication(AuthenticationType::ManagedIdentity);
    let cs = builder.to_connection_string(timeout_text);
    assert!(cs.contains("OperationTimeout=25:01:01"));
    let back = RelayConnectionStringBuilder::from_connection_string(&cs, to_duration).unwrap();
    assert_eq!(back.endpoint(), builder.endpoint());
    assert_eq!(back.entity_path(), Some("hybrid1"));
    assert_eq!(back.shared_access_key_name(), Some("keyName"));
    assert_eq!(back.shared_access_key(), Some("key123"));
    assert_eq!(back.operation_timeout(), Some(Duration::from_secs(90061)));
    assert_eq!(*back.authentication(), AuthenticationType::ManagedIdentity);
}
