use std::time::Duration;

use azbridge::relay::error::RelayError;

#[test]
fn test_communication_variant() {
    let err = RelayError::Communication { message: "connection lost".into() };
    match &err {
        RelayError::Communication { message } => {
            assert_eq!(message, "connection lost");
        }
        _ => panic!("expected Communication variant"),
    }
}

#[test]
fn test_authorization_failed_variant() {
    let err = RelayError::AuthorizationFailed("bad token".into());
    match &err {
        RelayError::AuthorizationFailed(msg) => assert_eq!(msg, "bad token"),
        _ => panic!("expected AuthorizationFailed variant"),
    }
}

#[test]
fn test_endpoint_not_found_variant() {
    let err = RelayError::EndpointNotFound("my-hc".into());
    match &err {
        RelayError::EndpointNotFound(ep) => assert_eq!(ep, "my-hc"),
        _ => panic!("expected EndpointNotFound variant"),
    }
}

#[test]
fn test_invalid_connection_string_variant() {
    let err = RelayError::InvalidConnectionString("missing endpoint".into());
    match &err {
        RelayError::InvalidConnectionString(msg) => assert_eq!(msg, "missing endpoint"),
        _ => panic!("expected InvalidConnectionString variant"),
    }
}

#[test]
fn test_timeout_variant() {
    let dur = Duration::from_secs(30);
    let err = RelayError::Timeout(dur);
    match &err {
        RelayError::Timeout(d) => assert_eq!(*d, dur),
        _ => panic!("expected Timeout variant"),
    }
}

#[test]
fn test_invalid_argument_variant() {
    let err = RelayError::InvalidArgument { name: "port".into(), message: "must be positive".into() };
    match &err {
        RelayError::InvalidArgument { name, message } => {
            assert_eq!(name, "port");
            assert_eq!(message, "must be positive");
        }
        _ => panic!("expected InvalidArgument variant"),
    }
}

#[test]
fn test_io_variant() {
    let io_err = std::io::Error::new(std::io::ErrorKind::BrokenPipe, "pipe broken");
    let err = RelayError::Io(io_err);
    assert!(matches!(&err, RelayError::Io(_)));
}

#[test]
fn test_invalid_argument_helper() {
    let err = RelayError::invalid_argument("host", "cannot be empty");
    match &err {
        RelayError::InvalidArgument { name, message } => {
            assert_eq!(name, "host");
            assert_eq!(message, "cannot be empty");
        }
        _ => panic!("expected InvalidArgument variant"),
    }
}

#[test]
fn test_communication_helper() {
    let err = RelayError::communication("something went wrong");
    match &err {
        RelayError::Communication { message } => {
            assert_eq!(message, "something went wrong");
        }
        _ => panic!("expected Communication variant"),
    }
}

#[test]
fn test_display_communication() {
    let err = RelayError::communication("link down");
    assert_eq!(err.message(), "Relay communication error: link down");
}

#[test]
fn test_display_authorization_failed() {
    let err = RelayError::AuthorizationFailed("expired".into());
    assert_eq!(err.message(), "Authorization failed: expired");
}

#[test]
fn test_display_endpoint_not_found() {
    let err = RelayError::EndpointNotFound("hc1".into());
    assert_eq!(err.message(), "Endpoint not found: hc1");
}

#[test]
fn test_display_invalid_connection_string() {
    let err = RelayError::InvalidConnectionString("bad".into());
    assert_eq!(err.message(), "Invalid connection string: bad");
}

#[test]
fn test_display_timeout() {
    let err = RelayError::Timeout(Duration::from_secs(5));
    assert_eq!(err.message(), "Operation timed out after 5s");
}

#[test]
fn test_display_invalid_argument() {
    let err = RelayError::invalid_argument("port", "negative");
    assert_eq!(err.message(), "Invalid argument 'port': negative");
}

#[test]
fn test_display_io() {
    let io_err = std::io::Error::new(std::io::ErrorKind::NotFound, "file missing");
    let err = RelayError::Io(io_err);
    assert_eq!(err.message(), "file missing");
}

#[test]
fn test_from_io_error() {
    let io_err = std::io::Error::new(std::io::ErrorKind::TimedOut, "timed out");
    let err: RelayError = io_err.into();
    assert!(matches!(err, RelayError::Io(_)));
}

#[test]
fn test_result_type_alias() {
    let ok: Result<i32, RelayError> = Ok(42);
    assert_eq!(ok.unwrap(), 42);

    let fail: Result<i32, RelayError> = Err(RelayError::communication("boom"));
    assert!(fail.is_err());
}

#[test]
fn display_timeout_with_fraction() {
    let err = RelayError::Timeout(Duration::from_millis(1500));
    assert_eq!(err.message(), "Operation timed out after 1.5s");
}
