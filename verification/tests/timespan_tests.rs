use std::time::Duration;

use azbridge::relay::connection_string::{AuthenticationType, RelayConnectionStringBuilder};
use azbridge::relay::error::RelayError;
use azbridge::relay::timespan::{format_hms, read_timespan, TimespanText};

fn to_duration(t: TimespanText) -> Result<Duration, RelayError> {
    match t {
        TimespanText::Seconds(s) => {
            let secs: f64 = s.parse().unwrap();
            if secs < 0.0 {
                return Err(RelayError::InvalidConnectionString(format!(
                    "OperationTimeout cannot be negative: '{s}'"
                )));
            }
            Ok(Duration::from_secs_f64(secs))
        }
        TimespanText::Clock { whole_secs, fraction } => {
            let frac: f64 = match fraction {
                Some(f) => format!("0.{f}").parse().unwrap(),
                None => 0.0,
            };
            Ok(Duration::from_secs(whole_secs) + Duration::from_secs_f64(frac))
        }
    }
}

fn parse_timespan(s: &str) -> Result<Duration, RelayError> {
    read_timespan(s).and_then(to_duration)
}

#[test]
fn test_parse_timespan_hms() {
    assert_eq!(parse_timespan("01:30:00").unwrap(), Duration::from_secs(5400));
}

#[test]
fn test_parse_timespan_with_days() {
    assert_eq!(
        parse_timespan("1.02:03:04").unwrap(),
        Duration::from_secs(86400 + 7200 + 180 + 4)
    );
}

#[test]
fn test_parse_timespan_float_seconds() {
    let d = parse_timespan("1.5").unwrap();
    assert_eq!(d, Duration::from_secs_f64(1.5));
}

#[test]
fn test_format_timespan_round_trip() {
    let d = Duration::from_secs(3661);
    let s = format_hms(d.as_secs());
    assert_eq!(s, "01:01:01");
    let d2 = parse_timespan(&s).unwrap();
    assert_eq!(d, d2);
}

#[test]
fn timespan_readings() {
    assert!(matches!(read_timespan(" 42 "), Ok(TimespanText::Seconds(s)) if s == "42"));
    assert!(matches!(read_timespan("1e3"), Ok(TimespanText::Seconds(_))));
    assert!(matches!(read_timespan("-Infinity"), Err(RelayError::InvalidConnectionString(_))));
    match read_timespan("00:00:01.25").unwrap() {
        TimespanText::Clock { whole_secs, fraction } => {
            assert_eq!(whole_secs, 1);
            assert_eq!(fraction.as_deref(), Some("25"));
        }
        _ => panic!("a clock reading"),
    }
}

#[test]
fn timespan_errors() {
    let msg = |s: &str| match read_timespan(s) {
        Err(RelayError::InvalidConnectionString(m)) => m,
        _ => panic!("expected an error for {s}"),
    };
    assert_eq!(msg("x.01:00:00"), "Invalid OperationTimeout format: 'x.01:00:00'");
    assert_eq!(msg("01:00"), "Invalid OperationTimeout format (expected hh:mm:ss): '01:00'");
    assert_eq!(msg("aa:00:00"), "Invalid hours in OperationTimeout: 'aa:00:00'");
    assert_eq!(msg("00:bb:00"), "Invalid minutes in OperationTimeout: '00:bb:00'");
    assert_eq!(msg("00:00:cc"), "Invalid seconds in OperationTimeout: '00:00:cc'");
    assert_eq!(msg("00:00:01.x"), "Invalid fractional seconds in OperationTimeout: '00:00:01.x'");
}

#[test]
fn format_hms_pads_and_keeps_long_hours() {
    assert_eq!(format_hms(0), "00:00:00");
    assert_eq!(format_hms(59), "00:00:59");
    assert_eq!(format_hms(360000), "100:00:00");
}

#[test]
fn connection_string_reads_all_keys() {
    let cs = "Endpoint=sb://ns.servicebus.windows.net/;EntityPath=hc1;SharedAccessKeyName=policy;SharedAccessKey=secret=;OperationTimeout=00:01:00;Authentication=Managed Identity";
    let b = RelayConnectionStringBuilder::from_connection_string(cs, to_duration).unwrap();
    assert_eq!(b.endpoint().unwrap().as_str(), "sb://ns.servicebus.windows.net/");
    assert_eq!(b.entity_path(), Some("hc1"));
    assert_eq!(b.shared_access_key_name(), Some("policy"));
    assert_eq!(b.shared_access_key(), Some("secret="));
    assert_eq!(b.operation_timeout(), Some(Duration::from_secs(60)));
    assert_eq!(*b.authentication(), AuthenticationType::ManagedIdentity);
}

#[test]
fn connection_string_case_and_blank_parts() {
    let cs = " endpoint = sb://ns/ ;; ENTITYPATH=ep;";
    let b = RelayConnectionStringBuilder::from_connection_string(cs, to_duration).unwrap();
    assert!(b.endpoint().is_some());
    assert_eq!(b.entity_path(), Some("ep"));
    let b = RelayConnectionStringBuilder::from_connection_string("EntityPath=a;EntityPath=b", to_duration)
        .unwrap();
    assert_eq!(b.entity_path(), Some("b"));
}

#[test]
fn connection_string_errors() {
    let err = |cs: &str| match RelayConnectionStringBuilder::from_connection_string(cs, to_duration) {
        Err(RelayError::InvalidConnectionString(m)) => m,
        _ => panic!("expected an error for {cs}"),
    };
    assert_eq!(err("Endpoint"), "Key-value pair missing '=' delimiter: 'Endpoint'");
    assert_eq!(err("EntityPath= "), "Empty value for key 'EntityPath'");
    assert_eq!(err("Foo=bar"), "Unknown key 'Foo'");
    assert!(err("Endpoint=not a url").starts_with("Invalid Endpoint URI 'not a url': "));
    assert_eq!(err("OperationTimeout=-5"), "OperationTimeout cannot be negative: '-5'");
    assert_eq!(err("OperationTimeout=1:2"), "Invalid OperationTimeout format (expected hh:mm:ss): '1:2'");
}

#[test]
fn timespan_refuses_negative_and_non_finite() {
    for s in ["-5", "-0.5", "inf", "NaN", "+Infinity", "not_a_time", "1:2"] {
        match read_timespan(s) {
            Err(RelayError::InvalidConnectionString(_)) => {}
            _ => panic!("{s} should be refused"),
        }
    }
    match read_timespan("-5") {
        Err(RelayError::InvalidConnectionString(m)) => {
            assert_eq!(m, "OperationTimeout cannot be negative: '-5'")
        }
        _ => panic!(),
    }
    assert!(matches!(read_timespan("1e3"), Ok(TimespanText::Seconds(t)) if t == "1e3"));
}

#[test]
fn timespan_negative_zero_is_zero_seconds() {
    for s in ["-0", "-0.0", " -00.000e5 ", "-.0"] {
        match read_timespan(s) {
            Ok(TimespanText::Seconds(t)) => assert_eq!(t, s.trim()),
            _ => panic!("{s} reads as zero seconds"),
        }
    }
    match read_timespan("-0.01") {
        Err(RelayError::InvalidConnectionString(m)) => {
            assert_eq!(m, "OperationTimeout cannot be negative: '-0.01'")
        }
        _ => panic!("-0.01 is negative"),
    }
}
