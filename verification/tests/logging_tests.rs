use azbridge::logging::{is_quiet, parse_log_level, LogLevel};

#[test]
fn parse_log_level_quiet() {
    assert_eq!(parse_log_level("QUIET"), LogLevel::Error);
    assert_eq!(parse_log_level("NONE"), LogLevel::Error);
    assert_eq!(parse_log_level("quiet"), LogLevel::Error);
}

#[test]
fn parse_log_level_error() {
    assert_eq!(parse_log_level("ERROR"), LogLevel::Error);
    assert_eq!(parse_log_level("FATAL"), LogLevel::Error);
}

#[test]
fn parse_log_level_info() {
    assert_eq!(parse_log_level("INFO"), LogLevel::Info);
}

#[test]
fn parse_log_level_verbose() {
    assert_eq!(parse_log_level("VERBOSE"), LogLevel::Debug);
}

#[test]
fn parse_log_level_debug_variants() {
    assert_eq!(parse_log_level("DEBUG"), LogLevel::Trace);
    assert_eq!(parse_log_level("DEBUG1"), LogLevel::Trace);
    assert_eq!(parse_log_level("DEBUG2"), LogLevel::Trace);
    assert_eq!(parse_log_level("DEBUG3"), LogLevel::Trace);
}

#[test]
fn parse_log_level_unknown_defaults_to_info() {
    assert_eq!(parse_log_level("GARBAGE"), LogLevel::Info);
    assert_eq!(parse_log_level(""), LogLevel::Info);
}

#[test]
fn is_quiet_checks() {
    assert!(is_quiet("QUIET"));
    assert!(is_quiet("NONE"));
    assert!(is_quiet("quiet"));
    assert!(!is_quiet("INFO"));
    assert!(!is_quiet("ERROR"));
}

#[test]
fn parse_log_level_warning_and_mixed_case() {
    assert_eq!(parse_log_level("warning"), LogLevel::Info);
    assert_eq!(parse_log_level("Info"), LogLevel::Info);
}

#[test]
fn quiet_level_selects_errors_only() {
    for name in ["QUIET", "none", "Quiet"] {
        assert!(is_quiet(name));
        assert_eq!(parse_log_level(name), LogLevel::Error);
    }
}
