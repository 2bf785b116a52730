use ferrugem::log_level::TraceLevel;
use ferrugem::LogLevel;

#[test]
fn reads_every_level_from_its_name() {
    assert_eq!(LogLevel::from_str("none"), Ok(LogLevel::Off));
    assert_eq!(LogLevel::from_str("debug"), Ok(LogLevel::Debug));
    assert_eq!(LogLevel::from_str("error"), Ok(LogLevel::Error));
    assert_eq!(LogLevel::from_str("info"), Ok(LogLevel::Info));
    assert_eq!(LogLevel::from_str("trace"), Ok(LogLevel::Trace));
}

#[test]
fn reads_names_in_any_case() {
    assert_eq!(LogLevel::from_str("INFO"), Ok(LogLevel::Info));
    assert_eq!(LogLevel::from_str("TrAcE"), Ok(LogLevel::Trace));
    assert_eq!(LogLevel::from_str("None"), Ok(LogLevel::Off));
}

#[test]
fn refuses_unknown_names() {
    assert_eq!(LogLevel::from_str("warn"), Err("Invalid log level"));
    assert_eq!(LogLevel::from_str(""), Err("Invalid log level"));
    assert_eq!(LogLevel::from_str(" info"), Err("Invalid log level"));
}

#[test]
fn lowercase_reader_is_case_sensitive() {
    assert_eq!(LogLevel::from_lowercase("info"), Ok(LogLevel::Info));
    assert_eq!(LogLevel::from_lowercase("INFO"), Err("Invalid log level"));
}

#[test]
fn names_every_level() {
    assert_eq!(LogLevel::Off.to_string(), "none");
    assert_eq!(LogLevel::Debug.to_string(), "debug");
    assert_eq!(LogLevel::Error.to_string(), "error");
    assert_eq!(LogLevel::Info.to_string(), "info");
    assert_eq!(LogLevel::Trace.to_string(), "trace");
}

#[test]
fn every_name_reads_back() {
    for level in [LogLevel::Off, LogLevel::Debug, LogLevel::Error, LogLevel::Info, LogLevel::Trace] {
        assert_eq!(LogLevel::from_str(&level.to_string()), Ok(level));
    }
}

#[test]
fn maps_levels_to_thresholds() {
    assert_eq!(LogLevel::Off.to_tracing_level(), TraceLevel::Debug);
    assert_eq!(LogLevel::Debug.to_tracing_level(), TraceLevel::Debug);
    assert_eq!(LogLevel::Error.to_tracing_level(), TraceLevel::Error);
    assert_eq!(LogLevel::Info.to_tracing_level(), TraceLevel::Info);
    assert_eq!(LogLevel::Trace.to_tracing_level(), TraceLevel::Trace);
}
