use monitor_server::errors::SystemError;
use monitor_server::logging::LogLevel;
use monitor_server::services::{is_active_output, service_report};
use monitor_server::text::{lines, parse_i64, parse_u64, trim, trim_quotes, words};

#[test]
fn lines_follow_str_lines() {
    assert_eq!(lines("a\r\nb\n\nc\r"), vec!["a", "b", "", "c\r"]);
    assert_eq!(lines("a\n"), vec!["a"]);
    assert!(lines("").is_empty());
}

#[test]
fn words_follow_split_whitespace() {
    assert_eq!(words("  a \t b\u{00a0}c  "), vec!["a", "b", "c"]);
    assert!(words(" \n ").is_empty());
}

#[test]
fn trimming() {
    assert_eq!(trim(" \u{3000}x y\n"), "x y");
    assert_eq!(trim_quotes("\"\"a\"b\""), "a\"b");
    assert_eq!(trim_quotes("\"\""), "");
}

#[test]
fn decimal_numbers() {
    assert_eq!(parse_u64("+42"), Some(42));
    assert_eq!(parse_u64("18446744073709551615"), Some(u64::MAX));
    assert_eq!(parse_u64("18446744073709551616"), None);
    assert_eq!(parse_u64("-1"), None);
    assert_eq!(parse_u64("+"), None);
    assert_eq!(parse_i64("-9223372036854775808"), Some(i64::MIN));
    assert_eq!(parse_i64("9223372036854775808"), None);
    assert_eq!(parse_i64("-"), None);
}

#[test]
fn service_manager_output() {
    assert!(is_active_output("active\n"));
    assert!(!is_active_output("inactive"));
    assert!(!is_active_output("Active"));
    let r = service_report("ssh", true);
    assert!(r.active);
    assert_eq!(r.body, "Service 'ssh' is active");
    assert_eq!(service_report("ssh", false).body, "Service 'ssh' is not active");
}

#[test]
fn log_level_names() {
    assert_eq!(LogLevel::from_name("DEBUG"), LogLevel::Debug);
    assert_eq!(LogLevel::from_name("Warn"), LogLevel::Warn);
    assert_eq!(LogLevel::from_name("error"), LogLevel::Error);
    assert_eq!(LogLevel::from_name("verbose"), LogLevel::Info);
}

#[test]
fn source_failure_messages() {
    assert_eq!(
        SystemError::MemoryInfoUnavailable.message(),
        "Failed to retrieve memory information."
    );
    assert_eq!(SystemError::DockerConnectionFailed.message(), "Failed to connect to Docker.");
    assert_eq!(
        SystemError::UptimeUnavailable.message(),
        "Failed to retrieve uptime information."
    );
}
