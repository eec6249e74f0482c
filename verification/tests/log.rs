use stalcraft_jvm_wrapper::log::{
    format_log_line, log_tail, redact_path, should_truncate_log, wrapper_log_path, MAX_LOG_BYTES,
};
use stalcraft_jvm_wrapper::paths::HostEnv;

#[test]
fn redact_user_path() {
    let p = r"C:\Users\Vasya\Games\stalcraft\stalcraft.exe";
    assert_eq!(
        redact_path(p),
        r"C:\Users\<user>\Games\stalcraft\stalcraft.exe"
    );
}

// ───── further cases ─────

#[test]
fn redact_edge_cases() {
    assert_eq!(redact_path(""), "");
    assert_eq!(redact_path(r"D:\Games\stalcraft.exe"), r"D:\Games\stalcraft.exe");
    assert_eq!(redact_path(r"c:\users\Petya"), r"c:\users\<user>");
    assert_eq!(redact_path(r"C:\Users\"), r"C:\Users\");
    assert_eq!(redact_path(r"C:\USERS\Ann\x"), r"C:\USERS\<user>\x");
}

#[test]
fn log_line_format_and_limit() {
    assert_eq!(format_log_line(1700000000, "hello"), "[1700000000] hello");
    assert_eq!(MAX_LOG_BYTES, 2 * 1024 * 1024);
    assert!(!should_truncate_log(MAX_LOG_BYTES));
    assert!(should_truncate_log(MAX_LOG_BYTES + 1));
}

#[test]
fn log_tail_keeps_last_nonempty_lines() {
    let data = "a\r\nb\n\nc\nd\n";
    assert_eq!(log_tail(data, 2), "c\nd");
    assert_eq!(log_tail(data, 0), "d");
    assert_eq!(log_tail(data, 10), "a\nb\nc\nd");
    assert_eq!(log_tail("", 5), "");
    assert_eq!(log_tail("x", 5), "x");
}

#[test]
fn log_file_under_wrapper_home() {
    let env = HostEnv { appdata: None, exe_dir: Some(r"D:\w".to_string()) };
    assert_eq!(wrapper_log_path(&env), r"D:\w\logs\wrapper.log");
}

#[test]
fn appended_line_is_last_in_tail() {
    let mut data = String::from("[1] first\r\n\n[2] second\n");
    let line = format_log_line(3, "third entry");
    data.push_str(&line);
    data.push('\n');
    assert_eq!(log_tail(&data, 1), "[3] third entry");
    assert!(log_tail(&data, 500).ends_with(&line));
    assert_eq!(log_tail(&data, 500), "[1] first\n[2] second\n[3] third entry");
}
