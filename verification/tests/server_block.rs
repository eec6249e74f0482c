use stalcraft_jvm_wrapper::server_block::{
    apply_blocks, apply_outcome, blocking_status, clear_rules, is_valid_ipv4, rule_name, rules_script,
    unique_valid_ipv4, RULE_PREFIX,
};

#[test]
fn validates_ipv4() {
    assert!(is_valid_ipv4("1.2.3.4"));
    assert!(!is_valid_ipv4("not-an-ip"));
    assert!(!is_valid_ipv4("::1"));
}

#[test]
fn rule_name_formats_protocol_and_ip() {
    assert_eq!(rule_name("TCP", "1.2.3.4"), "STALZONE-SB-TCP-1-2-3-4");
}

#[test]
fn unique_valid_ipv4_dedups_and_skips_invalid() {
    let ips = vec![
        "1.1.1.1".into(),
        "1.1.1.1".into(),
        "bad".into(),
        " 2.2.2.2 ".into(),
        "".into(),
    ];
    assert_eq!(
        unique_valid_ipv4(&ips),
        vec!["1.1.1.1".to_string(), "2.2.2.2".to_string()]
    );
}

#[test]
fn unique_valid_ipv4_empty_for_all_invalid() {
    assert!(unique_valid_ipv4(&["x".into(), "::1".into()]).is_empty());
}

#[test]
fn apply_blocks_rejects_empty_ip_list() {
    let err = apply_blocks(&[]).err().unwrap();
    assert!(err.contains("No valid IPv4"));
}

// ───── further cases ─────

#[test]
fn ipv4_grammar_edges() {
    assert!(is_valid_ipv4("0.0.0.0"));
    assert!(is_valid_ipv4("255.255.255.255"));
    assert!(!is_valid_ipv4("256.1.1.1"));
    assert!(!is_valid_ipv4("01.1.1.1"));
    assert!(!is_valid_ipv4("1.1.1"));
    assert!(!is_valid_ipv4("1.1.1.1."));
    assert!(!is_valid_ipv4("1.1.1.1.1"));
    assert!(!is_valid_ipv4(" 1.1.1.1"));
    assert!(!is_valid_ipv4("1..1.1"));
    assert!(!is_valid_ipv4("+1.1.1.1"));
    assert!(!is_valid_ipv4("1234.1.1.1"));
}

#[test]
fn dedup_is_idempotent() {
    let ips: Vec<String> = vec![" 9.9.9.9".into(), "8.8.8.8".into(), "9.9.9.9 ".into(), "x".into()];
    let once = unique_valid_ipv4(&ips);
    assert_eq!(once, vec!["9.9.9.9".to_string(), "8.8.8.8".to_string()]);
    assert_eq!(unique_valid_ipv4(&once), once);
}

#[test]
fn apply_plans_tcp_and_udp_rules() {
    let plan = apply_blocks(&["1.2.3.4".to_string(), "bad".to_string()]).ok().unwrap();
    assert_eq!(plan.ips, vec!["1.2.3.4".to_string()]);
    assert_eq!(plan.message, "Blocked 1 IP address(es) on ports 29450–29460");
    assert_eq!(
        plan.script,
        "New-NetFirewallRule -DisplayName 'STALZONE-SB-TCP-1-2-3-4' -Name 'STALZONE-SB-TCP-1-2-3-4' -Direction Outbound -RemoteAddress '1.2.3.4' -Action Block -Protocol TCP -RemotePort 29450-29460 -Enabled True -Profile Any -ErrorAction Stop; New-NetFirewallRule -DisplayName 'STALZONE-SB-UDP-1-2-3-4' -Name 'STALZONE-SB-UDP-1-2-3-4' -Direction Outbound -RemoteAddress '1.2.3.4' -Action Block -Protocol UDP -RemotePort 29450-29460 -Enabled True -Profile Any -ErrorAction Stop"
    );
    let two = rules_script(&vec!["1.1.1.1".to_string(), "2.2.2.2".to_string()]);
    assert_eq!(two.matches("New-NetFirewallRule").count(), 4);
    assert_eq!(RULE_PREFIX, "STALZONE-SB-");
}

#[test]
fn script_output_is_read() {
    assert_eq!(clear_rules(Ok("3".to_string())), Ok(3));
    assert_eq!(clear_rules(Ok("x".to_string())), Err("unexpected output: x".to_string()));
    assert_eq!(clear_rules(Err("boom".to_string())), Err("boom".to_string()));
    let s = blocking_status(Ok("4".to_string())).ok().unwrap();
    assert!(s.active);
    assert_eq!(s.rule_count, 4);
    let s = blocking_status(Ok("".to_string())).ok().unwrap();
    assert!(!s.active);
    assert_eq!(s.rule_count, 0);
    assert!(blocking_status(Err("no".to_string())).is_err());
}

#[test]
fn distinct_addresses_get_distinct_rules() {
    assert_ne!(rule_name("TCP", "1.2.3.4"), rule_name("TCP", "1.2.34.0"));
    assert_ne!(rule_name("UDP", "10.0.0.1"), rule_name("UDP", "100.0.0.1"));
    let order = unique_valid_ipv4(&["3.3.3.3".into(), "1.1.1.1".into(), "3.3.3.3".into(), "2.2.2.2".into()]);
    assert_eq!(order, vec!["3.3.3.3".to_string(), "1.1.1.1".to_string(), "2.2.2.2".to_string()]);
}

#[test]
fn failed_rules_script_rolls_back() {
    let plan = apply_blocks(&["1.2.3.4".to_string(), "5.6.7.8".to_string()]).unwrap();
    let ok = apply_outcome(&plan, Ok(String::new()));
    assert!(!ok.roll_back);
    assert_eq!(ok.result, Ok("Blocked 2 IP address(es) on ports 29450–29460".to_string()));
    let failed = apply_outcome(&plan, Err("Access is denied".to_string()));
    assert!(failed.roll_back);
    assert_eq!(failed.result, Err("Failed to apply firewall rules: Access is denied".to_string()));
}
