use clashctl::api::{auth_header, cli_address, debug_log_path, delay_path, endpoint};
use clashctl::clash_types::{Connection, ConnectionMetadata, LogEntry, Rule};
use clashctl::mihomo_party::profile_proxy_count;
use clashctl::session::{
    clamp_selection, connection_matches, log_matches, matches_query, push_log, rule_matches,
    select_next, select_previous, transfer_rate, visible_range, UpdateProgress,
};
use clashctl::synth::{apply_profile, stored_profile, SynthesisError};

fn line(n: usize) -> LogEntry {
    LogEntry { timestamp: "00:00:00".to_string(), level: "INFO".to_string(), message: n.to_string() }
}

#[test]
fn selections_stay_in_the_list() {
    assert_eq!(select_previous(0), 0);
    assert_eq!(select_previous(5), 4);
    assert_eq!(select_next(0, 0), 0);
    assert_eq!(select_next(0, 1), 0);
    assert_eq!(select_next(0, 2), 1);
    assert_eq!(select_next(1, 2), 1);
    assert_eq!(select_next(7, 2), 7);
    assert_eq!(select_next(usize::MAX, usize::MAX), usize::MAX);
    assert_eq!(clamp_selection(3, 0), 0);
    assert_eq!(clamp_selection(3, 2), 1);
    assert_eq!(clamp_selection(1, 2), 1);
}

#[test]
fn the_log_keeps_the_newest_lines() {
    let mut logs = Vec::new();
    for n in 0..1005 {
        push_log(&mut logs, line(n));
    }
    assert_eq!(logs.len(), 1000);
    assert_eq!(logs[0].message, "1004");
    assert_eq!(logs[999].message, "5");
}

#[test]
fn traffic_per_second() {
    assert_eq!(transfer_rate(1000, 6000, 5), 1000);
    assert_eq!(transfer_rate(1000, 1004, 5), 0);
    assert_eq!(transfer_rate(1000, 900, 5), 0);
    assert_eq!(transfer_rate(1000, 6000, 0), 0);
    assert_eq!(transfer_rate(0, u64::MAX, 1), u64::MAX);
}

#[test]
fn one_update() {
    let mut ok = UpdateProgress::started(1);
    assert_eq!(
        ok.finish_item("sub", true, &None).as_deref(),
        Some("Updated sub successfully!")
    );
    assert!(ok.is_done());
    let mut failed = UpdateProgress::started(1);
    assert_eq!(
        failed.finish_item("sub", false, &Some("timeout".to_string())).as_deref(),
        Some("Failed to update sub: timeout")
    );
    let mut unknown = UpdateProgress::started(1);
    assert_eq!(
        unknown.finish_item("sub", false, &None).as_deref(),
        Some("Failed to update sub: Unknown error")
    );
    let mut idle = UpdateProgress::idle();
    assert!(!idle.is_done());
    assert_eq!(idle.finish_item("sub", true, &None), None);
    assert_eq!(idle.in_flight, 0);
    assert_eq!(idle.succeeded, 1);
}

#[test]
fn several_updates() {
    let mut all = UpdateProgress::started(3);
    assert_eq!(all.finish_item("a", true, &None).as_deref(), Some("Updating... (1/3)"));
    assert!(!all.is_done());
    assert_eq!(all.finish_item("b", true, &None).as_deref(), Some("Updating... (2/3)"));
    assert_eq!(
        all.finish_item("c", true, &None).as_deref(),
        Some("All 3 providers updated successfully!")
    );
    assert!(all.is_done());
    let mut mixed = UpdateProgress::started(2);
    assert_eq!(mixed.finish_item("a", false, &None).as_deref(), Some("Updating... (1/2)"));
    assert_eq!(
        mixed.finish_item("b", true, &None).as_deref(),
        Some("Updated: 1 succeeded, 1 failed")
    );
}

#[test]
fn addresses_of_the_control_interface() {
    assert_eq!(cli_address("http://127.0.0.1:9090"), None);
    assert_eq!(cli_address("http://10.0.0.2:9090").as_deref(), Some("http://10.0.0.2:9090"));
    assert_eq!(auth_header(&None), None);
    assert_eq!(auth_header(&Some("s3cret".to_string())).as_deref(), Some("Bearer s3cret"));
    assert_eq!(endpoint("http://h:1", "/configs"), "http://h:1/configs");
    assert_eq!(delay_path("n 1", None, None), "/proxies/n 1/delay");
    assert_eq!(
        delay_path("n1", Some("https://www.google.com"), Some(5000)),
        "/proxies/n1/delay?url=https://www.google.com&timeout=5000"
    );
    assert_eq!(delay_path("n1", Some("u"), None), "/proxies/n1/delay?url=u");
    assert_eq!(delay_path("n1", None, Some(0)), "/proxies/n1/delay?timeout=0");
}

#[test]
fn where_the_trace_goes() {
    assert_eq!(debug_log_path(None, None), None);
    assert_eq!(debug_log_path(Some("/var/log/c.log"), Some("0")).as_deref(), Some("/var/log/c.log"));
    assert_eq!(debug_log_path(Some("  "), None), None);
    assert_eq!(debug_log_path(Some(""), Some("YES")).as_deref(), Some("/tmp/clashctl-debug.log"));
    assert_eq!(debug_log_path(None, Some("1")).as_deref(), Some("/tmp/clashctl-debug.log"));
    assert_eq!(debug_log_path(None, Some("True")).as_deref(), Some("/tmp/clashctl-debug.log"));
    assert_eq!(debug_log_path(None, Some("on")), None);
    assert_eq!(debug_log_path(None, Some("")), None);
}

#[test]
fn a_full_configuration_is_applied_as_it_is() {
    let payload = b"proxies: []\nrules: []\n# ss://a:b@h:1\n";
    let applied = apply_profile(payload, b"mixed-port: 1\n").unwrap();
    assert_eq!(applied.content, payload);
    assert_eq!(applied.proxies, None);
    assert_eq!(stored_profile(payload, Some(b"mixed-port: 1\n")), payload);
    assert_eq!(stored_profile(payload, None), payload);
}

#[test]
fn a_list_of_links_is_installed_in_the_base() {
    let payload = b"ss://a:b@h:1#one\nvless://id@h:2#two\n";
    let applied = apply_profile(payload, b"mixed-port: 1\n").unwrap();
    assert_eq!(applied.proxies, Some(2));
    let doc: serde_yaml::Value = serde_yaml::from_slice(&applied.content).unwrap();
    assert_eq!(doc["mixed-port"], serde_yaml::Value::from(1));
    assert_eq!(doc["proxies"].as_sequence().unwrap().len(), 2);
    assert_eq!(stored_profile(payload, Some(b"mixed-port: 1\n")), applied.content);
    assert_eq!(stored_profile(payload, None), payload);
}

#[test]
fn a_payload_that_is_neither_stays_as_it_came() {
    let payload = b"<html>not found</html>";
    let err = apply_profile(payload, b"mixed-port: 1\n").unwrap_err();
    assert!(matches!(err, SynthesisError::NoSupportedEntries));
    assert_eq!(stored_profile(payload, Some(b"mixed-port: 1\n")), payload);
}

#[test]
fn the_rows_that_are_shown() {
    assert_eq!(visible_range(0, 0, 10), (0, 0));
    assert_eq!(visible_range(3, 5, 10), (0, 5));
    assert_eq!(visible_range(3, 5, 5), (0, 5));
    assert_eq!(visible_range(0, 20, 5), (0, 5));
    assert_eq!(visible_range(4, 20, 5), (0, 5));
    assert_eq!(visible_range(5, 20, 5), (1, 6));
    assert_eq!(visible_range(19, 20, 5), (15, 20));
    assert_eq!(visible_range(99, 20, 5), (15, 20));
    assert_eq!(visible_range(7, 20, 0), (0, 20));
    assert_eq!(visible_range(7, 20, 1), (7, 8));
    assert_eq!(visible_range(usize::MAX, usize::MAX, 1), (usize::MAX - 1, usize::MAX));
}

#[test]
fn searches_pass_over_the_case_of_letters() {
    assert!(matches_query("DOMAIN-SUFFIX,Google.com", "google"));
    assert!(matches_query("DOMAIN-SUFFIX,google.com", "GOOGLE.COM"));
    assert!(matches_query("anything", ""));
    assert!(matches_query("", ""));
    assert!(!matches_query("", "x"));
    assert!(!matches_query("google", "googles"));
    let rule = Rule {
        rule_type: "DOMAIN-SUFFIX".to_string(),
        payload: "example.org".to_string(),
        proxy: "Auto".to_string(),
    };
    assert!(rule_matches(&rule, "suffix"));
    assert!(rule_matches(&rule, "EXAMPLE"));
    assert!(rule_matches(&rule, "auto"));
    assert!(!rule_matches(&rule, "direct"));
    assert!(log_matches(&line(42), "42"));
    assert!(!log_matches(&line(42), "info"));
    let connection = Connection {
        id: "1".to_string(),
        metadata: ConnectionMetadata {
            network: "tcp".to_string(),
            conn_type: "HTTPS".to_string(),
            source_ip: "192.168.1.2".to_string(),
            destination_ip: "93.184.216.34".to_string(),
            source_port: "50000".to_string(),
            destination_port: "443".to_string(),
            host: Some("Example.com".to_string()),
            dns_mode: None,
            process_path: None,
        },
        upload: 1,
        download: 2,
        start: "now".to_string(),
        chains: vec!["Tokyo 01".to_string(), "Auto".to_string()],
        rule: "Match".to_string(),
        rule_payload: None,
    };
    assert!(connection_matches(&connection, "example"));
    assert!(connection_matches(&connection, "93.184"));
    assert!(connection_matches(&connection, "match"));
    assert!(connection_matches(&connection, "tokyo"));
    assert!(connection_matches(&connection, ""));
    assert!(!connection_matches(&connection, "192.168"));
    assert!(!connection_matches(&connection, "https"));
}

#[test]
fn proxies_of_a_profile_of_either_kind() {
    assert_eq!(profile_proxy_count(b"proxies:\n  - {name: a}\n"), 1);
    assert_eq!(profile_proxy_count(b"ss://a:b@h:1#one\ntrojan://pw@h:3#three\njunk\n"), 2);
    assert_eq!(profile_proxy_count(b"rules: []\n"), 0);
    assert_eq!(profile_proxy_count(b""), 0);
}
