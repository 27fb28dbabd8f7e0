use ssh_picker::config::{parse_hosts, ConfigError, SshHost};
use ssh_picker::locate::config_path;
use ssh_picker::present::{format_host, host_items, list_lines, select_host};
use ssh_picker::text::{chars_of, parse_u16, trim_range};

fn scenario() -> Vec<SshHost> {
    let text = "# comment\nHost alpha\n  HostName 10.0.0.1\n  User root\n  Port 2222\nHost beta\n  HostName 10.0.0.2\n";
    parse_hosts(text).unwrap()
}

#[test]
fn list_mode_lines() {
    let lines = list_lines(&scenario());
    assert_eq!(lines, vec!["1. alpha (root@10.0.0.1:2222)".to_string(), "2. beta (?@10.0.0.2:22)".to_string()]);
}

#[test]
fn list_numbers_past_nine() {
    let mut text = String::new();
    for i in 0..12 {
        text.push_str(&format!("Host h{}\n", i));
    }
    let lines = list_lines(&parse_hosts(&text).unwrap());
    assert_eq!(lines[9], "10. h9 (?@?:22)");
    assert_eq!(lines[11], "12. h11 (?@?:22)");
}

#[test]
fn label_of_unset_attributes() {
    let h = SshHost { name: "x".to_string(), hostname: None, user: None, port: None };
    assert_eq!(format_host(&h), "x (?@?:22)");
    let h = SshHost { name: "y".to_string(), hostname: Some("h".to_string()), user: Some("u".to_string()), port: Some(0) };
    assert_eq!(format_host(&h), "y (u@h:0)");
    let h = SshHost { name: "z".to_string(), hostname: None, user: None, port: Some(65535) };
    assert_eq!(format_host(&h), "z (?@?:65535)");
}

#[test]
fn selection_items_are_labels() {
    let items = host_items(&scenario());
    assert_eq!(items, vec!["alpha (root@10.0.0.1:2222)".to_string(), "beta (?@10.0.0.2:22)".to_string()]);
}

#[test]
fn select_index_zero_is_first() {
    let hosts = scenario();
    let chosen = select_host(&hosts, 0).unwrap();
    assert_eq!(chosen.name, "alpha");
    assert_eq!(select_host(&hosts, 1).unwrap().name, "beta");
}

#[test]
fn select_errors() {
    let empty: Vec<SshHost> = Vec::new();
    assert_eq!(select_host(&empty, 0).unwrap_err(), ConfigError::NoHostsAvailable);
    assert_eq!(select_host(&scenario(), 2).unwrap_err(), ConfigError::SelectionFailed);
}

#[test]
fn explicit_config_path_verbatim() {
    let p = config_path(Some("~/my config".to_string()), Some("/home/u".to_string())).unwrap();
    assert_eq!(p, "~/my config");
}

#[test]
fn default_config_path_under_home() {
    assert_eq!(config_path(None, Some("/home/u".to_string())).unwrap(), "/home/u/.ssh/config");
}

#[test]
fn missing_home_fails() {
    assert_eq!(config_path(None, None).unwrap_err(), ConfigError::MissingEnvironment);
}

#[test]
fn parse_u16_cases() {
    let cs = chars_of("x 8080 +1 + 0065535 65536 abc");
    assert_eq!(parse_u16(&cs, 2, 6), Some(8080));
    assert_eq!(parse_u16(&cs, 7, 9), Some(1));
    assert_eq!(parse_u16(&cs, 10, 11), None);
    assert_eq!(parse_u16(&cs, 12, 19), Some(65535));
    assert_eq!(parse_u16(&cs, 20, 25), None);
    assert_eq!(parse_u16(&cs, 26, 29), None);
    assert_eq!(parse_u16(&cs, 0, 0), None);
}

#[test]
fn trim_range_bounds() {
    let cs = chars_of("  ab c \t");
    assert_eq!(trim_range(&cs, 0, cs.len()), (2, 6));
    assert_eq!(trim_range(&cs, 0, 2), (2, 2));
}
