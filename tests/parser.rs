use ssh_picker::config::{parse_hosts, ConfigError, SshHost};

fn host(name: &str, hostname: Option<&str>, user: Option<&str>, port: Option<u16>) -> SshHost {
    SshHost {
        name: name.to_string(),
        hostname: hostname.map(|s| s.to_string()),
        user: user.map(|s| s.to_string()),
        port,
    }
}

fn same(a: &SshHost, b: &SshHost) -> bool {
    a.name == b.name && a.hostname == b.hostname && a.user == b.user && a.port == b.port
}

fn assert_hosts(got: &[SshHost], want: &[SshHost]) {
    assert_eq!(got.len(), want.len(), "got {:?}", got);
    for (g, w) in got.iter().zip(want.iter()) {
        assert!(same(g, w), "got {:?}, want {:?}", g, w);
    }
}

#[test]
fn no_host_lines_fails() {
    let text = "# only comments\n\nHostName 10.0.0.1\nUser root\n";
    assert_eq!(parse_hosts(text).unwrap_err(), ConfigError::NoHostsDefined);
}

#[test]
fn empty_text_fails() {
    assert_eq!(parse_hosts("").unwrap_err(), ConfigError::NoHostsDefined);
    assert_eq!(parse_hosts("\n\n   \n").unwrap_err(), ConfigError::NoHostsDefined);
}

#[test]
fn commented_host_line_is_no_host() {
    assert_eq!(parse_hosts("# Host alpha\n").unwrap_err(), ConfigError::NoHostsDefined);
}

#[test]
fn blocks_in_file_order_whatever_attribute_order() {
    let text = "Host one\nPort 1\nUser u1\nHostName h1\nHost two\nHostName h2\nPort 2\nUser u2\nHost three\n";
    let hosts = parse_hosts(text).unwrap();
    assert_hosts(
        &hosts,
        &[
            host("one", Some("h1"), Some("u1"), Some(1)),
            host("two", Some("h2"), Some("u2"), Some(2)),
            host("three", None, None, None),
        ],
    );
}

#[test]
fn duplicate_aliases_are_kept() {
    let hosts = parse_hosts("Host a\nUser x\nHost a\nUser y\n").unwrap();
    assert_hosts(&hosts, &[host("a", None, Some("x"), None), host("a", None, Some("y"), None)]);
}

#[test]
fn attributes_before_first_host_ignored() {
    let text = "HostName global\nUser g\nPort 1\nHost alpha\nHostName 10.0.0.1\n";
    let hosts = parse_hosts(text).unwrap();
    assert_hosts(&hosts, &[host("alpha", Some("10.0.0.1"), None, None)]);
}

#[test]
fn malformed_port_left_unset() {
    let text = "Host alpha\nHostName h\nPort abc\nUser root\n";
    let hosts = parse_hosts(text).unwrap();
    assert_hosts(&hosts, &[host("alpha", Some("h"), Some("root"), None)]);
}

#[test]
fn port_out_of_range_left_unset() {
    let hosts = parse_hosts("Host a\nPort 65536\nHost b\nPort 65535\nHost c\nPort -1\n").unwrap();
    assert_hosts(
        &hosts,
        &[host("a", None, None, None), host("b", None, None, Some(65535)), host("c", None, None, None)],
    );
}

#[test]
fn port_with_plus_and_leading_zeros() {
    let hosts = parse_hosts("Host a\nPort +0022\n").unwrap();
    assert_hosts(&hosts, &[host("a", None, None, Some(22))]);
}

#[test]
fn last_assignment_wins_within_block() {
    let text = "Host a\nUser first\nHostName h1\nUser second\nHostName h2\nPort 1\nPort 2\nPort bad\n";
    let hosts = parse_hosts(text).unwrap();
    assert_hosts(&hosts, &[host("a", Some("h2"), Some("second"), Some(2))]);
}

#[test]
fn round_trip_scenario() {
    let text = "# comment\nHost alpha\n  HostName 10.0.0.1\n  User root\n  Port 2222\nHost beta\n  HostName 10.0.0.2\n";
    let hosts = parse_hosts(text).unwrap();
    assert_hosts(
        &hosts,
        &[
            host("alpha", Some("10.0.0.1"), Some("root"), Some(2222)),
            host("beta", Some("10.0.0.2"), None, None),
        ],
    );
}

#[test]
fn bare_host_keyword_opens_no_block() {
    let text = "Host alpha\nHost\nUser root\n";
    let hosts = parse_hosts(text).unwrap();
    assert_hosts(&hosts, &[host("alpha", None, Some("root"), None)]);
    assert_eq!(parse_hosts("Host\nUser root\n").unwrap_err(), ConfigError::NoHostsDefined);
}

#[test]
fn keywords_are_case_sensitive_exact_prefixes() {
    let text = "host lower\nHost a\nuser x\nHostname y\nUser\tz\nPort\t3\n";
    let hosts = parse_hosts(text).unwrap();
    assert_hosts(&hosts, &[host("a", None, None, None)]);
}

#[test]
fn whitespace_is_trimmed() {
    let text = "\t Host   spaced  \r\n   HostName   10.0.0.9 \t\r\n User  me \r\n Port  42 \r\n";
    let hosts = parse_hosts(text).unwrap();
    assert_hosts(&hosts, &[host("spaced", Some("10.0.0.9"), Some("me"), Some(42))]);
}

#[test]
fn unicode_whitespace_is_trimmed() {
    let text = "Host \u{3000}wide\u{a0}\nUser \u{2003}ü\u{2003}\n";
    let hosts = parse_hosts(text).unwrap();
    assert_hosts(&hosts, &[host("wide", None, Some("ü"), None)]);
}

#[test]
fn unknown_directives_ignored() {
    let text = "Host a\nIdentityFile ~/.ssh/id\nForwardAgent yes\nUser u\n";
    let hosts = parse_hosts(text).unwrap();
    assert_hosts(&hosts, &[host("a", None, Some("u"), None)]);
}

#[test]
fn host_with_only_trailing_space_opens_no_block() {
    assert_eq!(parse_hosts("Host \nUser u\n").unwrap_err(), ConfigError::NoHostsDefined);
    let hosts = parse_hosts("Host a\nHost \t \nUser u\n").unwrap();
    assert_hosts(&hosts, &[host("a", None, Some("u"), None)]);
}

#[test]
fn no_trailing_newline() {
    let hosts = parse_hosts("Host a\nPort 7").unwrap();
    assert_hosts(&hosts, &[host("a", None, None, Some(7))]);
}
