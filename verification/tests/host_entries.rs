use tlsdays::error::TlsdaysError;
use tlsdays::host::{
    collect_hosts, parse_entries, parse_host_entry, push_line, reads_stdin, require_hosts, HostTarget,
};

fn ok(entry: &str, default_port: u16) -> (String, u16) {
    match parse_host_entry(entry, default_port) {
        Ok(HostTarget { host, port }) => (host, port),
        Err(e) => panic!("unexpected error: {}", e.message()),
    }
}

fn err(entry: &str) -> String {
    match parse_host_entry(entry, 443) {
        Ok(t) => panic!("unexpected target: {:?}", t),
        Err(e) => e.message(),
    }
}

#[test]
fn bare_host_takes_default_port() {
    assert_eq!(ok("example.com", 443), ("example.com".to_string(), 443));
    assert_eq!(ok("example.com", 8443), ("example.com".to_string(), 8443));
}

#[test]
fn host_with_port() {
    assert_eq!(ok("example.com:8443", 443), ("example.com".to_string(), 8443));
    assert_eq!(ok("example.com:+80", 443), ("example.com".to_string(), 80));
    assert_eq!(ok("example.com:0", 443), ("example.com".to_string(), 0));
    assert_eq!(ok("example.com:65535", 443), ("example.com".to_string(), 65535));
}

#[test]
fn surrounding_whitespace_is_ignored() {
    assert_eq!(ok("  example.com:8443\t\n", 443), ("example.com".to_string(), 8443));
    assert_eq!(ok("\u{3000}example.com\u{a0}", 443), ("example.com".to_string(), 443));
}

#[test]
fn port_that_does_not_parse_keeps_whole_entry() {
    assert_eq!(ok("example.com:https", 443), ("example.com:https".to_string(), 443));
    assert_eq!(ok("example.com:65536", 443), ("example.com:65536".to_string(), 443));
    assert_eq!(ok("example.com:-1", 443), ("example.com:-1".to_string(), 443));
    assert_eq!(ok("example.com:", 443), ("example.com:".to_string(), 443));
    assert_eq!(ok(":443", 25), (":443".to_string(), 25));
}

#[test]
fn bare_ipv6_takes_default_port() {
    assert_eq!(ok("2001:db8::1", 443), ("2001:db8::1".to_string(), 443));
    assert_eq!(ok("::1", 8443), ("::1".to_string(), 8443));
}

#[test]
fn bracketed_ipv6() {
    assert_eq!(ok("[2001:db8::1]:443", 80), ("2001:db8::1".to_string(), 443));
    assert_eq!(ok("[2001:db8::1]:8443", 80), ("2001:db8::1".to_string(), 8443));
    assert_eq!(ok("[::1]", 993), ("::1".to_string(), 993));
    assert_eq!(ok("[]", 993), ("".to_string(), 993));
}

#[test]
fn refused_entries() {
    assert_eq!(err(""), "invalid argument: empty host entry");
    assert_eq!(err("   "), "invalid argument: empty host entry");
    assert_eq!(err("[::1"), "invalid argument: invalid bracketed host: [::1");
    assert_eq!(err("[::1]:x"), "invalid argument: invalid port in [::1]:x");
    assert_eq!(err("[::1]:65536"), "invalid argument: invalid port in [::1]:65536");
    assert_eq!(err("[::1]:"), "invalid argument: invalid port in [::1]:");
    assert_eq!(err(" [::1]x "), "invalid argument: invalid host spec: [::1]x");
}

#[test]
fn error_variant_is_argument() {
    assert!(matches!(parse_host_entry("", 443), Err(TlsdaysError::Argument(_))));
}

fn targets(v: Vec<HostTarget>) -> Vec<(String, u16)> {
    v.into_iter().map(|t| (t.host, t.port)).collect()
}

#[test]
fn arguments_then_stdin_lines() {
    let args = vec!["a.example".to_string(), "b.example:444".to_string()];
    let lines = vec![
        Ok("c.example".to_string()),
        Ok("   ".to_string()),
        Ok("".to_string()),
        Ok(" [::1]:8443 ".to_string()),
    ];
    let got = collect_hosts(&args, Some(&lines), 443).unwrap();
    assert_eq!(
        targets(got),
        vec![
            ("a.example".to_string(), 443),
            ("b.example".to_string(), 444),
            ("c.example".to_string(), 443),
            ("::1".to_string(), 8443),
        ]
    );
}

#[test]
fn stdin_not_read() {
    let args = vec!["a.example".to_string()];
    let got = collect_hosts(&args, None, 443).unwrap();
    assert_eq!(targets(got), vec![("a.example".to_string(), 443)]);
}

#[test]
fn first_error_wins() {
    let args = vec!["a.example".to_string(), "[bad".to_string(), "".to_string()];
    let e = collect_hosts(&args, None, 443).unwrap_err();
    assert_eq!(e.message(), "invalid argument: invalid bracketed host: [bad");
    let lines = vec![Ok("x".to_string()), Err("broken pipe".to_string()), Ok("[y".to_string())];
    let e = collect_hosts(&vec![], Some(&lines), 443).unwrap_err();
    assert_eq!(e.message(), "invalid argument: stdin read error: broken pipe");
}

#[test]
fn missing_hosts_exits_2() {
    let e = collect_hosts(&vec![], Some(&vec![]), 443).unwrap_err();
    assert!(e.message().contains("no hosts provided"));
    assert_eq!(
        e.message(),
        "invalid argument: no hosts provided: pass HOST arguments or pipe hosts on stdin"
    );
    let blank = vec![Ok("  ".to_string())];
    assert!(collect_hosts(&vec![], Some(&blank), 443).is_err());
}

#[test]
fn stdin_read_when_no_hosts_or_piped() {
    assert!(reads_stdin(&vec![], true));
    assert!(reads_stdin(&vec!["a".to_string()], false));
    assert!(!reads_stdin(&vec!["a".to_string()], true));
}

#[test]
fn hosts_taken_one_line_at_a_time() {
    let mut ts = parse_entries(&vec!["a.example".to_string()], 443).unwrap();
    push_line(&mut ts, &Ok("  ".to_string()), 443).unwrap();
    push_line(&mut ts, &Ok(" b.example:444 ".to_string()), 443).unwrap();
    let e = push_line(&mut ts, &Ok("[bad".to_string()), 443).unwrap_err();
    assert_eq!(e.message(), "invalid argument: invalid bracketed host: [bad");
    let e = push_line(&mut ts, &Err("gone".to_string()), 443).unwrap_err();
    assert_eq!(e.message(), "invalid argument: stdin read error: gone");
    assert_eq!(
        targets(ts.clone()),
        vec![("a.example".to_string(), 443), ("b.example".to_string(), 444)]
    );
    assert_eq!(targets(require_hosts(ts).unwrap()).len(), 2);
    let e = require_hosts(vec![]).unwrap_err();
    assert!(e.message().contains("no hosts provided"));
    let e = parse_entries(&vec!["ok".to_string(), "".to_string()], 443).unwrap_err();
    assert_eq!(e.message(), "invalid argument: empty host entry");
    assert!(parse_entries(&vec![], 443).unwrap().is_empty());
}

#[test]
fn targets_compare() {
    let t = parse_host_entry("a:1", 443).unwrap();
    assert_eq!(t, HostTarget { host: "a".to_string(), port: 1 });
    assert_ne!(t, HostTarget { host: "a".to_string(), port: 2 });
}
