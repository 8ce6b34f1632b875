use tlsdays::cert::CertInfo;
use tlsdays::clock::Timestamp;
use tlsdays::error::TlsdaysError;
use tlsdays::host::HostTarget;
use tlsdays::output::{exit_code, FormatKind, HostRecord, JsonlFormatter, TableFormatter, TextFormatter};

fn info(days: i64) -> CertInfo {
    CertInfo {
        host: "example.com".to_string(),
        port: 443,
        days_until_expiry: days,
        not_before: Timestamp::from_unix(1_542_077_680, 0).unwrap(),
        not_after: Timestamp::from_unix(1_573_613_680, 0).unwrap(),
        subject_cn: "example.com".to_string(),
        issuer: "Example CA".to_string(),
    }
}

#[test]
fn invalid_format_exits_2() {
    assert_eq!(FormatKind::parse("xml"), None);
    assert_eq!(FormatKind::parse(""), None);
    assert_eq!(FormatKind::parse("JSONL"), None);
    assert_eq!(FormatKind::parse("text "), None);
}

#[test]
fn known_formats() {
    assert_eq!(FormatKind::parse("jsonl"), Some(FormatKind::Jsonl));
    assert_eq!(FormatKind::parse("table"), Some(FormatKind::Table));
    assert_eq!(FormatKind::parse("text"), Some(FormatKind::Text));
}

#[test]
fn records_of_checks() {
    let r = HostRecord::success(&info(12));
    assert_eq!(r.host, "example.com");
    assert_eq!(r.days_until_expiry, Some(12));
    assert_eq!(r.subject_cn.as_deref(), Some("example.com"));
    assert_eq!(r.issuer.as_deref(), Some("Example CA"));
    assert!(r.error.is_none());
    let r = HostRecord::failure("h", 8443, "boom");
    assert_eq!((r.host.as_str(), r.port), ("h", 8443));
    assert!(r.days_until_expiry.is_none() && r.not_before.is_none() && r.not_after.is_none());
    assert!(r.subject_cn.is_none() && r.issuer.is_none());
    assert_eq!(r.error.as_deref(), Some("boom"));
    let target = HostTarget { host: "t".to_string(), port: 9 };
    let r = HostRecord::from_check(&target, &Err(TlsdaysError::Argument("x".to_string())));
    assert_eq!(r.host, "t");
    assert_eq!(r.port, 9);
    assert_eq!(r.error.as_deref(), Some("invalid argument: x"));
    let r = HostRecord::from_check(&target, &Ok(info(3)));
    assert_eq!(r.host, "example.com");
    assert_eq!(r.days_until_expiry, Some(3));
}

#[test]
fn text_lines() {
    let mut f = TextFormatter::new();
    assert_eq!(f.write_header(), "");
    assert_eq!(
        f.write_one(&HostRecord::success(&info(-5))),
        "example.com:443 expires in -5 days (not_after=2019-11-13T02:54:40+00:00, subject_cn=example.com, issuer=Example CA)\n"
    );
    assert_eq!(f.write_one(&HostRecord::failure("h", 8443, "boom")), "h:8443 ERROR: boom\n");
    let bare = HostRecord {
        host: "b".to_string(),
        port: 1,
        days_until_expiry: None,
        not_before: None,
        not_after: None,
        subject_cn: None,
        issuer: None,
        error: None,
    };
    assert_eq!(f.write_one(&bare), "b:1 expires in 0 days (not_after=?, subject_cn=?, issuer=?)\n");
}

fn table_line(cols: [&str; 7]) -> String {
    format!(
        "{:<30} {:>5} {:>8} {:>24} {:>24} {:>20} {:>30}\n",
        cols[0], cols[1], cols[2], cols[3], cols[4], cols[5], cols[6]
    )
}

/// Writes what the table gives for `record` to `out`, as a writer would:
/// the header when owed (reported sent once written), then the row.
fn emit(f: &mut TableFormatter, record: &HostRecord, out: &mut String, header_fails: bool) -> bool {
    let lines = f.write_one(record);
    if let Some(h) = lines.header {
        if header_fails {
            return false;
        }
        out.push_str(&h);
        f.header_sent();
    }
    out.push_str(&lines.row);
    true
}

#[test]
fn table_header_once() {
    let header = table_line(["HOST", "PORT", "DAYS", "NOT_BEFORE", "NOT_AFTER", "SUBJECT_CN", "ISSUER"]);
    let row = table_line([
        "example.com",
        "443",
        "12",
        "2018-11-13T02:54:40+00:00",
        "2019-11-13T02:54:40+00:00",
        "example.com",
        "Example CA",
    ]);
    let err_row = table_line(["h", "8443", "ERR", "-", "-", "-", "boom"]);
    let mut f = TableFormatter::new();
    let mut out = String::new();
    assert!(emit(&mut f, &HostRecord::success(&info(12)), &mut out, false));
    assert!(emit(&mut f, &HostRecord::failure("h", 8443, "boom"), &mut out, false));
    assert_eq!(out, format!("{header}{row}{err_row}"));

    let mut g = TableFormatter::new();
    assert_eq!(g.write_header(), header);
    g.header_sent();
    let lines = g.write_one(&HostRecord::failure("h", 8443, "boom"));
    assert!(lines.header.is_none());
    assert_eq!(lines.row, err_row);
    assert!(header.starts_with("HOST                            PORT     DAYS"));
}

#[test]
fn table_header_owed_after_refused_write() {
    let mut f = TableFormatter::new();
    let mut out = String::new();
    assert!(!emit(&mut f, &HostRecord::failure("h", 1, "e"), &mut out, true));
    assert_eq!(out, "");
    let lines = f.write_one(&HostRecord::failure("h", 1, "e"));
    assert!(lines.header.is_some());
    // The header on its own, not reported sent, stays owed too.
    let g = TableFormatter::new();
    let _ = g.write_header();
    assert!(g.write_one(&HostRecord::failure("h", 1, "e")).header.is_some());
}

#[test]
fn table_columns_longer_than_width() {
    let long = "a-very-long-host-name.example.com";
    let f = TableFormatter::new();
    let line = f.write_one(&HostRecord::failure(long, 5, "e")).row;
    assert!(line.starts_with("a-very-long-host-name.example.com     5      ERR"));
}

#[test]
fn jsonl_lines() {
    let mut f = JsonlFormatter::new();
    assert_eq!(f.write_header(), "");
    assert_eq!(f.write_one("{\"host\":\"a\"}"), "{\"host\":\"a\"}\n");
}

fn ok(days: i64) -> HostRecord {
    HostRecord::success(&info(days))
}

fn failed() -> HostRecord {
    HostRecord::failure("h", 1, "e")
}

#[test]
fn exit_codes() {
    assert_eq!(exit_code(&[], false), 2);
    assert_eq!(exit_code(&[], true), 2);
    assert_eq!(exit_code(&[ok(30)], false), 0);
    assert_eq!(exit_code(&[ok(7), ok(100)], true), 0);
    assert_eq!(exit_code(&[ok(6), ok(100)], false), 1);
    assert_eq!(exit_code(&[ok(-3)], true), 1);
    assert_eq!(exit_code(&[failed()], false), 2);
    assert_eq!(exit_code(&[failed(), failed()], true), 2);
    assert_eq!(exit_code(&[ok(30), failed()], false), 0);
    assert_eq!(exit_code(&[ok(3), failed()], false), 1);
    assert_eq!(exit_code(&[ok(30), failed()], true), 2);
    let mut no_days = ok(1);
    no_days.days_until_expiry = None;
    assert_eq!(exit_code(&[no_days], false), 0);
}

#[test]
fn strict_fail_never_lowers_status() {
    let lists: Vec<Vec<HostRecord>> = vec![
        vec![],
        vec![ok(1)],
        vec![failed()],
        vec![ok(1), failed()],
        vec![ok(10), failed()],
    ];
    for rs in &lists {
        assert!(exit_code(rs, true) >= exit_code(rs, false));
    }
}
