use chrono::{TimeZone, Utc};
use tlsdays::cert::{cert_info_from_fields, parse_cert_der, CertFields, DerTime};
use tlsdays::clock::Timestamp;
use tlsdays::error::TlsdaysError;

fn ts(secs: i64, nanos: u32) -> Timestamp {
    Timestamp::from_unix(secs, nanos).unwrap()
}

/// A self-signed certificate for `benno`, valid from 2018-11-13T02:54:40Z to 2019-11-13T02:54:40Z.
const BENNO_DER: [u8; 341] = [
    0x30, 0x82, 0x01, 0x51, 0x30, 0x81, 0xd8, 0xa0, 0x03, 0x02, 0x01, 0x02, 0x02, 0x09, 0x00, 0xb5,
    0x71, 0x92, 0x28, 0x4c, 0xeb, 0x4d, 0x1e, 0x30, 0x0a, 0x06, 0x08, 0x2a, 0x86, 0x48, 0xce, 0x3d,
    0x04, 0x03, 0x02, 0x30, 0x10, 0x31, 0x0e, 0x30, 0x0c, 0x06, 0x03, 0x55, 0x04, 0x03, 0x0c, 0x05,
    0x62, 0x65, 0x6e, 0x6e, 0x6f, 0x30, 0x1e, 0x17, 0x0d, 0x31, 0x38, 0x31, 0x31, 0x31, 0x33, 0x30,
    0x32, 0x35, 0x34, 0x34, 0x30, 0x5a, 0x17, 0x0d, 0x31, 0x39, 0x31, 0x31, 0x31, 0x33, 0x30, 0x32,
    0x35, 0x34, 0x34, 0x30, 0x5a, 0x30, 0x10, 0x31, 0x0e, 0x30, 0x0c, 0x06, 0x03, 0x55, 0x04, 0x03,
    0x0c, 0x05, 0x62, 0x65, 0x6e, 0x6e, 0x6f, 0x30, 0x76, 0x30, 0x10, 0x06, 0x07, 0x2a, 0x86, 0x48,
    0xce, 0x3d, 0x02, 0x01, 0x06, 0x05, 0x2b, 0x81, 0x04, 0x00, 0x22, 0x03, 0x62, 0x00, 0x04, 0x38,
    0x6b, 0x1c, 0xb5, 0x53, 0x30, 0x70, 0xbb, 0x19, 0x3c, 0x81, 0xfc, 0xc3, 0x73, 0xb5, 0x3a, 0x16,
    0xb2, 0xcd, 0xb3, 0x96, 0x6b, 0xd1, 0xeb, 0x65, 0xf5, 0xa5, 0x06, 0x81, 0x37, 0xa7, 0xd8, 0x84,
    0x12, 0x44, 0xd5, 0x76, 0x1a, 0xd1, 0x5d, 0x82, 0xd5, 0xf1, 0x86, 0x5e, 0x3f, 0x76, 0x31, 0xe9,
    0xdc, 0x3a, 0xd5, 0xf2, 0x7d, 0x85, 0x71, 0x9f, 0xe0, 0xd8, 0xd3, 0xb8, 0x32, 0x4f, 0xfe, 0xf5,
    0x1d, 0x0d, 0x76, 0x4c, 0x93, 0x9e, 0xf7, 0x4c, 0x30, 0x8f, 0x2d, 0xbf, 0xe8, 0xdd, 0x56, 0xd6,
    0x33, 0xaf, 0xe4, 0x78, 0xe9, 0x85, 0x54, 0xfc, 0x25, 0x09, 0x55, 0x36, 0xa0, 0x02, 0xf8, 0x30,
    0x0a, 0x06, 0x08, 0x2a, 0x86, 0x48, 0xce, 0x3d, 0x04, 0x03, 0x02, 0x03, 0x68, 0x00, 0x30, 0x65,
    0x02, 0x30, 0x1f, 0xcd, 0x2d, 0x6d, 0x99, 0x9f, 0x86, 0x48, 0x06, 0x97, 0xae, 0xc3, 0xdc, 0x7c,
    0x07, 0x75, 0x03, 0xdc, 0x9f, 0x59, 0x5b, 0x41, 0xf2, 0xd5, 0xb1, 0x14, 0xd3, 0x68, 0xda, 0x3e,
    0xff, 0x70, 0xbd, 0xe9, 0xb9, 0xfd, 0xaf, 0x42, 0x79, 0x70, 0x57, 0xfd, 0x01, 0xa1, 0x96, 0x75,
    0x2b, 0x82, 0x02, 0x31, 0x00, 0xda, 0x13, 0x41, 0xde, 0x9a, 0x06, 0x29, 0xe9, 0x13, 0xd0, 0xcd,
    0xe6, 0xfd, 0xe9, 0xad, 0xa0, 0x8e, 0x56, 0x84, 0x6f, 0x03, 0x72, 0xd4, 0x1f, 0x0e, 0xef, 0x87,
    0xc4, 0xdb, 0x85, 0x91, 0x5e, 0x23, 0x94, 0x9b, 0x87, 0xa5, 0x9f, 0xdc, 0x06, 0x43, 0x72, 0x35,
    0x89, 0x5e, 0x8d, 0xb5, 0x95
];

#[test]
fn instants_chrono_represents() {
    assert!(Timestamp::from_unix(0, 0).is_some());
    assert!(Timestamp::from_unix(-62_135_596_800, 0).is_some());
    assert!(Timestamp::from_unix(1_573_613_680, 999_999_999).is_some());
    assert!(Timestamp::from_unix(0, 1_000_000_000).is_none());
    assert!(Timestamp::from_unix(i64::MAX, 0).is_none());
    assert!(Timestamp::from_unix(i64::MIN, 0).is_none());
    // The first and last seconds that chrono represents.
    assert!(Timestamp::from_unix(-8_334_601_228_800, 0).is_some());
    assert!(Timestamp::from_unix(-8_334_601_228_801, 999_999_999).is_none());
    assert!(Timestamp::from_unix(8_210_266_876_799, 999_999_999).is_some());
    assert!(Timestamp::from_unix(8_210_266_876_800, 0).is_none());
    assert_eq!(ts(-8_334_601_228_800, 0).to_rfc3339(), "-262143-01-01T00:00:00+00:00");
    let t = ts(1_573_613_680, 7);
    assert_eq!(t.unix_seconds(), 1_573_613_680);
    assert_eq!(t.subsec_nanos(), 7);
}

#[test]
fn rfc3339_text() {
    assert_eq!(ts(0, 0).to_rfc3339(), "1970-01-01T00:00:00+00:00");
    assert_eq!(ts(1_573_613_680, 0).to_rfc3339(), "2019-11-13T02:54:40+00:00");
    assert_eq!(ts(0, 500_000_000).to_rfc3339(), "1970-01-01T00:00:00.500+00:00");
    assert_eq!(ts(-1, 0).to_rfc3339(), "1969-12-31T23:59:59+00:00");
}

#[test]
fn whole_days_rounded_down() {
    let epoch = ts(0, 0);
    assert_eq!(ts(864_000, 0).days_since(&epoch), 10);
    assert_eq!(ts(86_399, 999_999_999).days_since(&epoch), 0);
    assert_eq!(ts(86_400, 0).days_since(&epoch), 1);
    assert_eq!(ts(-1, 0).days_since(&epoch), -1);
    assert_eq!(ts(-86_400, 0).days_since(&epoch), -1);
    assert_eq!(ts(-86_401, 0).days_since(&epoch), -2);
    // Seconds are counted toward zero before the days are rounded down.
    assert_eq!(ts(0, 0).days_since(&ts(0, 500_000_000)), 0);
    assert_eq!(ts(0, 0).days_since(&ts(1, 500_000_000)), -1);
    assert_eq!(ts(7 * 86_400, 0).days_since(&ts(0, 1)), 6);
}

#[test]
fn reads_leaf_certificate() {
    let info = parse_cert_der("benno.example", 8443, &BENNO_DER).unwrap();
    assert_eq!(info.host, "benno.example");
    assert_eq!(info.port, 8443);
    assert_eq!(info.subject_cn, "benno");
    assert_eq!(info.issuer, "benno");
    assert_eq!(info.not_before.unix_seconds(), 1_542_077_680);
    assert_eq!(info.not_after.unix_seconds(), 1_573_613_680);
    assert_eq!(info.not_after.to_rfc3339(), "2019-11-13T02:54:40+00:00");
    let recomputed = info.not_after.days_since(&Timestamp::now().unwrap());
    assert!((info.days_until_expiry - recomputed).abs() <= 1);
    assert!(info.days_until_expiry < 0);
}

#[test]
fn refuses_bytes_that_are_no_certificate() {
    match parse_cert_der("h", 443, &[0x30, 0x03, 0x02, 0x01]) {
        Err(TlsdaysError::CertParse { host, port, message }) => {
            assert_eq!(host, "h");
            assert_eq!(port, 443);
            assert!(!message.is_empty());
        }
        other => panic!("unexpected result: {:?}", other),
    }
    assert!(matches!(parse_cert_der("h", 443, &[]), Err(TlsdaysError::CertParse { .. })));
}

fn fields(subject: Vec<Option<&str>>, issuer: Vec<Option<&str>>) -> CertFields {
    CertFields {
        not_before: DerTime { unix_secs: 0, nanos: 0, text: "1970-01-01 0:00:00.0 +00:00:00".to_string() },
        not_after: DerTime { unix_secs: 30 * 86_400 + 5, nanos: 0, text: "later".to_string() },
        subject_common_names: subject.into_iter().map(|s| s.map(str::to_string)).collect(),
        issuer_common_names: issuer.into_iter().map(|s| s.map(str::to_string)).collect(),
        issuer_name: "C=US, O=Example CA".to_string(),
    }
}

#[test]
fn first_text_common_name_is_taken() {
    let now = ts(0, 0);
    let info = cert_info_from_fields("h", 1, &fields(vec![None, Some("a"), Some("b")], vec![Some("ca")]), &now).unwrap();
    assert_eq!(info.subject_cn, "a");
    assert_eq!(info.issuer, "ca");
    assert_eq!(info.days_until_expiry, 30);
}

#[test]
fn missing_names_fall_back() {
    let now = ts(10 * 86_400, 0);
    let info = cert_info_from_fields("h", 1, &fields(vec![None], vec![None, None]), &now).unwrap();
    assert_eq!(info.subject_cn, "");
    assert_eq!(info.issuer, "C=US, O=Example CA");
    assert_eq!(info.days_until_expiry, 20);
}

#[test]
fn validity_times_chrono_refuses() {
    let now = ts(0, 0);
    let mut f = fields(vec![], vec![]);
    f.not_before = DerTime { unix_secs: i64::MAX, nanos: 0, text: "far".to_string() };
    let e = cert_info_from_fields("h", 1, &f, &now).unwrap_err();
    assert_eq!(e.message(), "failed to parse certificate from h:1: invalid not_before: invalid timestamp: far");
    let mut f = fields(vec![], vec![]);
    f.not_after = DerTime { unix_secs: i64::MIN, nanos: 0, text: "early".to_string() };
    let e = cert_info_from_fields("h", 1, &f, &now).unwrap_err();
    assert_eq!(e.message(), "failed to parse certificate from h:1: invalid not_after: invalid timestamp: early");
}

#[test]
fn chrono_leap_seconds() {
    assert!(Utc.timestamp_opt(59, 1_500_000_000).single().is_some());
    assert!(Utc.timestamp_opt(58, 1_500_000_000).single().is_none());
    assert!(Utc.timestamp_opt(59, 2_000_000_000).single().is_none());
    assert!(Utc.timestamp_opt(-1, 1_999_999_999).single().is_some());
    // A leap second is no Timestamp: its nanoseconds are not within the second.
    assert!(Timestamp::from_unix(59, 1_500_000_000).is_none());
}

#[test]
fn clock_reads_now() {
    let now = Timestamp::now().unwrap();
    // Later than 2024-01-01T00:00:00Z.
    assert!(now.unix_seconds() > 1_704_067_200);
    assert!(now.subsec_nanos() < 1_000_000_000);
}

#[test]
fn certificate_values_compare() {
    let a = parse_cert_der("benno.example", 8443, &BENNO_DER).unwrap();
    let mut b = a.clone();
    assert_eq!(a, b);
    b.subject_cn = "other".to_string();
    assert_ne!(a, b);
    assert_eq!(ts(1, 2), ts(1, 2));
    assert_ne!(ts(1, 2), ts(1, 3));
}
