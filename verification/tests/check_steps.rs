use tlsdays::check::{CheckAction, CheckEvent, CheckPhase, ConnectOutcome, HandshakeOutcome, HostCheck};
use tlsdays::error::{IoKind, TlsdaysError};

fn done_err(a: CheckAction) -> String {
    match a {
        CheckAction::Done(Err(e)) => e.message(),
        _ => panic!("expected a failed end"),
    }
}

#[test]
fn resolution_failures() {
    let mut c = HostCheck::new("example.com", 443);
    assert_eq!(c.phase, CheckPhase::Resolving);
    let a = c.step(CheckEvent::Resolved(Err((IoKind::Other, "no such host".to_string()))));
    assert_eq!(done_err(a), "failed to resolve host example.com: no such host");
    assert_eq!(c.phase, CheckPhase::Finished);

    let mut c = HostCheck::new("example.com", 443);
    let a = c.step(CheckEvent::Resolved(Ok(0)));
    match a {
        CheckAction::Done(Err(e)) => {
            assert_eq!(e.message(), "failed to resolve host example.com: no addresses resolved");
            assert_eq!(
                e,
                TlsdaysError::Resolve {
                    host: "example.com".to_string(),
                    kind: IoKind::NotFound,
                    source: "no addresses resolved".to_string()
                }
            );
        }
        _ => panic!("expected a failed end"),
    }
    let mut c = HostCheck::new("example.com", 443);
    let a = c.step(CheckEvent::Resolved(Err((IoKind::PermissionDenied, "denied".to_string()))));
    assert!(matches!(a, CheckAction::Done(Err(TlsdaysError::Resolve { kind: IoKind::PermissionDenied, .. }))));

    let mut c = HostCheck::new("example.com", 443);
    let a = c.step(CheckEvent::ResolveTaskFailed("cancelled".to_string()));
    assert_eq!(done_err(a), "invalid argument: resolve task failed: cancelled");
}

#[test]
fn server_name_must_be_valid() {
    let mut c = HostCheck::new("bad name!", 443);
    let a = c.step(CheckEvent::Resolved(Ok(1)));
    assert_eq!(done_err(a), "invalid argument: invalid DNS name for TLS SNI: bad name!");

    let mut c = HostCheck::new("::1", 443);
    assert!(matches!(c.step(CheckEvent::Resolved(Ok(1))), CheckAction::Connect(0)));
    let mut c = HostCheck::new("127.0.0.1", 443);
    assert!(matches!(c.step(CheckEvent::Resolved(Ok(1))), CheckAction::Connect(0)));
}

#[test]
fn addresses_tried_in_order() {
    let mut c = HostCheck::new("example.com", 443);
    assert!(matches!(c.step(CheckEvent::Resolved(Ok(3))), CheckAction::Connect(0)));
    assert!(c.accepts(&CheckEvent::Connect(ConnectOutcome::TimedOut)));
    assert!(!c.accepts(&CheckEvent::Resolved(Ok(1))));
    let a = c.step(CheckEvent::Connect(ConnectOutcome::Failed(IoKind::ConnectionRefused, "refused".to_string())));
    assert!(matches!(a, CheckAction::Connect(1)));
    let a = c.step(CheckEvent::Connect(ConnectOutcome::Failed(IoKind::ConnectionRefused, "refused".to_string())));
    assert!(matches!(a, CheckAction::Connect(2)));
    let a = c.step(CheckEvent::Connect(ConnectOutcome::Failed(IoKind::Other, "unreachable".to_string())));
    assert!(matches!(&a, CheckAction::Done(Err(TlsdaysError::Tcp { kind: IoKind::Other, .. }))));
    assert_eq!(done_err(a), "tcp connection to example.com:443 failed: unreachable");
    assert!(!c.accepts(&CheckEvent::Connect(ConnectOutcome::Connected)));
}

#[test]
fn connect_timeout_ends_the_check() {
    let mut c = HostCheck::new("example.com", 8443);
    c.step(CheckEvent::Resolved(Ok(2)));
    let a = c.step(CheckEvent::Connect(ConnectOutcome::TimedOut));
    match a {
        CheckAction::Done(Err(e)) => {
            assert_eq!(e.message(), "tcp connection to example.com:8443 failed: connection timed out");
            assert!(matches!(e, TlsdaysError::Tcp { kind: IoKind::TimedOut, port: 8443, .. }));
        }
        _ => panic!("expected a failed end"),
    }
    assert!(!c.accepts(&CheckEvent::Connect(ConnectOutcome::Connected)));
}

#[test]
fn handshake_outcomes() {
    let start = || {
        let mut c = HostCheck::new("example.com", 443);
        c.step(CheckEvent::Resolved(Ok(2)));
        c.step(CheckEvent::Connect(ConnectOutcome::Failed(IoKind::ConnectionReset, "x".to_string())));
        assert!(matches!(c.step(CheckEvent::Connect(ConnectOutcome::Connected)), CheckAction::Handshake));
        assert_eq!(c.phase, CheckPhase::Handshaking { addresses: 2, index: 1 });
        c
    };
    let mut c = start();
    let a = c.step(CheckEvent::Handshake(HandshakeOutcome::Failed("bad certificate".to_string())));
    assert_eq!(done_err(a), "tls handshake with example.com:443 failed: bad certificate");
    let mut c = start();
    let a = c.step(CheckEvent::Handshake(HandshakeOutcome::TimedOut));
    assert_eq!(done_err(a), "tls handshake with example.com:443 failed: tls handshake timed out");
    let mut c = start();
    let a = c.step(CheckEvent::Handshake(HandshakeOutcome::Established(None)));
    assert_eq!(done_err(a), "tls handshake with example.com:443 failed: no peer certificates presented");
    let mut c = start();
    let a = c.step(CheckEvent::Handshake(HandshakeOutcome::Established(Some(vec![]))));
    assert_eq!(done_err(a), "tls handshake with example.com:443 failed: empty peer certificate chain");
    let mut c = start();
    let a = c.step(CheckEvent::Handshake(HandshakeOutcome::Established(Some(vec![vec![0x05, 0x00]]))));
    match a {
        CheckAction::Done(Err(TlsdaysError::CertParse { host, port, .. })) => {
            assert_eq!(host, "example.com");
            assert_eq!(port, 443);
        }
        _ => panic!("expected a certificate error"),
    }
    assert_eq!(c.phase, CheckPhase::Finished);
}

#[test]
fn error_texts() {
    let e = TlsdaysError::Resolve { host: "h".to_string(), kind: IoKind::NotFound, source: "s".to_string() };
    assert_eq!(e.message(), "failed to resolve host h: s");
    let e = TlsdaysError::Tcp { host: "h".to_string(), port: 1, kind: IoKind::TimedOut, source: "s".to_string() };
    assert_eq!(e.message(), "tcp connection to h:1 failed: s");
    let e = TlsdaysError::Tls { host: "h".to_string(), port: 65535, message: "m".to_string() };
    assert_eq!(e.message(), "tls handshake with h:65535 failed: m");
    let e = TlsdaysError::CertParse { host: "h".to_string(), port: 443, message: "m".to_string() };
    assert_eq!(e.message(), "failed to parse certificate from h:443: m");
    let e = TlsdaysError::Clock { host: "h".to_string(), port: 443 };
    assert_eq!(
        e.message(),
        "cannot count the days left for h:443: the system clock reads a time that chrono cannot represent"
    );
    let e = TlsdaysError::Argument("a".to_string());
    assert_eq!(e.message(), "invalid argument: a");
}
