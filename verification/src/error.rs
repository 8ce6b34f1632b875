//! The library's error type and the text that describes each error.
use vstd::prelude::*;

use crate::text::{decimal, u64_decimal};

verus! {

/// The kind of an operating-system error (`std::io::ErrorKind`). `Other`
/// stands for `ErrorKind::Other` and for every kind not named here.
#[derive(Debug, Clone, Copy, PartialEq, Eq, Structural)]
pub enum IoKind {
    NotFound,
    PermissionDenied,
    ConnectionRefused,
    ConnectionReset,
    ConnectionAborted,
    NotConnected,
    AddrInUse,
    AddrNotAvailable,
    BrokenPipe,
    AlreadyExists,
    WouldBlock,
    InvalidInput,
    InvalidData,
    TimedOut,
    WriteZero,
    Interrupted,
    Unsupported,
    UnexpectedEof,
    OutOfMemory,
    Other,
}

/// Why a host could not be checked, or why the input was refused.
///
/// A cause that comes from the operating system is held as its kind and
/// the text that describes it (`source`).
#[derive(Debug, Clone, PartialEq, Eq)]
pub enum TlsdaysError {
    Resolve { host: String, kind: IoKind, source: String },
    Tcp { host: String, port: u16, kind: IoKind, source: String },
    Tls { host: String, port: u16, message: String },
    CertParse { host: String, port: u16, message: String },
    /// The system clock read a time that `chrono` cannot represent (before
    /// 1970 or after its last date), so the days left cannot be counted.
    Clock { host: String, port: u16 },
    Argument(String),
}

/// The mathematical value of a [`TlsdaysError`].
pub enum ErrorView {
    Resolve { host: Seq<char>, kind: IoKind, source: Seq<char> },
    Tcp { host: Seq<char>, port: u16, kind: IoKind, source: Seq<char> },
    Tls { host: Seq<char>, port: u16, message: Seq<char> },
    CertParse { host: Seq<char>, port: u16, message: Seq<char> },
    Clock { host: Seq<char>, port: u16 },
    Argument(Seq<char>),
}

impl View for TlsdaysError {
    type V = ErrorView;

    open spec fn view(&self) -> ErrorView {
        match self {
            TlsdaysError::Resolve { host, kind, source } => ErrorView::Resolve {
                host: host@,
                kind: *kind,
                source: source@,
            },
            TlsdaysError::Tcp { host, port, kind, source } => ErrorView::Tcp {
                host: host@,
                port: *port,
                kind: *kind,
                source: source@,
            },
            TlsdaysError::Tls { host, port, message } => ErrorView::Tls {
                host: host@,
                port: *port,
                message: message@,
            },
            TlsdaysError::CertParse { host, port, message } => ErrorView::CertParse {
                host: host@,
                port: *port,
                message: message@,
            },
            TlsdaysError::Clock { host, port } => ErrorView::Clock { host: host@, port: *port },
            TlsdaysError::Argument(m) => ErrorView::Argument(m@),
        }
    }
}

/// `host:port` as text.
pub open spec fn endpoint_text(host: Seq<char>, port: u16) -> Seq<char> {
    host + ":"@ + decimal(port as nat)
}

/// The text that describes an error.
pub open spec fn error_text(e: ErrorView) -> Seq<char> {
    match e {
        ErrorView::Resolve { host, source, .. } => "failed to resolve host "@ + host + ": "@
            + source,
        ErrorView::Tcp { host, port, source, .. } => "tcp connection to "@ + endpoint_text(host, port)
            + " failed: "@ + source,
        ErrorView::Tls { host, port, message } => "tls handshake with "@ + endpoint_text(
            host,
            port,
        ) + " failed: "@ + message,
        ErrorView::CertParse { host, port, message } => "failed to parse certificate from "@
            + endpoint_text(host, port) + ": "@ + message,
        ErrorView::Clock { host, port } => "cannot count the days left for "@ + endpoint_text(
            host,
            port,
        ) + ": the system clock reads a time that chrono cannot represent"@,
        ErrorView::Argument(m) => "invalid argument: "@ + m,
    }
}

/// `host:port` as text.
pub fn endpoint(host: &str, port: u16) -> (r: String)
    ensures
        r@ == endpoint_text(host@, port),
{
    let mut r = String::from_str(host);
    r.append(":");
    let p = u64_decimal(port as u64);
    r.append(p.as_str());
    r
}

impl TlsdaysError {
    /// The text that describes this error.
    pub fn message(&self) -> (r: String)
        ensures
            r@ == error_text(self@),
    {
        match self {
            TlsdaysError::Resolve { host, source, .. } => {
                let mut r = String::from_str("failed to resolve host ");
                r.append(host.as_str());
                r.append(": ");
                r.append(source.as_str());
                r
            },
            TlsdaysError::Tcp { host, port, source, .. } => {
                let mut r = String::from_str("tcp connection to ");
                let ep = endpoint(host.as_str(), *port);
                r.append(ep.as_str());
                r.append(" failed: ");
                r.append(source.as_str());
                r
            },
            TlsdaysError::Tls { host, port, message } => {
                let mut r = String::from_str("tls handshake with ");
                let ep = endpoint(host.as_str(), *port);
                r.append(ep.as_str());
                r.append(" failed: ");
                r.append(message.as_str());
                r
            },
            TlsdaysError::CertParse { host, port, message } => {
                let mut r = String::from_str("failed to parse certificate from ");
                let ep = endpoint(host.as_str(), *port);
                r.append(ep.as_str());
                r.append(": ");
                r.append(message.as_str());
                r
            },
            TlsdaysError::Clock { host, port } => {
                let mut r = String::from_str("cannot count the days left for ");
                let ep = endpoint(host.as_str(), *port);
                r.append(ep.as_str());
                r.append(": the system clock reads a time that chrono cannot represent");
                r
            },
            TlsdaysError::Argument(m) => {
                let mut r = String::from_str("invalid argument: ");
                r.append(m.as_str());
                r
            },
        }
    }
}

} // verus!
