//! The decisions of checking one host: resolving it, connecting to its
//! addresses in turn, the TLS handshake, and reading the leaf certificate.
//! The caller performs each action that a step asks for (resolving,
//! connecting, handshaking) and hands back what came of it.
use vstd::prelude::*;

use rustls::pki_types::ServerName;

use crate::cert::{cert_result_view, parse_cert_der, parse_cert_der_ensures, CertInfo};
use crate::error::{ErrorView, IoKind, TlsdaysError};
use crate::host::argument_with;

verus! {

/// Whether `rustls` takes `host` as the name of a TLS server
/// (`ServerName::try_from` succeeds: a DNS name or an IP address).
pub uninterp spec fn server_name_valid(host: Seq<char>) -> bool;

/// `rustls::pki_types::ServerName::try_from(host.to_string())`, reduced to
/// whether it succeeds; the result is the name `server_name_valid`.
#[verifier::external_body]
fn server_name_accepted(host: &str) -> (r: bool)
    ensures
        r == server_name_valid(host@),
{
    ServerName::try_from(host.to_string()).is_ok()
}

/// What came of connecting to one address within the time allowed.
pub enum ConnectOutcome {
    Connected,
    /// The connection failed, with the kind of the error and its text.
    Failed(IoKind, String),
    TimedOut,
}

/// What came of the TLS handshake within the time allowed.
pub enum HandshakeOutcome {
    /// The session was established; the DER certificates that the peer
    /// presented, leaf first, when it presented any.
    Established(Option<Vec<Vec<u8>>>),
    /// The handshake failed, with the reason as text.
    Failed(String),
    TimedOut,
}

/// What the caller hands back after performing an action.
pub enum CheckEvent {
    /// The host was resolved to this many addresses, or resolving failed
    /// with this kind of error and its text.
    Resolved(Result<usize, (IoKind, String)>),
    /// The task that resolves the host failed, with the reason as text.
    ResolveTaskFailed(String),
    Connect(ConnectOutcome),
    Handshake(HandshakeOutcome),
}

/// What the caller is to do next.
pub enum CheckAction {
    /// Resolve the host and port to socket addresses.
    Resolve,
    /// Connect to the address at this position of the resolved list.
    Connect(usize),
    /// Perform the TLS handshake on the connection just made, with the host
    /// as server name.
    Handshake,
    /// The check is over, with this result.
    Done(Result<CertInfo, TlsdaysError>),
}

/// Where a check stands.
#[derive(Debug, Clone, Copy, PartialEq, Eq, Structural)]
pub enum CheckPhase {
    Resolving,
    Connecting { addresses: usize, index: usize },
    Handshaking { addresses: usize, index: usize },
    Finished,
}

/// The check of one host.
pub struct HostCheck {
    pub host: String,
    pub port: u16,
    pub phase: CheckPhase,
}

/// What came of a connection attempt, as a mathematical value.
pub enum ConnectView {
    Connected,
    Failed(IoKind, Seq<char>),
    TimedOut,
}

/// What came of a handshake, as a mathematical value.
pub enum HandshakeView {
    Established(Option<Seq<Seq<u8>>>),
    Failed(Seq<char>),
    TimedOut,
}

/// An event as a mathematical value.
pub enum EventView {
    Resolved(Result<usize, (IoKind, Seq<char>)>),
    ResolveTaskFailed(Seq<char>),
    Connect(ConnectView),
    Handshake(HandshakeView),
}

impl View for CheckEvent {
    type V = EventView;

    open spec fn view(&self) -> EventView {
        match self {
            CheckEvent::Resolved(Ok(n)) => EventView::Resolved(Ok(*n)),
            CheckEvent::Resolved(Err((k, m))) => EventView::Resolved(Err((*k, m@))),
            CheckEvent::ResolveTaskFailed(m) => EventView::ResolveTaskFailed(m@),
            CheckEvent::Connect(ConnectOutcome::Connected) => EventView::Connect(
                ConnectView::Connected,
            ),
            CheckEvent::Connect(ConnectOutcome::Failed(k, m)) => EventView::Connect(
                ConnectView::Failed(*k, m@),
            ),
            CheckEvent::Connect(ConnectOutcome::TimedOut) => EventView::Connect(
                ConnectView::TimedOut,
            ),
            CheckEvent::Handshake(HandshakeOutcome::Established(None)) => EventView::Handshake(
                HandshakeView::Established(None),
            ),
            CheckEvent::Handshake(HandshakeOutcome::Established(Some(certs))) => EventView::Handshake(
                HandshakeView::Established(Some(certs@.map_values(|c: Vec<u8>| c@))),
            ),
            CheckEvent::Handshake(HandshakeOutcome::Failed(m)) => EventView::Handshake(
                HandshakeView::Failed(m@),
            ),
            CheckEvent::Handshake(HandshakeOutcome::TimedOut) => EventView::Handshake(
                HandshakeView::TimedOut,
            ),
        }
    }
}

/// What a step asks for, as a mathematical value: an action, a failure, or
/// the report of the leaf certificate with these DER bytes.
pub enum ActionView {
    Resolve,
    Connect(usize),
    Handshake,
    Fail(ErrorView),
    ReportLeaf(Seq<u8>),
}

/// Whether `phase` waits for `event`.
pub open spec fn expects(phase: CheckPhase, event: EventView) -> bool {
    match phase {
        CheckPhase::Resolving => event is Resolved || event is ResolveTaskFailed,
        CheckPhase::Connecting { addresses, index } => index < addresses && event is Connect,
        CheckPhase::Handshaking { addresses, index } => index < addresses && event is Handshake,
        CheckPhase::Finished => false,
    }
}

/// The phase after `event` and what the caller is to do next. (Events that
/// the phase does not wait for, see [`expects`], leave it as it is.)
pub open spec fn step_spec(host: Seq<char>, port: u16, phase: CheckPhase, event: EventView) -> (
    CheckPhase,
    ActionView,
) {
    match (phase, event) {
        (CheckPhase::Resolving, EventView::Resolved(Err((k, m)))) => (
            CheckPhase::Finished,
            ActionView::Fail(ErrorView::Resolve { host, kind: k, source: m }),
        ),
        (CheckPhase::Resolving, EventView::ResolveTaskFailed(m)) => (
            CheckPhase::Finished,
            ActionView::Fail(ErrorView::Argument("resolve task failed: "@ + m)),
        ),
        (CheckPhase::Resolving, EventView::Resolved(Ok(n))) => if n == 0 {
            (
                CheckPhase::Finished,
                ActionView::Fail(
                    ErrorView::Resolve {
                        host,
                        kind: IoKind::NotFound,
                        source: "no addresses resolved"@,
                    },
                ),
            )
        } else if !server_name_valid(host) {
            (
                CheckPhase::Finished,
                ActionView::Fail(
                    ErrorView::Argument("invalid DNS name for TLS SNI: "@ + host),
                ),
            )
        } else {
            (CheckPhase::Connecting { addresses: n, index: 0 }, ActionView::Connect(0))
        },
        (
            CheckPhase::Connecting { addresses, index },
            EventView::Connect(ConnectView::Connected),
        ) => (CheckPhase::Handshaking { addresses, index }, ActionView::Handshake),
        (
            CheckPhase::Connecting { addresses, index },
            EventView::Connect(ConnectView::Failed(k, m)),
        ) => if index + 1 < addresses {
            (
                CheckPhase::Connecting { addresses, index: (index + 1) as usize },
                ActionView::Connect((index + 1) as usize),
            )
        } else {
            (
                CheckPhase::Finished,
                ActionView::Fail(ErrorView::Tcp { host, port, kind: k, source: m }),
            )
        },
        (CheckPhase::Connecting { .. }, EventView::Connect(ConnectView::TimedOut)) => (
            CheckPhase::Finished,
            ActionView::Fail(
                ErrorView::Tcp {
                    host,
                    port,
                    kind: IoKind::TimedOut,
                    source: "connection timed out"@,
                },
            ),
        ),
        (CheckPhase::Handshaking { .. }, EventView::Handshake(HandshakeView::Failed(m))) => (
            CheckPhase::Finished,
            ActionView::Fail(ErrorView::Tls { host, port, message: m }),
        ),
        (CheckPhase::Handshaking { .. }, EventView::Handshake(HandshakeView::TimedOut)) => (
            CheckPhase::Finished,
            ActionView::Fail(ErrorView::Tls { host, port, message: "tls handshake timed out"@ }),
        ),
        (
            CheckPhase::Handshaking { .. },
            EventView::Handshake(HandshakeView::Established(certs)),
        ) => match certs {
            None => (
                CheckPhase::Finished,
                ActionView::Fail(
                    ErrorView::Tls { host, port, message: "no peer certificates presented"@ },
                ),
            ),
            Some(cs) => if cs.len() == 0 {
                (
                    CheckPhase::Finished,
                    ActionView::Fail(
                        ErrorView::Tls { host, port, message: "empty peer certificate chain"@ },
                    ),
                )
            } else {
                (CheckPhase::Finished, ActionView::ReportLeaf(cs[0]))
            },
        },
        _ => (phase, ActionView::Resolve),
    }
}

/// Whether `action` is what `a` asks for, for the host `host:port`.
pub open spec fn action_matches(host: Seq<char>, port: u16, action: CheckAction, a: ActionView) -> bool {
    match (action, a) {
        (CheckAction::Resolve, ActionView::Resolve) => true,
        (CheckAction::Connect(i), ActionView::Connect(j)) => i == j,
        (CheckAction::Handshake, ActionView::Handshake) => true,
        (CheckAction::Done(Err(e)), ActionView::Fail(x)) => e@ == x,
        (CheckAction::Done(r), ActionView::ReportLeaf(der)) => parse_cert_der_ensures(
            host,
            port,
            der,
            cert_result_view(r),
        ),
        _ => false,
    }
}

/// A measure of the work left: every step that does not finish lowers it.
pub open spec fn work_left(phase: CheckPhase) -> int {
    match phase {
        CheckPhase::Resolving => usize::MAX as int * 2 + 3,
        CheckPhase::Connecting { addresses, index } => (addresses - index) * 2 + 1,
        CheckPhase::Handshaking { addresses, index } => (addresses - index) * 2,
        CheckPhase::Finished => 0,
    }
}

/// A TLS error of `host:port` with a fixed message.
fn tls_error(host: &String, port: u16, message: &str) -> (r: TlsdaysError)
    ensures
        r@ == (ErrorView::Tls { host: host@, port, message: message@ }),
{
    TlsdaysError::Tls { host: host.clone(), port, message: String::from_str(message) }
}

impl HostCheck {
    /// A check of `host:port` that starts by resolving it.
    pub fn new(host: &str, port: u16) -> (r: HostCheck)
        ensures
            r.host@ == host@,
            r.port == port,
            r.phase == CheckPhase::Resolving,
    {
        HostCheck { host: String::from_str(host), port, phase: CheckPhase::Resolving }
    }

    /// Whether the check waits for `event`.
    pub fn accepts(&self, event: &CheckEvent) -> (r: bool)
        ensures
            r == expects(self.phase, event@),
    {
        match self.phase {
            CheckPhase::Resolving => match event {
                CheckEvent::Resolved(_) | CheckEvent::ResolveTaskFailed(_) => true,
                _ => false,
            },
            CheckPhase::Connecting { addresses, index } => index < addresses && match event {
                CheckEvent::Connect(_) => true,
                _ => false,
            },
            CheckPhase::Handshaking { addresses, index } => index < addresses && match event {
                CheckEvent::Handshake(_) => true,
                _ => false,
            },
            CheckPhase::Finished => false,
        }
    }

    /// Takes what came of the last action and says what to do next.
    pub fn step(&mut self, event: CheckEvent) -> (r: CheckAction)
        requires
            expects(old(self).phase, event@),
        ensures
            final(self).host == old(self).host,
            final(self).port == old(self).port,
            final(self).phase == step_spec(old(self).host@, old(self).port, old(self).phase, event@).0,
            action_matches(
                old(self).host@,
                old(self).port,
                r,
                step_spec(old(self).host@, old(self).port, old(self).phase, event@).1,
            ),
            event matches CheckEvent::Handshake(HandshakeOutcome::Established(Some(cs))) ==> (
                cs.len() == 0 || (r matches CheckAction::Done(res) && parse_cert_der_ensures(
                    old(self).host@,
                    old(self).port,
                    cs@[0]@,
                    cert_result_view(res),
                ))),
    {
        match (self.phase, event) {
            (CheckPhase::Resolving, CheckEvent::Resolved(Err((kind, m)))) => {
                self.phase = CheckPhase::Finished;
                CheckAction::Done(
                    Err(TlsdaysError::Resolve { host: self.host.clone(), kind, source: m }),
                )
            },
            (CheckPhase::Resolving, CheckEvent::ResolveTaskFailed(m)) => {
                self.phase = CheckPhase::Finished;
                CheckAction::Done(Err(argument_with("resolve task failed: ", m.as_str())))
            },
            (CheckPhase::Resolving, CheckEvent::Resolved(Ok(n))) => {
                if n == 0 {
                    self.phase = CheckPhase::Finished;
                    CheckAction::Done(
                        Err(
                            TlsdaysError::Resolve {
                                host: self.host.clone(),
                                kind: IoKind::NotFound,
                                source: String::from_str("no addresses resolved"),
                            },
                        ),
                    )
                } else if !server_name_accepted(self.host.as_str()) {
                    self.phase = CheckPhase::Finished;
                    CheckAction::Done(
                        Err(
                            argument_with(
                                "invalid DNS name for TLS SNI: ",
                                self.host.as_str(),
                            ),
                        ),
                    )
                } else {
                    self.phase = CheckPhase::Connecting { addresses: n, index: 0 };
                    CheckAction::Connect(0)
                }
            },
            (
                CheckPhase::Connecting { addresses, index },
                CheckEvent::Connect(ConnectOutcome::Connected),
            ) => {
                self.phase = CheckPhase::Handshaking { addresses, index };
                CheckAction::Handshake
            },
            (
                CheckPhase::Connecting { addresses, index },
                CheckEvent::Connect(ConnectOutcome::Failed(kind, m)),
            ) => {
                if index + 1 < addresses {
                    self.phase = CheckPhase::Connecting { addresses, index: index + 1 };
                    CheckAction::Connect(index + 1)
                } else {
                    self.phase = CheckPhase::Finished;
                    CheckAction::Done(
                        Err(
                            TlsdaysError::Tcp {
                                host: self.host.clone(),
                                port: self.port,
                                kind,
                                source: m,
                            },
                        ),
                    )
                }
            },
            (CheckPhase::Connecting { .. }, CheckEvent::Connect(ConnectOutcome::TimedOut)) => {
                self.phase = CheckPhase::Finished;
                CheckAction::Done(
                    Err(
                        TlsdaysError::Tcp {
                            host: self.host.clone(),
                            port: self.port,
                            kind: IoKind::TimedOut,
                            source: String::from_str("connection timed out"),
                        },
                    ),
                )
            },
            (
                CheckPhase::Handshaking { .. },
                CheckEvent::Handshake(HandshakeOutcome::Failed(m)),
            ) => {
                self.phase = CheckPhase::Finished;
                CheckAction::Done(
                    Err(TlsdaysError::Tls { host: self.host.clone(), port: self.port, message: m }),
                )
            },
            (CheckPhase::Handshaking { .. }, CheckEvent::Handshake(HandshakeOutcome::TimedOut)) => {
                self.phase = CheckPhase::Finished;
                CheckAction::Done(Err(tls_error(&self.host, self.port, "tls handshake timed out")))
            },
            (
                CheckPhase::Handshaking { .. },
                CheckEvent::Handshake(HandshakeOutcome::Established(certs)),
            ) => {
                self.phase = CheckPhase::Finished;
                match certs {
                    None => CheckAction::Done(
                        Err(tls_error(&self.host, self.port, "no peer certificates presented")),
                    ),
                    Some(cs) => {
                        if cs.len() == 0 {
                            CheckAction::Done(
                                Err(tls_error(&self.host, self.port, "empty peer certificate chain")),
                            )
                        } else {
                            assert(cs@.map_values(|c: Vec<u8>| c@)[0] == cs@[0]@);
                            CheckAction::Done(
                                parse_cert_der(self.host.as_str(), self.port, cs[0].as_slice()),
                            )
                        }
                    },
                }
            },
            _ => {
                assert(false);
                CheckAction::Resolve
            },
        }
    }
}

/// Law: every step that the check waits for either finishes it or lowers
/// the work left, so a check of a host always ends.
pub proof fn law_check_ends(host: Seq<char>, port: u16, phase: CheckPhase, event: EventView)
    requires
        expects(phase, event),
    ensures
        step_spec(host, port, phase, event).0 == CheckPhase::Finished || 0 <= work_left(
            step_spec(host, port, phase, event).0,
        ) < work_left(phase),
        step_spec(host, port, phase, event).0 == CheckPhase::Finished || expects(
            step_spec(host, port, phase, event).0,
            EventView::Connect(ConnectView::TimedOut),
        ) || expects(
            step_spec(host, port, phase, event).0,
            EventView::Handshake(HandshakeView::TimedOut),
        ),
{
}

/// Law: when the handshake is established and the server presents a
/// non-empty chain, the check ends by reporting the first certificate of the
/// chain, the leaf, whatever follows it (intermediate CA certificates).
pub proof fn law_leaf_is_first(
    host: Seq<char>,
    port: u16,
    addresses: usize,
    index: usize,
    chain: Seq<Seq<u8>>,
)
    requires
        index < addresses,
        chain.len() > 0,
    ensures
        step_spec(
            host,
            port,
            CheckPhase::Handshaking { addresses, index },
            EventView::Handshake(HandshakeView::Established(Some(chain))),
        ) == (CheckPhase::Finished, ActionView::ReportLeaf(chain[0])),
        forall|rest: Seq<Seq<u8>>|
            #[trigger] step_spec(
                host,
                port,
                CheckPhase::Handshaking { addresses, index },
                EventView::Handshake(HandshakeView::Established(Some(chain + rest))),
            ) == step_spec(
                host,
                port,
                CheckPhase::Handshaking { addresses, index },
                EventView::Handshake(HandshakeView::Established(Some(chain))),
            ),
{
    assert forall|rest: Seq<Seq<u8>>|
        #[trigger] step_spec(
            host,
            port,
            CheckPhase::Handshaking { addresses, index },
            EventView::Handshake(HandshakeView::Established(Some(chain + rest))),
        ) == (CheckPhase::Finished, ActionView::ReportLeaf(chain[0])) by {
        assert((chain + rest)[0] == chain[0]);
    }
}

} // verus!
