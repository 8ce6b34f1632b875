//! Days until TLS certificates expire: host entry parsing, certificate field
//! extraction, the per-host check decisions, report formatting and the exit
//! status, each with its contract.
pub mod cert;
pub mod check;
pub mod clock;
pub mod error;
pub mod host;
pub mod output;
pub mod text;

pub use cert::{parse_cert_der, CertInfo};
pub use check::{CheckAction, CheckEvent, HostCheck};
pub use clock::Timestamp;
pub use error::TlsdaysError;
pub use host::{collect_hosts, parse_host_entry, HostTarget};
pub use output::{exit_code, FormatKind, HostRecord, JsonlFormatter, TableFormatter, TextFormatter};
