//! What is read from a server's leaf certificate: its validity period, the
//! whole days left until it ends, and its subject and issuer names.
use vstd::prelude::*;

use time::OffsetDateTime;
use x509_parser::certificate::X509Certificate;
use x509_parser::prelude::FromDer;
use x509_parser::x509::X509Name;

use crate::clock::{chrono_accepts, days_between, valid_instant, Timestamp};
use crate::error::{ErrorView, TlsdaysError};

verus! {

/// A time of a certificate as `x509-parser` gives it: Unix seconds,
/// nanoseconds within the second, and its text (`time::OffsetDateTime` as
/// `Display` writes it).
#[derive(Debug, Clone)]
pub struct DerTime {
    pub unix_secs: i64,
    pub nanos: u32,
    pub text: String,
}

/// The mathematical value of a [`DerTime`].
pub struct DerTimeView {
    pub unix_secs: i64,
    pub nanos: u32,
    pub text: Seq<char>,
}

impl View for DerTime {
    type V = DerTimeView;

    open spec fn view(&self) -> DerTimeView {
        DerTimeView { unix_secs: self.unix_secs, nanos: self.nanos, text: self.text@ }
    }
}

/// The fields of a certificate that the check reads: the validity period, the
/// common names of the subject and of the issuer (each as text, or `None` when
/// it is not a string), and the issuer's distinguished name as text.
#[derive(Debug, Clone)]
pub struct CertFields {
    pub not_before: DerTime,
    pub not_after: DerTime,
    pub subject_common_names: Vec<Option<String>>,
    pub issuer_common_names: Vec<Option<String>>,
    pub issuer_name: String,
}

/// The mathematical value of [`CertFields`].
pub struct CertFieldsView {
    pub not_before: DerTimeView,
    pub not_after: DerTimeView,
    pub subject_common_names: Seq<Option<Seq<char>>>,
    pub issuer_common_names: Seq<Option<Seq<char>>>,
    pub issuer_name: Seq<char>,
}

/// Optional texts as mathematical values.
pub open spec fn names_view(v: Seq<Option<String>>) -> Seq<Option<Seq<char>>> {
    v.map_values(
        |o: Option<String>|
            match o {
                Some(s) => Some(s@),
                None => None,
            },
    )
}

impl View for CertFields {
    type V = CertFieldsView;

    open spec fn view(&self) -> CertFieldsView {
        CertFieldsView {
            not_before: self.not_before@,
            not_after: self.not_after@,
            subject_common_names: names_view(self.subject_common_names@),
            issuer_common_names: names_view(self.issuer_common_names@),
            issuer_name: self.issuer_name@,
        }
    }
}

/// What `x509-parser` reads from the DER bytes of a certificate: its fields,
/// or the text of the parse error.
pub uninterp spec fn x509_fields(der: Seq<u8>) -> Result<CertFieldsView, Seq<char>>;

/// A result of [`read_certificate`] as mathematical values.
pub open spec fn fields_result_view(r: Result<CertFields, String>) -> Result<CertFieldsView, Seq<char>> {
    match r {
        Ok(f) => Ok(f@),
        Err(m) => Err(m@),
    }
}

/// `X509Certificate::from_der` of `x509-parser`, with the fields that the
/// check reads converted to plain values: `validity().not_before` and
/// `not_after` through `ASN1Time::to_datetime` as `time::OffsetDateTime`
/// (`unix_timestamp`, `nanosecond`, `to_string`), the common names of
/// `subject()` and `issuer()` through `iter_common_name` and
/// `AttributeTypeAndValue::as_str`, and `issuer().to_string()`. A parse error
/// becomes its text. The result is the name `x509_fields`; besides it, the
/// nanoseconds are below one billion, as `OffsetDateTime::nanosecond`
/// documents.
#[verifier::external_body]
fn read_certificate(der: &[u8]) -> (r: Result<CertFields, String>)
    ensures
        fields_result_view(r) == x509_fields(der@),
        r matches Ok(f) ==> f.not_before.nanos < 1_000_000_000 && f.not_after.nanos
            < 1_000_000_000,
{
    match X509Certificate::from_der(der) {
        Err(e) => Err(e.to_string()),
        Ok((_, c)) => {
            let v = c.validity();
            let t = |d: OffsetDateTime| DerTime { unix_secs: d.unix_timestamp(), nanos: d.nanosecond(), text: d.to_string() };
            let names = |n: &X509Name| n.iter_common_name().map(|a| a.as_str().ok().map(String::from)).collect();
            Ok(CertFields {
                not_before: t(v.not_before.to_datetime()),
                not_after: t(v.not_after.to_datetime()),
                subject_common_names: names(c.subject()),
                issuer_common_names: names(c.issuer()),
                issuer_name: c.issuer().to_string(),
            })
        },
    }
}

/// The certificate of a host: where it was checked, the whole days until it
/// expires, its validity period, its subject common name and its issuer.
#[derive(Debug, Clone, PartialEq, Eq)]
pub struct CertInfo {
    pub host: String,
    pub port: u16,
    pub days_until_expiry: i64,
    pub not_before: Timestamp,
    pub not_after: Timestamp,
    pub subject_cn: String,
    pub issuer: String,
}

/// The mathematical value of a [`CertInfo`].
pub struct CertInfoView {
    pub host: Seq<char>,
    pub port: u16,
    pub days_until_expiry: int,
    pub not_before: (i64, u32),
    pub not_after: (i64, u32),
    pub subject_cn: Seq<char>,
    pub issuer: Seq<char>,
}

impl View for CertInfo {
    type V = CertInfoView;

    open spec fn view(&self) -> CertInfoView {
        CertInfoView {
            host: self.host@,
            port: self.port,
            days_until_expiry: self.days_until_expiry as int,
            not_before: self.not_before@,
            not_after: self.not_after@,
            subject_cn: self.subject_cn@,
            issuer: self.issuer@,
        }
    }
}

/// A certificate result as mathematical values.
pub open spec fn cert_result_view(r: Result<CertInfo, TlsdaysError>) -> Result<CertInfoView, ErrorView> {
    match r {
        Ok(c) => Ok(c@),
        Err(e) => Err(e@),
    }
}

/// The first name that is text.
pub open spec fn first_text(s: Seq<Option<Seq<char>>>) -> Option<Seq<char>>
    decreases s.len(),
{
    if s.len() == 0 {
        None
    } else {
        match first_text(s.drop_last()) {
            Some(t) => Some(t),
            None => s.last(),
        }
    }
}

/// The subject common name: the first one that is text, or empty.
pub open spec fn subject_cn_spec(f: CertFieldsView) -> Seq<char> {
    match first_text(f.subject_common_names) {
        Some(t) => t,
        None => Seq::empty(),
    }
}

/// The issuer: its first common name that is text, or else its distinguished name.
pub open spec fn issuer_spec(f: CertFieldsView) -> Seq<char> {
    match first_text(f.issuer_common_names) {
        Some(t) => t,
        None => f.issuer_name,
    }
}

/// The certificate error for `host:port` with message `m`.
pub open spec fn cert_parse_error(host: Seq<char>, port: u16, m: Seq<char>) -> ErrorView {
    ErrorView::CertParse { host, port, message: m }
}

/// What the check reports of a certificate with fields `f` at the instant
/// `now`: refused when `chrono` does not represent one of its validity times,
/// else its validity period, the whole days from `now` to its end, its
/// subject common name and its issuer.
pub open spec fn cert_info_spec(host: Seq<char>, port: u16, f: CertFieldsView, now: (i64, u32)) -> Result<
    CertInfoView,
    ErrorView,
> {
    let nb = f.not_before;
    let na = f.not_after;
    if !chrono_accepts(nb.unix_secs, nb.nanos) {
        Err(
            cert_parse_error(
                host,
                port,
                "invalid not_before: "@ + "invalid timestamp: "@ + nb.text,
            ),
        )
    } else if !chrono_accepts(na.unix_secs, na.nanos) {
        Err(cert_parse_error(host, port, "invalid not_after: "@ + "invalid timestamp: "@ + na.text))
    } else {
        Ok(
            CertInfoView {
                host,
                port,
                days_until_expiry: days_between((na.unix_secs, na.nanos), now),
                not_before: (nb.unix_secs, nb.nanos),
                not_after: (na.unix_secs, na.nanos),
                subject_cn: subject_cn_spec(f),
                issuer: issuer_spec(f),
            },
        )
    }
}

/// The first of `names` that is text.
fn first_name(names: &Vec<Option<String>>) -> (r: Option<String>)
    ensures
        match r {
            Some(s) => first_text(names_view(names@)) == Some(s@),
            None => first_text(names_view(names@)) is None,
        },
{
    let ghost v = names_view(names@);
    let mut i: usize = 0;
    assert(v.subrange(0, 0) =~= Seq::<Option<Seq<char>>>::empty());
    while i < names.len()
        invariant
            i <= names.len(),
            v == names_view(names@),
            first_text(v.subrange(0, i as int)) is None,
        decreases names.len() - i,
    {
        assert(v.subrange(0, i + 1).drop_last() =~= v.subrange(0, i as int));
        if let Some(s) = &names[i] {
            proof {
                lemma_first_text_prefix(v, i as int);
            }
            return Some(s.clone());
        }
        i = i + 1;
    }
    assert(v.subrange(0, names.len() as int) =~= v);
    None
}

/// A text found first in a prefix is the first text of the whole.
proof fn lemma_first_text_prefix(s: Seq<Option<Seq<char>>>, i: int)
    requires
        0 <= i < s.len(),
        s[i] is Some,
        first_text(s.subrange(0, i)) is None,
    ensures
        first_text(s) == s[i],
    decreases s.len() - i,
{
    if i + 1 < s.len() {
        assert(s.drop_last().subrange(0, i) =~= s.subrange(0, i));
        lemma_first_text_prefix(s.drop_last(), i);
    } else {
        assert(s.drop_last() =~= s.subrange(0, i));
    }
}

/// The certificate error for `host:port` with message `prefix` + `text`.
fn cert_error(host: &str, port: u16, prefix: &str, text: &str) -> (r: TlsdaysError)
    ensures
        r@ == cert_parse_error(host@, port, prefix@ + "invalid timestamp: "@ + text@),
{
    let mut m = String::from_str(prefix);
    m.append("invalid timestamp: ");
    m.append(text);
    TlsdaysError::CertParse { host: String::from_str(host), port, message: m }
}

/// Whether `chrono` represents both validity times of `f`.
pub open spec fn dates_representable(f: CertFieldsView) -> bool {
    chrono_accepts(f.not_before.unix_secs, f.not_before.nanos) && chrono_accepts(
        f.not_after.unix_secs,
        f.not_after.nanos,
    )
}

/// The validity times of `fields` as instants, or the error of the first one
/// that `chrono` does not represent (an error that does not depend on the
/// instant the certificate is read at).
fn validity_times(host: &str, port: u16, fields: &CertFields) -> (r: Result<
    (Timestamp, Timestamp),
    TlsdaysError,
>)
    requires
        fields.not_before.nanos < 1_000_000_000,
        fields.not_after.nanos < 1_000_000_000,
    ensures
        r is Ok <==> dates_representable(fields@),
        r matches Ok(p) ==> p.0@ == (fields.not_before.unix_secs, fields.not_before.nanos) && p.1@
            == (fields.not_after.unix_secs, fields.not_after.nanos),
        r matches Err(e) ==> forall|now: (i64, u32)|
            #[trigger] cert_info_spec(host@, port, fields@, now) == Err::<CertInfoView, ErrorView>(
                e@,
            ),
{
    let not_before = match Timestamp::from_unix(fields.not_before.unix_secs, fields.not_before.nanos) {
        Some(t) => t,
        None => {
            return Err(
                cert_error(host, port, "invalid not_before: ", fields.not_before.text.as_str()),
            );
        },
    };
    let not_after = match Timestamp::from_unix(fields.not_after.unix_secs, fields.not_after.nanos) {
        Some(t) => t,
        None => {
            return Err(
                cert_error(host, port, "invalid not_after: ", fields.not_after.text.as_str()),
            );
        },
    };
    Ok((not_before, not_after))
}

/// What the check reports of a certificate with fields `fields` and validity
/// instants `not_before` and `not_after`, read at the instant `now`.
fn cert_info_with(
    host: &str,
    port: u16,
    fields: &CertFields,
    not_before: Timestamp,
    not_after: Timestamp,
    now: &Timestamp,
) -> (r: CertInfo)
    requires
        dates_representable(fields@),
        not_before@ == (fields.not_before.unix_secs, fields.not_before.nanos),
        not_after@ == (fields.not_after.unix_secs, fields.not_after.nanos),
    ensures
        cert_info_spec(host@, port, fields@, now@) == Ok::<CertInfoView, ErrorView>(r@),
{
    let days_until_expiry = not_after.days_since(now);
    let subject_cn = match first_name(&fields.subject_common_names) {
        Some(s) => s,
        None => String::new(),
    };
    let issuer = match first_name(&fields.issuer_common_names) {
        Some(s) => s,
        None => fields.issuer_name.clone(),
    };
    CertInfo {
        host: String::from_str(host),
        port,
        days_until_expiry,
        not_before,
        not_after,
        subject_cn,
        issuer,
    }
}

/// What the check reports of a certificate with fields `fields`, read at the
/// instant `now`. The nanoseconds of the validity times are within the second,
/// as `time::OffsetDateTime` keeps them.
pub fn cert_info_from_fields(host: &str, port: u16, fields: &CertFields, now: &Timestamp) -> (r:
    Result<CertInfo, TlsdaysError>)
    requires
        fields.not_before.nanos < 1_000_000_000,
        fields.not_after.nanos < 1_000_000_000,
    ensures
        cert_result_view(r) == cert_info_spec(host@, port, fields@, now@),
{
    match validity_times(host, port, fields) {
        Err(e) => Err(e),
        Ok((not_before, not_after)) => Ok(
            cert_info_with(host, port, fields, not_before, not_after, now),
        ),
    }
}

/// The error for a host whose certificate was read when the system clock
/// gave no instant that `chrono` represents.
pub open spec fn clock_error(host: Seq<char>, port: u16) -> ErrorView {
    ErrorView::Clock { host, port }
}

/// What `parse_cert_der` reports of the certificate `der` for `host:port`:
/// the parse error; the error of a validity time that `chrono` does not
/// represent (which [`cert_info_spec`] gives at every instant, here taken at
/// the epoch); else either the clock error, when the system clock gave no
/// instant that `chrono` represents, or what [`cert_info_spec`] gives at some
/// instant that `chrono` represents (the current one, which nothing here fixes).
pub open spec fn parse_cert_der_ensures(host: Seq<char>, port: u16, der: Seq<u8>, r: Result<
    CertInfoView,
    ErrorView,
>) -> bool {
    match x509_fields(der) {
        Err(m) => r == Err::<CertInfoView, ErrorView>(cert_parse_error(host, port, m)),
        Ok(f) => if !dates_representable(f) {
            r == cert_info_spec(host, port, f, (0, 0))
        } else {
            r == Err::<CertInfoView, ErrorView>(clock_error(host, port)) || exists|now: (i64, u32)|
                valid_instant(now.0, now.1) && r == #[trigger] cert_info_spec(host, port, f, now)
        },
    }
}

/// Reads the DER bytes of the leaf certificate of `host:port` and reports it
/// as of now, reading the clock once both validity times are known good.
pub fn parse_cert_der(host: &str, port: u16, der: &[u8]) -> (r: Result<CertInfo, TlsdaysError>)
    ensures
        parse_cert_der_ensures(host@, port, der@, cert_result_view(r)),
{
    match read_certificate(der) {
        Err(m) => Err(TlsdaysError::CertParse { host: String::from_str(host), port, message: m }),
        Ok(fields) => {
            let (not_before, not_after) = match validity_times(host, port, &fields) {
                Ok(p) => p,
                Err(e) => {
                    assert(cert_info_spec(host@, port, fields@, (0, 0)) == Err::<
                        CertInfoView,
                        ErrorView,
                    >(e@));
                    return Err(e);
                },
            };
            match Timestamp::now() {
                None => Err(TlsdaysError::Clock { host: String::from_str(host), port }),
                Some(now) => {
                    let info = cert_info_with(host, port, &fields, not_before, not_after, &now);
                    assert(valid_instant(now@.0, now@.1) && cert_result_view(Ok(info))
                        == cert_info_spec(host@, port, fields@, now@));
                    Ok(info)
                },
            }
        },
    }
}

} // verus!
