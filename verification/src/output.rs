//! The per-host records of a run, the text of the `table` and `text` output
//! formats, the framing of `jsonl` lines, and the exit status of a run.
use vstd::prelude::*;

use crate::cert::CertInfo;
use crate::clock::{rfc3339_text, Timestamp};
use crate::error::{error_text, TlsdaysError};
use crate::host::HostTarget;
use crate::text::{
    all_digits, decimal, digits_value, i64_decimal, lemma_decimal_digits, pad_end, pad_end_spec,
    pad_start, pad_start_spec, signed_decimal, u64_decimal,
};

verus! {

/// An output format.
#[derive(Debug, Clone, Copy, PartialEq, Eq, Structural)]
pub enum FormatKind {
    Jsonl,
    Table,
    Text,
}

/// The format that a `--format` value names.
pub open spec fn format_kind_spec(s: Seq<char>) -> Option<FormatKind> {
    if s == "jsonl"@ {
        Some(FormatKind::Jsonl)
    } else if s == "table"@ {
        Some(FormatKind::Table)
    } else if s == "text"@ {
        Some(FormatKind::Text)
    } else {
        None
    }
}

impl FormatKind {
    /// The format that `s` names: `jsonl`, `table` or `text`.
    pub fn parse(s: &str) -> (r: Option<FormatKind>)
        ensures
            r == format_kind_spec(s@),
    {
        let given = String::from_str(s);
        if given == String::from_str("jsonl") {
            Some(FormatKind::Jsonl)
        } else if given == String::from_str("table") {
            Some(FormatKind::Table)
        } else if given == String::from_str("text") {
            Some(FormatKind::Text)
        } else {
            None
        }
    }
}

/// What the run reports of one host: the certificate's fields when the
/// check succeeded, the error's text when it failed.
#[derive(Debug, Clone)]
pub struct HostRecord {
    pub host: String,
    pub port: u16,
    pub days_until_expiry: Option<i64>,
    pub not_before: Option<Timestamp>,
    pub not_after: Option<Timestamp>,
    pub subject_cn: Option<String>,
    pub issuer: Option<String>,
    pub error: Option<String>,
}

/// The mathematical value of a [`HostRecord`].
pub struct HostRecordView {
    pub host: Seq<char>,
    pub port: u16,
    pub days_until_expiry: Option<i64>,
    pub not_before: Option<(i64, u32)>,
    pub not_after: Option<(i64, u32)>,
    pub subject_cn: Option<Seq<char>>,
    pub issuer: Option<Seq<char>>,
    pub error: Option<Seq<char>>,
}

/// An optional text as a mathematical value.
pub open spec fn opt_text(o: Option<String>) -> Option<Seq<char>> {
    match o {
        Some(s) => Some(s@),
        None => None,
    }
}

/// An optional instant as a mathematical value.
pub open spec fn opt_instant(o: Option<Timestamp>) -> Option<(i64, u32)> {
    match o {
        Some(t) => Some(t@),
        None => None,
    }
}

impl View for HostRecord {
    type V = HostRecordView;

    open spec fn view(&self) -> HostRecordView {
        HostRecordView {
            host: self.host@,
            port: self.port,
            days_until_expiry: self.days_until_expiry,
            not_before: opt_instant(self.not_before),
            not_after: opt_instant(self.not_after),
            subject_cn: opt_text(self.subject_cn),
            issuer: opt_text(self.issuer),
            error: opt_text(self.error),
        }
    }
}

/// An optional text copied.
fn copy_text(o: &Option<String>) -> (r: Option<String>)
    ensures
        opt_text(r) == opt_text(*o),
{
    match o {
        Some(s) => Some(s.clone()),
        None => None,
    }
}

impl HostRecord {
    /// The record of a host whose certificate was read.
    pub fn success(info: &CertInfo) -> (r: HostRecord)
        ensures
            r@ == (HostRecordView {
                host: info.host@,
                port: info.port,
                days_until_expiry: Some(info.days_until_expiry),
                not_before: Some(info.not_before@),
                not_after: Some(info.not_after@),
                subject_cn: Some(info.subject_cn@),
                issuer: Some(info.issuer@),
                error: None,
            }),
    {
        HostRecord {
            host: info.host.clone(),
            port: info.port,
            days_until_expiry: Some(info.days_until_expiry),
            not_before: Some(info.not_before),
            not_after: Some(info.not_after),
            subject_cn: Some(info.subject_cn.clone()),
            issuer: Some(info.issuer.clone()),
            error: None,
        }
    }

    /// The record of a host whose check failed with `message`.
    pub fn failure(host: &str, port: u16, message: &str) -> (r: HostRecord)
        ensures
            r@ == (HostRecordView {
                host: host@,
                port,
                days_until_expiry: None,
                not_before: None,
                not_after: None,
                subject_cn: None,
                issuer: None,
                error: Some(message@),
            }),
    {
        HostRecord {
            host: String::from_str(host),
            port,
            days_until_expiry: None,
            not_before: None,
            not_after: None,
            subject_cn: None,
            issuer: None,
            error: Some(String::from_str(message)),
        }
    }

    /// The record of the check of `target`: its certificate, or the text of
    /// its error.
    pub fn from_check(target: &HostTarget, result: &Result<CertInfo, TlsdaysError>) -> (r: HostRecord)
        ensures
            match result {
                Ok(info) => r@ == (HostRecordView {
                    host: info.host@,
                    port: info.port,
                    days_until_expiry: Some(info.days_until_expiry),
                    not_before: Some(info.not_before@),
                    not_after: Some(info.not_after@),
                    subject_cn: Some(info.subject_cn@),
                    issuer: Some(info.issuer@),
                    error: None,
                }),
                Err(e) => r@ == (HostRecordView {
                    host: target.host@,
                    port: target.port,
                    days_until_expiry: None,
                    not_before: None,
                    not_after: None,
                    subject_cn: None,
                    issuer: None,
                    error: Some(error_text(e@)),
                }),
            },
    {
        match result {
            Ok(info) => HostRecord::success(info),
            Err(e) => {
                let m = e.message();
                HostRecord::failure(target.host.as_str(), target.port, m.as_str())
            },
        }
    }
}

/// A column of the table: a time as RFC 3339 text, or `absent`.
pub open spec fn instant_or(t: Option<(i64, u32)>, absent: Seq<char>) -> Seq<char> {
    match t {
        Some(v) => rfc3339_text(v.0, v.1),
        None => absent,
    }
}

/// An optional text, or `absent`.
pub open spec fn text_or(t: Option<Seq<char>>, absent: Seq<char>) -> Seq<char> {
    match t {
        Some(v) => v,
        None => absent,
    }
}

/// A line of the table: the host left-aligned in 30 columns, then the port
/// (5), days (8), validity start (24), validity end (24), subject (20) and
/// issuer (30), each right-aligned, separated by single spaces.
pub open spec fn table_line(
    c0: Seq<char>,
    c1: Seq<char>,
    c2: Seq<char>,
    c3: Seq<char>,
    c4: Seq<char>,
    c5: Seq<char>,
    c6: Seq<char>,
) -> Seq<char> {
    pad_end_spec(c0, 30) + " "@ + pad_start_spec(c1, 5) + " "@ + pad_start_spec(c2, 8) + " "@
        + pad_start_spec(c3, 24) + " "@ + pad_start_spec(c4, 24) + " "@ + pad_start_spec(c5, 20)
        + " "@ + pad_start_spec(c6, 30) + "\n"@
}

/// The header line of the table.
pub open spec fn table_header_text() -> Seq<char> {
    table_line(
        "HOST"@,
        "PORT"@,
        "DAYS"@,
        "NOT_BEFORE"@,
        "NOT_AFTER"@,
        "SUBJECT_CN"@,
        "ISSUER"@,
    )
}

/// The table line of a record: `ERR` and the error's text for a failed
/// check, else the certificate's fields, with `0` and `-` for absent ones.
pub open spec fn table_row_text(r: HostRecordView) -> Seq<char> {
    match r.error {
        Some(err) => table_line(r.host, decimal(r.port as nat), "ERR"@, "-"@, "-"@, "-"@, err),
        None => table_line(
            r.host,
            decimal(r.port as nat),
            signed_decimal(
                match r.days_until_expiry {
                    Some(d) => d as int,
                    None => 0,
                },
            ),
            instant_or(r.not_before, "-"@),
            instant_or(r.not_after, "-"@),
            text_or(r.subject_cn, "-"@),
            text_or(r.issuer, "-"@),
        ),
    }
}

/// The line of the `text` format for a record.
pub open spec fn text_line(r: HostRecordView) -> Seq<char> {
    match r.error {
        Some(err) => r.host + ":"@ + decimal(r.port as nat) + " ERROR: "@ + err + "\n"@,
        None => r.host + ":"@ + decimal(r.port as nat) + " expires in "@ + signed_decimal(
            match r.days_until_expiry {
                Some(d) => d as int,
                None => 0,
            },
        ) + " days (not_after="@ + instant_or(r.not_after, "?"@) + ", subject_cn="@ + text_or(
            r.subject_cn,
            "?"@,
        ) + ", issuer="@ + text_or(r.issuer, "?"@) + ")\n"@,
    }
}

/// The RFC 3339 text of an optional instant, or `absent`.
fn instant_text(t: &Option<Timestamp>, absent: &str) -> (r: String)
    ensures
        r@ == instant_or(opt_instant(*t), absent@),
{
    match t {
        Some(v) => v.to_rfc3339(),
        None => String::from_str(absent),
    }
}

/// An optional text, or `absent`.
fn text_or_default(t: &Option<String>, absent: &str) -> (r: String)
    ensures
        r@ == text_or(opt_text(*t), absent@),
{
    match t {
        Some(v) => v.clone(),
        None => String::from_str(absent),
    }
}

/// A line of the table from its seven columns.
fn table_line_of(c0: &str, c1: &str, c2: &str, c3: &str, c4: &str, c5: &str, c6: &str) -> (r:
    String)
    ensures
        r@ == table_line(c0@, c1@, c2@, c3@, c4@, c5@, c6@),
{
    let mut r = pad_end(c0, 30);
    r.append(" ");
    r.append(pad_start(c1, 5).as_str());
    r.append(" ");
    r.append(pad_start(c2, 8).as_str());
    r.append(" ");
    r.append(pad_start(c3, 24).as_str());
    r.append(" ");
    r.append(pad_start(c4, 24).as_str());
    r.append(" ");
    r.append(pad_start(c5, 20).as_str());
    r.append(" ");
    r.append(pad_start(c6, 30).as_str());
    r.append("\n");
    r
}

/// The header line of the table.
fn table_header() -> (r: String)
    ensures
        r@ == table_header_text(),
{
    table_line_of("HOST", "PORT", "DAYS", "NOT_BEFORE", "NOT_AFTER", "SUBJECT_CN", "ISSUER")
}

/// The table line of a record.
fn table_row(record: &HostRecord) -> (r: String)
    ensures
        r@ == table_row_text(record@),
{
    let port = u64_decimal(record.port as u64);
    match &record.error {
        Some(err) => table_line_of(
            record.host.as_str(),
            port.as_str(),
            "ERR",
            "-",
            "-",
            "-",
            err.as_str(),
        ),
        None => {
            let days = i64_decimal(
                match record.days_until_expiry {
                    Some(d) => d,
                    None => 0,
                },
            );
            let nb = instant_text(&record.not_before, "-");
            let na = instant_text(&record.not_after, "-");
            let cn = text_or_default(&record.subject_cn, "-");
            let issuer = text_or_default(&record.issuer, "-");
            table_line_of(
                record.host.as_str(),
                port.as_str(),
                days.as_str(),
                nb.as_str(),
                na.as_str(),
                cn.as_str(),
                issuer.as_str(),
            )
        },
    }
}

/// Writes records one JSON object per line; the JSON text of each record is
/// made by the caller.
pub struct JsonlFormatter {}

impl JsonlFormatter {
    /// A formatter for `jsonl` output.
    pub fn new() -> (r: JsonlFormatter) {
        JsonlFormatter {  }
    }

    /// The text before the first record: none.
    pub fn write_header(&mut self) -> (r: String)
        ensures
            r@ == Seq::<char>::empty(),
    {
        String::new()
    }

    /// The line of one record, given its JSON text.
    pub fn write_one(&mut self, json: &str) -> (r: String)
        ensures
            r@ == json@ + "\n"@,
    {
        let mut r = String::from_str(json);
        r.append("\n");
        r
    }
}

/// The header line when it is still owed: when it has not been written out.
pub open spec fn owed_header(written: bool) -> Option<Seq<char>> {
    if written {
        None
    } else {
        Some(table_header_text())
    }
}

/// What the table puts out for one record: the header line when it is still
/// owed, then the record's row.
pub open spec fn table_output(written: bool, r: HostRecordView) -> Seq<char> {
    text_or(owed_header(written), Seq::empty()) + table_row_text(r)
}

/// What the table puts out for `rows` written one after another, each
/// write succeeding (so that a header it owed is reported sent), starting
/// with the header written (`written`) or not.
pub open spec fn table_session(written: bool, rows: Seq<HostRecordView>) -> Seq<char>
    decreases rows.len(),
{
    if rows.len() == 0 {
        Seq::empty()
    } else {
        table_session(written, rows.drop_last()) + table_output(
            written || rows.len() > 1,
            rows.last(),
        )
    }
}

/// The rows of `rows`, one after another.
pub open spec fn table_rows_text(rows: Seq<HostRecordView>) -> Seq<char>
    decreases rows.len(),
{
    if rows.len() == 0 {
        Seq::empty()
    } else {
        table_rows_text(rows.drop_last()) + table_row_text(rows.last())
    }
}

/// The lines of one record for the table: the header line when it is still
/// owed, then the record's row.
pub struct TableLines {
    pub header: Option<String>,
    pub row: String,
}

/// Writes records as a table under one header line. The header counts as
/// written only once the caller reports that it went out ([`TableFormatter::header_sent`]).
pub struct TableFormatter {
    wrote_header: bool,
}

impl TableFormatter {
    /// A formatter for `table` output that has written nothing yet.
    pub fn new() -> (r: TableFormatter)
        ensures
            !r.header_written(),
    {
        TableFormatter { wrote_header: false }
    }

    /// Whether the header line has been written out.
    pub closed spec fn header_written(&self) -> bool {
        self.wrote_header
    }

    /// The header line.
    pub fn write_header(&self) -> (r: String)
        ensures
            r@ == table_header_text(),
    {
        table_header()
    }

    /// Records that the header line has been written out.
    pub fn header_sent(&mut self)
        ensures
            final(self).header_written(),
    {
        self.wrote_header = true;
    }

    /// The lines of one record: the header line if it has not been written
    /// out yet, then the record's row.
    pub fn write_one(&self, record: &HostRecord) -> (r: TableLines)
        ensures
            opt_text(r.header) == owed_header(self.header_written()),
            r.row@ == table_row_text(record@),
    {
        let header = if !self.wrote_header {
            Some(table_header())
        } else {
            None
        };
        TableLines { header, row: table_row(record) }
    }
}

/// What a session that starts with the header written puts out: the rows alone.
proof fn lemma_session_written(rows: Seq<HostRecordView>)
    ensures
        table_session(true, rows) == table_rows_text(rows),
    decreases rows.len(),
{
    if rows.len() > 0 {
        lemma_session_written(rows.drop_last());
        assert(Seq::<char>::empty() + table_row_text(rows.last()) =~= table_row_text(
            rows.last(),
        ));
    }
}

/// What a session that starts without the header puts out: the header, then the rows.
proof fn lemma_session_fresh(rows: Seq<HostRecordView>)
    requires
        rows.len() > 0,
    ensures
        table_session(false, rows) == table_header_text() + table_rows_text(rows),
    decreases rows.len(),
{
    let last = table_row_text(rows.last());
    if rows.len() == 1 {
        assert(rows.drop_last().len() == 0);
        assert(table_rows_text(rows.drop_last()) == Seq::<char>::empty());
        assert(table_session(false, rows.drop_last()) == Seq::<char>::empty());
        assert(table_output(false, rows.last()) == table_header_text() + last);
        assert(table_rows_text(rows) =~= Seq::<char>::empty() + last);
        assert(table_session(false, rows) =~= Seq::<char>::empty() + (table_header_text()
            + last));
        assert(table_header_text() + (Seq::<char>::empty() + last) =~= Seq::<char>::empty() + (
        table_header_text() + last));
    } else {
        lemma_session_fresh(rows.drop_last());
        assert(Seq::<char>::empty() + last =~= last);
        assert(table_header_text() + table_rows_text(rows.drop_last()) + last
            =~= table_header_text() + (table_rows_text(rows.drop_last()) + last));
    }
}

/// Law: whatever the sequence of successful writes (the header on its own or
/// not, then one record or more), a table puts out its header exactly once,
/// first, followed by the rows in order.
pub proof fn law_table_header_once(rows: Seq<HostRecordView>, explicit_header: bool)
    requires
        explicit_header || rows.len() > 0,
    ensures
        (if explicit_header {
            table_header_text() + table_session(true, rows)
        } else {
            table_session(false, rows)
        }) == table_header_text() + table_rows_text(rows),
{
    if explicit_header {
        lemma_session_written(rows);
    } else {
        lemma_session_fresh(rows);
    }
}

/// Writes records one line each, in words.
pub struct TextFormatter {}

impl TextFormatter {
    /// A formatter for `text` output.
    pub fn new() -> (r: TextFormatter) {
        TextFormatter {  }
    }

    /// The text before the first record: none.
    pub fn write_header(&mut self) -> (r: String)
        ensures
            r@ == Seq::<char>::empty(),
    {
        String::new()
    }

    /// The line of one record.
    pub fn write_one(&mut self, record: &HostRecord) -> (r: String)
        ensures
            r@ == text_line(record@),
    {
        let mut r = String::from_str(record.host.as_str());
        r.append(":");
        let port = u64_decimal(record.port as u64);
        r.append(port.as_str());
        match &record.error {
            Some(err) => {
                r.append(" ERROR: ");
                r.append(err.as_str());
                r.append("\n");
            },
            None => {
                r.append(" expires in ");
                let days = i64_decimal(
                    match record.days_until_expiry {
                        Some(d) => d,
                        None => 0,
                    },
                );
                r.append(days.as_str());
                r.append(" days (not_after=");
                let na = instant_text(&record.not_after, "?");
                r.append(na.as_str());
                r.append(", subject_cn=");
                let cn = text_or_default(&record.subject_cn, "?");
                r.append(cn.as_str());
                r.append(", issuer=");
                let issuer = text_or_default(&record.issuer, "?");
                r.append(issuer.as_str());
                r.append(")\n");
            },
        }
        r
    }
}

/// Whether some check in `rs` failed.
pub open spec fn any_failure(rs: Seq<HostRecordView>) -> bool {
    exists|i: int| 0 <= i < rs.len() && (#[trigger] rs[i]).error is Some
}

/// Whether some check in `rs` succeeded.
pub open spec fn any_success(rs: Seq<HostRecordView>) -> bool {
    exists|i: int| 0 <= i < rs.len() && (#[trigger] rs[i]).error is None
}

/// Whether `r` is a certificate read with fewer than seven days left.
pub open spec fn expiring(r: HostRecordView) -> bool {
    r.error is None && match r.days_until_expiry {
        Some(d) => d < 7,
        None => false,
    }
}

/// Whether some certificate read in `rs` has fewer than seven days left.
pub open spec fn any_expiring(rs: Seq<HostRecordView>) -> bool {
    exists|i: int| 0 <= i < rs.len() && expiring(#[trigger] rs[i])
}

/// The exit status of a run: 2 when a check failed under `--strict-fail`, or
/// when no check succeeded; else 1 when a certificate read has fewer than
/// seven days left; else 0.
pub open spec fn exit_code_spec(rs: Seq<HostRecordView>, strict_fail: bool) -> u8 {
    if any_failure(rs) && strict_fail {
        2
    } else if !any_success(rs) {
        2
    } else if any_expiring(rs) {
        1
    } else {
        0
    }
}

/// The records as mathematical values.
pub open spec fn records_view(rs: Seq<HostRecord>) -> Seq<HostRecordView> {
    rs.map_values(|r: HostRecord| r@)
}

/// The exit status of a run whose checks gave `records`.
pub fn exit_code(records: &[HostRecord], strict_fail: bool) -> (r: u8)
    ensures
        r == exit_code_spec(records_view(records@), strict_fail),
{
    let ghost rs = records_view(records@);
    let mut failure = false;
    let mut success = false;
    let mut soon = false;
    let mut i: usize = 0;
    while i < records.len()
        invariant
            i <= records.len(),
            rs == records_view(records@),
            failure == any_failure(rs.subrange(0, i as int)),
            success == any_success(rs.subrange(0, i as int)),
            soon == any_expiring(rs.subrange(0, i as int)),
        decreases records.len() - i,
    {
        let ghost before = rs.subrange(0, i as int);
        let ghost after = rs.subrange(0, i + 1);
        assert(after[i as int] == records@[i as int]@);
        assert forall|k: int| 0 <= k < i implies after[k] == before[k] by {}
        let record = &records[i];
        if record.error.is_some() {
            failure = true;
        } else {
            success = true;
            match record.days_until_expiry {
                Some(d) => {
                    if d < 7 {
                        soon = true;
                    }
                },
                None => {},
            }
        }
        proof {
            if failure && !any_failure(before) {
                assert(after[i as int].error is Some);
            }
            if any_failure(after) {
                let k = choose|k: int| 0 <= k < after.len() && (#[trigger] after[k]).error is Some;
                if k < i {
                    assert(before[k].error is Some);
                }
            }
            if success && !any_success(before) {
                assert(after[i as int].error is None);
            }
            if any_success(after) {
                let k = choose|k: int| 0 <= k < after.len() && (#[trigger] after[k]).error is None;
                if k < i {
                    assert(before[k].error is None);
                }
            }
            if soon && !any_expiring(before) {
                assert(expiring(after[i as int]));
            }
            if any_expiring(after) {
                let k = choose|k: int| 0 <= k < after.len() && expiring(#[trigger] after[k]);
                if k < i {
                    assert(expiring(before[k]));
                }
            }
        }
        i = i + 1;
    }
    assert(rs.subrange(0, records.len() as int) =~= rs);
    if failure && strict_fail {
        return 2;
    }
    if !success {
        return 2;
    }
    if soon {
        1
    } else {
        0
    }
}

/// Law: `--strict-fail` never lowers the exit status.
pub proof fn law_strict_fail_not_lower(rs: Seq<HostRecordView>)
    ensures
        exit_code_spec(rs, true) >= exit_code_spec(rs, false),
{
}

/// Law: the exit status is 0, 1 or 2; it is 2 exactly when no check
/// succeeded, or when a check failed under `--strict-fail`.
pub proof fn law_exit_status_two(rs: Seq<HostRecordView>, strict_fail: bool)
    ensures
        exit_code_spec(rs, strict_fail) <= 2,
        exit_code_spec(rs, strict_fail) == 2 <==> !any_success(rs) || (any_failure(rs)
            && strict_fail),
{
}

/// Law: when every check succeeded and every certificate has at least seven
/// days left, the exit status is 0 whatever `--strict-fail` says; when every
/// check succeeded and some certificate has fewer than seven days, it is 1.
pub proof fn law_all_succeeded(rs: Seq<HostRecordView>, strict_fail: bool)
    requires
        rs.len() > 0,
        forall|i: int| 0 <= i < rs.len() ==> (#[trigger] rs[i]).error is None,
    ensures
        exit_code_spec(rs, strict_fail) == if any_expiring(rs) {
            1u8
        } else {
            0u8
        },
{
    assert(rs[0].error is None);
}

/// Law: a run in which some check succeeded with a certificate that has
/// fewer than seven days left exits with 1, wherever that record stands among
/// the others, unless a check failed under `--strict-fail` (then 2).
pub proof fn law_expiring_record_exits_one(rs: Seq<HostRecordView>, strict_fail: bool, i: int, days: i64)
    requires
        0 <= i < rs.len(),
        rs[i].error is None,
        rs[i].days_until_expiry == Some(days),
        days < 7,
    ensures
        exit_code_spec(rs, strict_fail) == if strict_fail && exists|j: int|
            0 <= j < rs.len() && (#[trigger] rs[j]).error is Some {
            2u8
        } else {
            1u8
        },
{
    assert(expiring(rs[i]));
}

/// Law: the exit status depends only on which records the run gave, not on
/// their order nor on how often each occurs: two runs whose records are the
/// same exit alike.
pub proof fn law_exit_status_order_free(rs: Seq<HostRecordView>, ss: Seq<HostRecordView>, strict_fail: bool)
    requires
        forall|r: HostRecordView| rs.contains(r) <==> ss.contains(r),
    ensures
        exit_code_spec(rs, strict_fail) == exit_code_spec(ss, strict_fail),
{
    lemma_same_records(rs, ss);
    lemma_same_records(ss, rs);
}

/// What holds of some record of `rs` holds of some record of `ss` when every
/// record of `rs` occurs in `ss`.
proof fn lemma_same_records(rs: Seq<HostRecordView>, ss: Seq<HostRecordView>)
    requires
        forall|r: HostRecordView| rs.contains(r) ==> ss.contains(r),
    ensures
        any_failure(rs) ==> any_failure(ss),
        any_success(rs) ==> any_success(ss),
        any_expiring(rs) ==> any_expiring(ss),
{
    if any_failure(rs) {
        let i = choose|i: int| 0 <= i < rs.len() && (#[trigger] rs[i]).error is Some;
        assert(rs.contains(rs[i]));
        let j = choose|j: int| 0 <= j < ss.len() && ss[j] == rs[i];
        assert(ss[j].error is Some);
    }
    if any_success(rs) {
        let i = choose|i: int| 0 <= i < rs.len() && (#[trigger] rs[i]).error is None;
        assert(rs.contains(rs[i]));
        let j = choose|j: int| 0 <= j < ss.len() && ss[j] == rs[i];
        assert(ss[j].error is None);
    }
    if any_expiring(rs) {
        let i = choose|i: int| 0 <= i < rs.len() && expiring(#[trigger] rs[i]);
        assert(rs.contains(rs[i]));
        let j = choose|j: int| 0 <= j < ss.len() && ss[j] == rs[i];
        assert(expiring(ss[j]));
    }
}

/// Law: the days of a certificate read are written as their signed decimal
/// form, the same in both human formats: a run of digits that denotes how many
/// days there are, after a `-` when the certificate has expired. In the table
/// it stands right-aligned in the third column, after the host and the port;
/// in the `text` format it is the number of `expires in N days`.
pub proof fn law_days_written_signed(r: HostRecordView, days: i64)
    requires
        r.error is None,
        r.days_until_expiry == Some(days),
    ensures
        ({
            let count: nat = (if days < 0 { -days } else { days as int }) as nat;
            let digits = decimal(count);
            let shown = if days < 0 { seq!['-'] + digits } else { digits };
            &&& digits.len() > 0
            &&& all_digits(digits)
            &&& digits_value(digits) == count
            &&& (pad_end_spec(r.host, 30) + " "@ + pad_start_spec(decimal(r.port as nat), 5) + " "@
                + pad_start_spec(shown, 8) + " "@).is_prefix_of(table_row_text(r))
            &&& (r.host + ":"@ + decimal(r.port as nat) + " expires in "@ + shown
                + " days (not_after="@).is_prefix_of(text_line(r))
        }),
{
    let count: nat = (if days < 0 { -days } else { days as int }) as nat;
    let digits = decimal(count);
    let shown = if days < 0 { seq!['-'] + digits } else { digits };
    lemma_decimal_digits(count);
    assert(signed_decimal(days as int) == shown);
    let row = pad_end_spec(r.host, 30) + " "@ + pad_start_spec(decimal(r.port as nat), 5) + " "@
        + pad_start_spec(shown, 8) + " "@;
    assert(table_row_text(r).subrange(0, row.len() as int) =~= row);
    let line = r.host + ":"@ + decimal(r.port as nat) + " expires in "@ + shown
        + " days (not_after="@;
    assert(text_line(r).subrange(0, line.len() as int) =~= line);
}

} // verus!
