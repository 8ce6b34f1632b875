//! Host entries (`host`, `host:port`, `[v6-address]:port`) and the list of
//! hosts to check, taken from the arguments and from standard input.
use vstd::prelude::*;

use crate::error::{ErrorView, TlsdaysError};
use crate::text::{
    all_digits, count_char, count_of, decimal, find_char, first_index, is_digit, is_space,
    last_index, lemma_absent, lemma_count_concat, lemma_decimal_digits, lemma_first_index_split,
    lemma_last_index_split, lemma_parse_u16_decimal, lemma_trimmed_unchanged, parse_u16,
    parse_u16_spec, rfind_char, trim, trimmed,
};

verus! {

/// A host to check and the TCP port to connect to.
#[derive(Debug, Clone, PartialEq, Eq)]
pub struct HostTarget {
    pub host: String,
    pub port: u16,
}

impl View for HostTarget {
    type V = (Seq<char>, u16);

    open spec fn view(&self) -> (Seq<char>, u16) {
        (self.host@, self.port)
    }
}

/// The argument error with message `m`.
pub open spec fn argument_error(m: Seq<char>) -> ErrorView {
    ErrorView::Argument(m)
}

/// A parse result as mathematical values.
pub open spec fn target_result_view(r: Result<HostTarget, TlsdaysError>) -> Result<
    (Seq<char>, u16),
    ErrorView,
> {
    match r {
        Ok(t) => Ok(t@),
        Err(e) => Err(e@),
    }
}

/// A bracketed entry `[host]`, `[host]:port`: `e` is trimmed and starts with `[`.
pub open spec fn parse_bracketed_spec(e: Seq<char>, default_port: u16) -> Result<
    (Seq<char>, u16),
    ErrorView,
> {
    match first_index(e, ']') {
        None => Err(argument_error("invalid bracketed host: "@ + e)),
        Some(end) => {
            let host = e.subrange(1, end);
            let rest = e.subrange(end + 1, e.len() as int);
            if rest.len() > 0 && rest[0] == ':' {
                match parse_u16_spec(rest.subrange(1, rest.len() as int)) {
                    Some(p) => Ok((host, p)),
                    None => Err(argument_error("invalid port in "@ + e)),
                }
            } else if rest.len() == 0 {
                Ok((host, default_port))
            } else {
                Err(argument_error("invalid host spec: "@ + e))
            }
        },
    }
}

/// An entry without brackets: `e` is trimmed, not empty, and does not start with `[`.
pub open spec fn parse_plain_spec(e: Seq<char>, default_port: u16) -> (Seq<char>, u16) {
    if count_of(e, ':') > 1 {
        (e, default_port)
    } else {
        match last_index(e, ':') {
            Some(i) => if i > 0 && parse_u16_spec(e.subrange(i + 1, e.len() as int)) is Some {
                (e.subrange(0, i), parse_u16_spec(e.subrange(i + 1, e.len() as int))->0)
            } else {
                (e, default_port)
            },
            None => (e, default_port),
        }
    }
}

/// What a host entry denotes, or why it is refused. Surrounding whitespace
/// is ignored; an entry with more than one `:` and no brackets is an IPv6
/// address on the default port; `host:port` with a port that does not parse
/// is taken whole as a host name.
pub open spec fn parse_host_entry_spec(entry: Seq<char>, default_port: u16) -> Result<
    (Seq<char>, u16),
    ErrorView,
> {
    let e = trimmed(entry);
    if e.len() == 0 {
        Err(argument_error("empty host entry"@))
    } else if e[0] == '[' {
        parse_bracketed_spec(e, default_port)
    } else {
        Ok(parse_plain_spec(e, default_port))
    }
}

/// An argument error carrying `prefix` followed by `e`.
pub(crate) fn argument_with(prefix: &str, e: &str) -> (r: TlsdaysError)
    ensures
        r@ == argument_error(prefix@ + e@),
{
    let mut m = String::from_str(prefix);
    m.append(e);
    TlsdaysError::Argument(m)
}

/// Reads one host entry: `host`, `host:port`, `[address]` or `[address]:port`.
pub fn parse_host_entry(entry: &str, default_port: u16) -> (r: Result<HostTarget, TlsdaysError>)
    ensures
        target_result_view(r) == parse_host_entry_spec(entry@, default_port),
{
    let e = trim(entry);
    let n = e.unicode_len();
    if n == 0 {
        return Err(TlsdaysError::Argument(String::from_str("empty host entry")));
    }
    if e.get_char(0) == '[' {
        let end = match find_char(e, ']') {
            Some(end) => end,
            None => {
                return Err(argument_with("invalid bracketed host: ", e));
            },
        };
        proof {
            lemma_first_index_bounds(e@, ']');
        }
        let host = String::from_str(e.substring_char(1, end));
        let rest = e.substring_char(end + 1, n);
        let rn = rest.unicode_len();
        let port = if rn > 0 && rest.get_char(0) == ':' {
            match parse_u16(rest.substring_char(1, rn)) {
                Some(p) => p,
                None => {
                    return Err(argument_with("invalid port in ", e));
                },
            }
        } else if rn == 0 {
            default_port
        } else {
            return Err(argument_with("invalid host spec: ", e));
        };
        return Ok(HostTarget { host, port });
    }
    let colons = count_char(e, ':');
    if colons > 1 {
        return Ok(HostTarget { host: String::from_str(e), port: default_port });
    }
    if let Some(i) = rfind_char(e, ':') {
        proof {
            lemma_last_index_bounds(e@, ':');
        }
        if i > 0 {
            if let Some(port) = parse_u16(e.substring_char(i + 1, n)) {
                return Ok(HostTarget { host: String::from_str(e.substring_char(0, i)), port });
            }
        }
    }
    Ok(HostTarget { host: String::from_str(e), port: default_port })
}

/// Where `first_index` finds `c`, it is a position of `c` in `s`.
pub proof fn lemma_first_index_bounds(s: Seq<char>, c: char)
    ensures
        first_index(s, c) matches Some(i) ==> 0 <= i < s.len() && s[i] == c,
    decreases s.len(),
{
    if s.len() > 0 {
        lemma_first_index_bounds(s.drop_last(), c);
    }
}

/// Where `last_index` finds `c`, it is a position of `c` in `s`.
pub proof fn lemma_last_index_bounds(s: Seq<char>, c: char)
    ensures
        last_index(s, c) matches Some(i) ==> 0 <= i < s.len() && s[i] == c,
    decreases s.len(),
{
    if s.len() > 0 {
        lemma_last_index_bounds(s.drop_last(), c);
    }
}

/// The targets that `entries` name, in order, or the error of the first entry refused.
pub open spec fn parse_all_spec(entries: Seq<Seq<char>>, default_port: u16) -> Result<
    Seq<(Seq<char>, u16)>,
    ErrorView,
>
    decreases entries.len(),
{
    if entries.len() == 0 {
        Ok(Seq::empty())
    } else {
        match parse_all_spec(entries.drop_last(), default_port) {
            Err(e) => Err(e),
            Ok(ts) => match parse_host_entry_spec(entries.last(), default_port) {
                Err(e) => Err(e),
                Ok(t) => Ok(ts.push(t)),
            },
        }
    }
}

/// The targets on the lines read from standard input: blank lines are skipped,
/// and a line that could not be read (`Err`, with the reason) stops the list.
pub open spec fn parse_lines_spec(lines: Seq<Result<Seq<char>, Seq<char>>>, default_port: u16) -> Result<
    Seq<(Seq<char>, u16)>,
    ErrorView,
>
    decreases lines.len(),
{
    if lines.len() == 0 {
        Ok(Seq::empty())
    } else {
        match parse_lines_spec(lines.drop_last(), default_port) {
            Err(e) => Err(e),
            Ok(ts) => line_step(ts, lines.last(), default_port),
        }
    }
}

/// The targets `ts` after one more line of standard input: unchanged for a
/// blank line, extended by the line's target, or the line's error (also when
/// the line could not be read).
pub open spec fn line_step(
    ts: Seq<(Seq<char>, u16)>,
    line: Result<Seq<char>, Seq<char>>,
    default_port: u16,
) -> Result<Seq<(Seq<char>, u16)>, ErrorView> {
    match line {
        Err(m) => Err(argument_error("stdin read error: "@ + m)),
        Ok(l) => if trimmed(l).len() == 0 {
            Ok(ts)
        } else {
            match parse_host_entry_spec(trimmed(l), default_port) {
                Err(e) => Err(e),
                Ok(t) => Ok(ts.push(t)),
            }
        },
    }
}

/// The message given when no host was named at all.
pub open spec fn no_hosts_message() -> Seq<char> {
    "no hosts provided: pass HOST arguments or pipe hosts on stdin"@
}

/// The hosts to check: those of the arguments, then those of standard input
/// when it was read (`Some`); refused when there are none.
pub open spec fn collect_hosts_spec(
    args: Seq<Seq<char>>,
    lines: Option<Seq<Result<Seq<char>, Seq<char>>>>,
    default_port: u16,
) -> Result<Seq<(Seq<char>, u16)>, ErrorView> {
    match parse_all_spec(args, default_port) {
        Err(e) => Err(e),
        Ok(a) => {
            let b = match lines {
                None => Ok(Seq::empty()),
                Some(ls) => parse_lines_spec(ls, default_port),
            };
            match b {
                Err(e) => Err(e),
                Ok(b) => if a.len() + b.len() == 0 {
                    Err(argument_error(no_hosts_message()))
                } else {
                    Ok(a + b)
                },
            }
        },
    }
}

/// The texts of `v`.
pub open spec fn strings_view(v: Seq<String>) -> Seq<Seq<char>> {
    v.map_values(|s: String| s@)
}

/// A line read from standard input, or the reason it could not be read.
pub open spec fn line_view(r: Result<String, String>) -> Result<Seq<char>, Seq<char>> {
    match r {
        Ok(s) => Ok(s@),
        Err(m) => Err(m@),
    }
}

/// The lines of standard input as mathematical values.
pub open spec fn lines_view(v: Seq<Result<String, String>>) -> Seq<Result<Seq<char>, Seq<char>>> {
    v.map_values(|r: Result<String, String>| line_view(r))
}

/// The targets of `v`.
pub open spec fn targets_view(v: Seq<HostTarget>) -> Seq<(Seq<char>, u16)> {
    v.map_values(|t: HostTarget| t@)
}

/// A list of targets, or an error, as mathematical values.
pub open spec fn targets_result_view(r: Result<Vec<HostTarget>, TlsdaysError>) -> Result<
    Seq<(Seq<char>, u16)>,
    ErrorView,
> {
    match r {
        Ok(v) => Ok(targets_view(v@)),
        Err(e) => Err(e@),
    }
}

/// Whether the hosts are also read from standard input: when no host was
/// named, or when standard input is not a terminal.
pub fn reads_stdin(hosts: &Vec<String>, stdin_is_terminal: bool) -> (r: bool)
    ensures
        r == (hosts.len() == 0 || !stdin_is_terminal),
{
    hosts.len() == 0 || !stdin_is_terminal
}

/// Appends the targets of `entries` to `out`, or gives the first entry's error.
fn push_entries(entries: &Vec<String>, default_port: u16, out: &mut Vec<HostTarget>) -> (r: Result<(), TlsdaysError>)
    requires
        old(out)@.len() == 0,
    ensures
        match parse_all_spec(strings_view(entries@), default_port) {
            Ok(ts) => r is Ok && targets_view(final(out)@) == ts,
            Err(e) => r matches Err(x) && x@ == e,
        },
{
    let ghost args = strings_view(entries@);
    let mut i: usize = 0;
    assert(args.subrange(0, 0) =~= Seq::<Seq<char>>::empty());
    assert(targets_view(out@) =~= Seq::<(Seq<char>, u16)>::empty());
    while i < entries.len()
        invariant
            i <= entries.len(),
            args == strings_view(entries@),
            parse_all_spec(args.subrange(0, i as int), default_port) == Ok::<Seq<(Seq<char>, u16)>, ErrorView>(targets_view(out@)),
        decreases entries.len() - i,
    {
        assert(args.subrange(0, i + 1).drop_last() =~= args.subrange(0, i as int));
        assert(args.subrange(0, i + 1).last() == entries@[i as int]@);
        match parse_host_entry(entries[i].as_str(), default_port) {
            Ok(t) => {
                let ghost before = out@;
                out.push(t);
                assert(targets_view(out@) =~= targets_view(before).push(t@));
            },
            Err(e) => {
                proof {
                    lemma_parse_all_error(args, default_port, i as int);
                }
                return Err(e);
            },
        }
        i = i + 1;
    }
    assert(args.subrange(0, entries.len() as int) =~= args);
    Ok(())
}

/// An entry refused in a prefix makes the whole list refused with its error.
proof fn lemma_parse_all_error(entries: Seq<Seq<char>>, default_port: u16, i: int)
    requires
        0 <= i < entries.len(),
        parse_all_spec(entries.subrange(0, i + 1), default_port) is Err,
    ensures
        parse_all_spec(entries, default_port) == parse_all_spec(entries.subrange(0, i + 1), default_port),
    decreases entries.len() - i,
{
    if i + 1 < entries.len() {
        assert(entries.drop_last().subrange(0, i + 1) =~= entries.subrange(0, i + 1));
        lemma_parse_all_error(entries.drop_last(), default_port, i);
    } else {
        assert(entries.subrange(0, i + 1) =~= entries);
    }
}

/// A line refused in a prefix makes all the lines refused with its error.
proof fn lemma_parse_lines_error(lines: Seq<Result<Seq<char>, Seq<char>>>, default_port: u16, i: int)
    requires
        0 <= i < lines.len(),
        parse_lines_spec(lines.subrange(0, i + 1), default_port) is Err,
    ensures
        parse_lines_spec(lines, default_port) == parse_lines_spec(lines.subrange(0, i + 1), default_port),
    decreases lines.len() - i,
{
    if i + 1 < lines.len() {
        assert(lines.drop_last().subrange(0, i + 1) =~= lines.subrange(0, i + 1));
        lemma_parse_lines_error(lines.drop_last(), default_port, i);
    } else {
        assert(lines.subrange(0, i + 1) =~= lines);
    }
}

/// Takes one more line of standard input (or the reason it could not be
/// read): a blank line changes nothing, else its target is appended to `out`,
/// or its error is given and `out` is left as it was.
pub fn push_line(out: &mut Vec<HostTarget>, line: &Result<String, String>, default_port: u16) -> (r:
    Result<(), TlsdaysError>)
    ensures
        match line_step(targets_view(old(out)@), line_view(*line), default_port) {
            Ok(ts) => r is Ok && targets_view(final(out)@) == ts,
            Err(e) => r matches Err(x) && x@ == e && final(out)@ == old(out)@,
        },
{
    match line {
        Err(m) => {
            let mut msg = String::from_str("stdin read error: ");
            msg.append(m.as_str());
            Err(TlsdaysError::Argument(msg))
        },
        Ok(l) => {
            let t = trim(l.as_str());
            if t.unicode_len() != 0 {
                match parse_host_entry(t, default_port) {
                    Ok(target) => {
                        let ghost before = out@;
                        out.push(target);
                        assert(targets_view(out@) =~= targets_view(before).push(target@));
                        Ok(())
                    },
                    Err(e) => Err(e),
                }
            } else {
                Ok(())
            }
        },
    }
}

/// The targets that the arguments `hosts` name, in order, or the error of
/// the first one refused.
pub fn parse_entries(hosts: &Vec<String>, default_port: u16) -> (r: Result<Vec<HostTarget>, TlsdaysError>)
    ensures
        targets_result_view(r) == parse_all_spec(strings_view(hosts@), default_port),
{
    let mut targets: Vec<HostTarget> = Vec::new();
    match push_entries(hosts, default_port, &mut targets) {
        Ok(()) => Ok(targets),
        Err(e) => Err(e),
    }
}

/// The hosts to check, refused when there are none.
pub fn require_hosts(targets: Vec<HostTarget>) -> (r: Result<Vec<HostTarget>, TlsdaysError>)
    ensures
        targets_result_view(r) == if targets@.len() == 0 {
            Err(argument_error(no_hosts_message()))
        } else {
            Ok(targets_view(targets@))
        },
        r is Ok ==> r == Ok::<Vec<HostTarget>, TlsdaysError>(targets),
{
    if targets.len() == 0 {
        Err(
            TlsdaysError::Argument(
                String::from_str("no hosts provided: pass HOST arguments or pipe hosts on stdin"),
            ),
        )
    } else {
        Ok(targets)
    }
}

/// Appends the targets on `lines` to `out`, or gives the first error.
fn push_lines(lines: &Vec<Result<String, String>>, default_port: u16, out: &mut Vec<HostTarget>) -> (r: Result<(), TlsdaysError>)
    ensures
        match parse_lines_spec(lines_view(lines@), default_port) {
            Ok(ts) => r is Ok && targets_view(final(out)@) == targets_view(old(out)@) + ts,
            Err(e) => r matches Err(x) && x@ == e,
        },
{
    let ghost ls = lines_view(lines@);
    let ghost start = targets_view(out@);
    let mut i: usize = 0;
    assert(ls.subrange(0, 0) =~= Seq::<Result<Seq<char>, Seq<char>>>::empty());
    assert(start + Seq::<(Seq<char>, u16)>::empty() =~= start);
    while i < lines.len()
        invariant
            i <= lines.len(),
            ls == lines_view(lines@),
            parse_lines_spec(ls.subrange(0, i as int), default_port) matches Ok(ts) && targets_view(out@) == start + ts,
        decreases lines.len() - i,
    {
        assert(ls.subrange(0, i + 1).drop_last() =~= ls.subrange(0, i as int));
        assert(ls.subrange(0, i + 1).last() == line_view(lines@[i as int]));
        match push_line(out, &lines[i], default_port) {
            Ok(()) => {},
            Err(e) => {
                proof {
                    lemma_parse_lines_error(ls, default_port, i as int);
                }
                return Err(e);
            },
        }
        i = i + 1;
    }
    assert(ls.subrange(0, lines.len() as int) =~= ls);
    Ok(())
}

/// The hosts to check: those named by `hosts`, then, when standard input was
/// read, those on its lines (`stdin_lines`); refused when there are none.
pub fn collect_hosts(
    hosts: &Vec<String>,
    stdin_lines: Option<&Vec<Result<String, String>>>,
    default_port: u16,
) -> (r: Result<Vec<HostTarget>, TlsdaysError>)
    ensures
        targets_result_view(r) == collect_hosts_spec(
            strings_view(hosts@),
            match stdin_lines {
                Some(ls) => Some(lines_view(ls@)),
                None => None,
            },
            default_port,
        ),
{
    let mut targets: Vec<HostTarget> = Vec::new();
    match push_entries(hosts, default_port, &mut targets) {
        Ok(()) => {},
        Err(e) => {
            return Err(e);
        },
    }
    let ghost a = targets_view(targets@);
    match stdin_lines {
        Some(lines) => match push_lines(lines, default_port, &mut targets) {
            Ok(()) => {},
            Err(e) => {
                return Err(e);
            },
        },
        None => {
            assert(a + Seq::<(Seq<char>, u16)>::empty() =~= a);
        },
    }
    assert(targets_view(targets@).len() == targets@.len());
    if targets.len() == 0 {
        return Err(
            TlsdaysError::Argument(
                String::from_str("no hosts provided: pass HOST arguments or pipe hosts on stdin"),
            ),
        );
    }
    Ok(targets)
}

/// Digits are neither whitespace nor separators.
proof fn lemma_decimal_plain(p: u16)
    ensures
        decimal(p as nat).len() > 0,
        !is_space(decimal(p as nat).last()),
        forall|i: int| 0 <= i < decimal(p as nat).len() ==> decimal(p as nat)[i] != ':',
        forall|i: int| 0 <= i < decimal(p as nat).len() ==> decimal(p as nat)[i] != ']',
{
    lemma_decimal_digits(p as nat);
    let dec = decimal(p as nat);
    assert(is_digit(dec[dec.len() - 1]));
    assert forall|i: int| 0 <= i < dec.len() implies dec[i] != ':' && dec[i] != ']' by {
        assert(is_digit(dec[i]));
    }
}

/// Law: a host name followed by `:` and the decimal form of a port reads
/// back as that host and port. The host is not empty, holds no `:`, does not
/// start with `[` and does not start with whitespace.
pub proof fn law_host_port_roundtrip(h: Seq<char>, p: u16, default_port: u16)
    requires
        h.len() > 0,
        h[0] != '[',
        !is_space(h[0]),
        forall|i: int| 0 <= i < h.len() ==> h[i] != ':',
    ensures
        parse_host_entry_spec(h + seq![':'] + decimal(p as nat), default_port) == Ok::<
            (Seq<char>, u16),
            ErrorView,
        >((h, p)),
{
    let dec = decimal(p as nat);
    let s = h.push(':') + dec;
    assert(h + seq![':'] + dec =~= s);
    lemma_decimal_plain(p);
    assert(s[0] == h[0]);
    assert(s.last() == dec.last());
    lemma_trimmed_unchanged(s);
    lemma_absent(h, ':');
    lemma_absent(dec, ':');
    lemma_count_concat(h, seq![':'], ':');
    lemma_count_concat(h + seq![':'], dec, ':');
    assert(seq![':'].drop_last() =~= Seq::<char>::empty());
    assert(count_of(Seq::<char>::empty(), ':') == 0);
    assert(count_of(seq![':'], ':') == 1);
    lemma_last_index_split(h, ':', dec);
    assert(s.subrange(h.len() as int + 1, s.len() as int) =~= dec);
    assert(s.subrange(0, h.len() as int) =~= h);
    lemma_parse_u16_decimal(p);
}

/// Law: a host name without a port is read as that host on the default port.
/// The host is not empty, holds no `:`, does not start with `[` and has no
/// whitespace at either end.
pub proof fn law_bare_host_default_port(h: Seq<char>, default_port: u16)
    requires
        h.len() > 0,
        h[0] != '[',
        !is_space(h[0]),
        !is_space(h.last()),
        forall|i: int| 0 <= i < h.len() ==> h[i] != ':',
    ensures
        parse_host_entry_spec(h, default_port) == Ok::<(Seq<char>, u16), ErrorView>(
            (h, default_port),
        ),
{
    lemma_trimmed_unchanged(h);
    lemma_absent(h, ':');
}

/// Law: an address in brackets followed by `:` and the decimal form of a
/// port reads back as that address and port, whatever the address holds
/// besides `]`.
pub proof fn law_bracketed_roundtrip(h: Seq<char>, p: u16, default_port: u16)
    requires
        forall|i: int| 0 <= i < h.len() ==> h[i] != ']',
    ensures
        parse_host_entry_spec(seq!['['] + h + seq![']', ':'] + decimal(p as nat), default_port)
            == Ok::<(Seq<char>, u16), ErrorView>((h, p)),
{
    let dec = decimal(p as nat);
    let a = seq!['['] + h;
    let b = seq![':'] + dec;
    let s = a.push(']') + b;
    assert(seq!['['] + h + seq![']', ':'] + dec =~= s);
    lemma_decimal_plain(p);
    assert(s[0] == '[');
    assert(s.last() == dec.last());
    lemma_trimmed_unchanged(s);
    assert forall|i: int| 0 <= i < a.len() implies a[i] != ']' by {
        if i > 0 {
            assert(a[i] == h[i - 1]);
        }
    }
    lemma_first_index_split(a, ']', b);
    assert(s.subrange(1, a.len() as int) =~= h);
    assert(s.subrange(a.len() as int + 1, s.len() as int) =~= b);
    assert(b.subrange(1, b.len() as int) =~= dec);
    lemma_parse_u16_decimal(p);
}

/// Law: an address in brackets without a port is read as that address on the
/// default port.
pub proof fn law_bracketed_default_port(h: Seq<char>, default_port: u16)
    requires
        forall|i: int| 0 <= i < h.len() ==> h[i] != ']',
    ensures
        parse_host_entry_spec(seq!['['] + h + seq![']'], default_port) == Ok::<
            (Seq<char>, u16),
            ErrorView,
        >((h, default_port)),
{
    let a = seq!['['] + h;
    let s = a.push(']') + Seq::<char>::empty();
    assert(seq!['['] + h + seq![']'] =~= s);
    assert(s[0] == '[');
    assert(s.last() == ']');
    lemma_trimmed_unchanged(s);
    assert forall|i: int| 0 <= i < a.len() implies a[i] != ']' by {
        if i > 0 {
            assert(a[i] == h[i - 1]);
        }
    }
    lemma_first_index_split(a, ']', Seq::<char>::empty());
    assert(s.subrange(1, a.len() as int) =~= h);
    assert(s.subrange(a.len() as int + 1, s.len() as int) =~= Seq::<char>::empty());
}

/// Law: an entry is read as its trimmed form is, so trimming the lines of
/// standard input before reading them changes nothing.
pub proof fn law_entry_read_trimmed(entry: Seq<char>, default_port: u16)
    ensures
        parse_host_entry_spec(trimmed(entry), default_port) == parse_host_entry_spec(
            entry,
            default_port,
        ),
{
    crate::text::law_trim_idempotent(entry);
}

/// Law: a whitespace character before or after an entry, such as the
/// carriage return that ends a line of a CRLF host list, changes nothing in
/// what the entry denotes.
pub proof fn law_white_space_around_entry(entry: Seq<char>, c: char, default_port: u16)
    requires
        crate::text::unicode_white_space(c),
    ensures
        parse_host_entry_spec(entry.push(c), default_port) == parse_host_entry_spec(
            entry,
            default_port,
        ),
        parse_host_entry_spec(seq![c] + entry, default_port) == parse_host_entry_spec(
            entry,
            default_port,
        ),
{
    crate::text::law_space_is_unicode_white_space(c);
    crate::text::law_trim_drops_white_space(entry, c);
}

} // verus!
