//! Instants in UTC as Unix seconds and nanoseconds, the whole days between
//! two of them, and their RFC 3339 text.
use vstd::prelude::*;

use std::time::{SystemTime, UNIX_EPOCH};

use chrono::{TimeZone, Utc};

verus! {

/// The first second that `chrono` represents: January 1 of the year
/// -262143 (`NaiveDate::MIN`), 00:00:00 UTC.
pub open spec fn chrono_min_secs() -> int {
    -8_334_601_228_800
}

/// The last second that `chrono` represents: December 31 of the year 262142
/// (`NaiveDate::MAX`), 23:59:59 UTC.
pub open spec fn chrono_max_secs() -> int {
    8_210_266_876_799
}

/// Whether `chrono` represents the instant `secs` seconds and `nanos`
/// nanoseconds after the Unix epoch (`Utc.timestamp_opt(secs, nanos)` is a
/// single date and time): the day lies within `chrono`'s dates, and the
/// nanoseconds are below one billion, or below two billion in the last second
/// of a minute (a leap second).
pub open spec fn chrono_accepts(secs: i64, nanos: u32) -> bool {
    &&& chrono_min_secs() <= secs <= chrono_max_secs()
    &&& (nanos < 1_000_000_000 || (nanos < 2_000_000_000 && secs % 60 == 59))
}

/// The RFC 3339 text that `chrono` writes for that instant (`to_rfc3339`).
pub uninterp spec fn rfc3339_text(secs: i64, nanos: u32) -> Seq<char>;

/// `chrono::Utc.timestamp_opt(secs, nanos).single()`, and of the instant it
/// gives, `DateTime::<Utc>::to_rfc3339`: `None` exactly when `chrono` does
/// not represent the instant (`chrono_accepts`, as `DateTime::from_timestamp`,
/// `NaiveDate::from_num_days_from_ce_opt` and
/// `NaiveTime::from_num_seconds_from_midnight_opt` decide it), else the text
/// (the name `rfc3339_text`).
#[verifier::external_body]
fn chrono_instant_text(secs: i64, nanos: u32) -> (r: Option<String>)
    ensures
        r is Some <==> chrono_accepts(secs, nanos),
        r matches Some(t) ==> t@ == rfc3339_text(secs, nanos),
{
    match Utc.timestamp_opt(secs, nanos).single() {
        Some(d) => Some(d.to_rfc3339()),
        None => None,
    }
}

/// `std::time::SystemTime::now()`, read as its `duration_since(UNIX_EPOCH)`
/// in whole seconds (`as_secs`) and nanoseconds (`subsec_nanos`); `None` when
/// the clock reads a time before the Unix epoch (`duration_since` fails).
/// What it returns depends on the clock, so nothing ties it to any value; of
/// every outcome it holds that the nanoseconds are below one billion, as
/// `Duration::subsec_nanos` documents. It does not panic.
#[verifier::external_body]
fn system_clock() -> (r: Option<(u64, u32)>)
    ensures
        r matches Some(v) ==> v.1 < 1_000_000_000,
{
    match SystemTime::now().duration_since(UNIX_EPOCH) {
        Ok(d) => Some((d.as_secs(), d.subsec_nanos())),
        Err(_) => None,
    }
}

/// An instant that `chrono` represents, with the nanoseconds within the second.
pub open spec fn valid_instant(secs: i64, nanos: u32) -> bool {
    chrono_accepts(secs, nanos) && nanos < 1_000_000_000
}

/// An instant in UTC: whole seconds since the Unix epoch and the nanoseconds
/// within the second. `chrono` represents every value of this type.
#[derive(Debug, Clone, Copy, PartialEq, Eq, Structural)]
pub struct Timestamp {
    secs: i64,
    nanos: u32,
}

impl View for Timestamp {
    type V = (i64, u32);

    closed spec fn view(&self) -> (i64, u32) {
        (self.secs, self.nanos)
    }
}

/// The whole seconds from `earlier` to `later`, rounded toward zero, as
/// `(later - earlier).num_seconds()` counts them in `chrono` for instants
/// whose nanoseconds are below one billion (no leap second).
pub open spec fn whole_seconds_between(later: (i64, u32), earlier: (i64, u32)) -> int {
    let d = (later.0 - earlier.0) * 1_000_000_000 + later.1 - earlier.1;
    if d >= 0 {
        d / 1_000_000_000
    } else {
        -((-d) / 1_000_000_000)
    }
}

/// The whole days from `earlier` to `later`: the whole seconds divided by
/// 86400 and rounded down (`div_euclid`).
pub open spec fn days_between(later: (i64, u32), earlier: (i64, u32)) -> int {
    whole_seconds_between(later, earlier) / 86400
}

impl Timestamp {
    #[verifier::type_invariant]
    closed spec fn representable(self) -> bool {
        valid_instant(self.secs, self.nanos)
    }

    /// The instant `secs` seconds and `nanos` nanoseconds after the Unix
    /// epoch, where `chrono` represents it and `nanos` is below one billion.
    pub fn from_unix(secs: i64, nanos: u32) -> (r: Option<Timestamp>)
        ensures
            r is Some <==> valid_instant(secs, nanos),
            r matches Some(t) ==> t@ == (secs, nanos),
    {
        if nanos < 1_000_000_000 && chrono_instant_text(secs, nanos).is_some() {
            Some(Timestamp { secs, nanos })
        } else {
            None
        }
    }

    /// The current instant, as `chrono::Utc::now` reads it from the system
    /// clock; `None` where that would panic: when the clock reads a time
    /// before the Unix epoch or one that `chrono` does not represent. What the
    /// instant is depends on the clock.
    pub fn now() -> (r: Option<Timestamp>)
        ensures
            r matches Some(t) ==> valid_instant(t@.0, t@.1),
    {
        match system_clock() {
            Some((secs, nanos)) => {
                if secs <= 0x7fff_ffff_ffff_ffff {
                    Timestamp::from_unix(secs as i64, nanos)
                } else {
                    None
                }
            },
            None => None,
        }
    }

    /// Whole seconds since the Unix epoch.
    pub fn unix_seconds(&self) -> (r: i64)
        ensures
            r == self@.0,
    {
        self.secs
    }

    /// Nanoseconds within the second.
    pub fn subsec_nanos(&self) -> (r: u32)
        ensures
            r == self@.1,
    {
        self.nanos
    }

    /// The RFC 3339 text of this instant, as `chrono` writes it.
    pub fn to_rfc3339(&self) -> (r: String)
        ensures
            r@ == rfc3339_text(self@.0, self@.1),
    {
        proof {
            use_type_invariant(self);
        }
        match chrono_instant_text(self.secs, self.nanos) {
            Some(t) => t,
            None => {
                assert(false);
                String::new()
            },
        }
    }

    /// The whole days from `earlier` to this instant, rounded down, so that
    /// the whole seconds between them lie in `[r * 86400, (r + 1) * 86400)`.
    pub fn days_since(&self, earlier: &Timestamp) -> (r: i64)
        ensures
            r == days_between(self@, earlier@),
            r * 86400 <= whole_seconds_between(self@, earlier@) < (r + 1) * 86400,
    {
        let d: i128 = ((self.secs as i128) - (earlier.secs as i128)) * 1_000_000_000 + (
        self.nanos as i128) - (earlier.nanos as i128);
        let s: i128 = if d >= 0 {
            d / 1_000_000_000
        } else {
            0 - ((0 - d) / 1_000_000_000)
        };
        assert(s == whole_seconds_between(self@, earlier@));
        let days: i128 = if s >= 0 {
            s / 86400
        } else {
            0 - ((86399 - s) / 86400)
        };
        assert(days == s / 86400) by (nonlinear_arith)
            requires
                days == (if s >= 0 {
                    s / 86400
                } else {
                    0 - ((86399 - s) / 86400)
                }),
        ;
        days as i64
    }
}

} // verus!
