//! Protection expiries: either the "never expires" sentinel or a concrete
//! UTC timestamp. Parsing a timestamp string goes through chrono; everything
//! after the parse — range checking, the date-granularity comparison, and
//! formatting back to the wire form — is verified here.

use vstd::prelude::*;
use chrono::Datelike;
use chrono::Timelike;
use crate::date::Date;
use crate::text::{four_digit_seq, two_digit_seq, push_four_digits, push_two_digits};

verus! {

/// A UTC instant at second granularity.
#[derive(Clone, Copy, PartialEq, Eq, Structural, Debug)]
pub struct Timestamp {
    pub date: Date,
    pub hour: u32,
    pub minute: u32,
    pub second: u32,
}

impl Timestamp {
    pub open spec fn wf(self) -> bool {
        &&& self.date.wf()
        &&& self.hour < 24
        &&& self.minute < 60
        &&& self.second < 60
    }
}

/// When a protection runs out: never, or at a given instant.
#[derive(Clone, Copy, PartialEq, Eq, Structural, Debug)]
pub enum Expiry {
    Infinity,
    At(Timestamp),
}

impl Expiry {
    pub open spec fn wf(self) -> bool {
        match self {
            Expiry::Infinity => true,
            Expiry::At(ts) => ts.wf(),
        }
    }
}

/// What chrono's RFC 3339 parser makes of a string: `None` when the string
/// does not parse as a UTC datetime, else the year, month, day, hour, minute
/// and second of the parsed instant.
pub uninterp spec fn utc_timestamp_of(s: Seq<char>) -> Option<(i32, u32, u32, u32, u32, u32)>;

/// Relies on chrono's `FromStr for DateTime<Utc>` (a relaxed RFC 3339) and
/// the `Datelike`/`Timelike` accessors, whose documentation promises month
/// in 1..=12, day in 1..=31, hour below 24, minute and second below 60. The
/// parse is a pure function of the characters alone.
#[verifier::external_body]
fn parse_utc_timestamp(s: &str) -> (r: Option<(i32, u32, u32, u32, u32, u32)>)
    ensures
        r == utc_timestamp_of(s@),
        r matches Some(t) ==> 1 <= t.1 <= 12 && 1 <= t.2 <= 31 && t.3 < 24 && t.4 < 60 && t.5
            < 60,
{
    match s.parse::<chrono::DateTime<chrono::Utc>>() {
        Ok(dt) => Some((dt.year(), dt.month(), dt.day(), dt.hour(), dt.minute(), dt.second())),
        Err(_) => None,
    }
}

/// The parsed components this crate can carry: every field in range and the
/// year within four digits.
pub open spec fn parts_wf(y: int, mo: int, d: int, h: int, mi: int, se: int) -> bool {
    &&& 0 <= y <= 9999
    &&& 1 <= mo <= 12
    &&& 1 <= d <= 31
    &&& 0 <= h < 24
    &&& 0 <= mi < 60
    &&& 0 <= se < 60
}

pub open spec fn timestamp_from_parts_s(y: int, mo: int, d: int, h: int, mi: int, se: int) -> Timestamp {
    Timestamp {
        date: Date { year: y as u32, month: mo as u32, day: d as u32 },
        hour: h as u32,
        minute: mi as u32,
        second: se as u32,
    }
}

/// Builds a timestamp from parsed components, refusing any component out of
/// range.
pub fn timestamp_from_parts(y: i32, mo: u32, d: u32, h: u32, mi: u32, se: u32) -> (r: Option<
    Timestamp,
>)
    ensures
        r is Some <==> parts_wf(y as int, mo as int, d as int, h as int, mi as int, se as int),
        r matches Some(ts) ==> ts == timestamp_from_parts_s(
            y as int,
            mo as int,
            d as int,
            h as int,
            mi as int,
            se as int,
        ) && ts.wf(),
{
    if 0 <= y && y <= 9999 && 1 <= mo && mo <= 12 && 1 <= d && d <= 31 && h < 24 && mi < 60 && se
        < 60 {
        Some(
            Timestamp {
                date: Date { year: y as u32, month: mo, day: d },
                hour: h,
                minute: mi,
                second: se,
            },
        )
    } else {
        None
    }
}

/// Whether an expiry string is one this crate accepts: the sentinel, or a
/// parsable timestamp whose components are all in range.
pub open spec fn expiry_ok(s: Seq<char>) -> bool {
    ||| s == "infinity"@
    ||| (utc_timestamp_of(s) matches Some(t) && parts_wf(
        t.0 as int,
        t.1 as int,
        t.2 as int,
        t.3 as int,
        t.4 as int,
        t.5 as int,
    ))
}

/// The expiry an accepted string denotes.
pub open spec fn expiry_val(s: Seq<char>) -> Expiry {
    if s == "infinity"@ {
        Expiry::Infinity
    } else {
        match utc_timestamp_of(s) {
            Some(t) => Expiry::At(
                timestamp_from_parts_s(
                    t.0 as int,
                    t.1 as int,
                    t.2 as int,
                    t.3 as int,
                    t.4 as int,
                    t.5 as int,
                ),
            ),
            None => Expiry::Infinity,
        }
    }
}

/// An expiry string this crate had to refuse, kept for the error report.
#[derive(Clone, Debug)]
pub struct ExpiryParseError {
    pub text: String,
}

impl ExpiryParseError {
    /// The operator-facing description of the failure.
    pub fn message(&self) -> (r: String)
        ensures
            r@ == "cannot parse protection expiry: "@ + self.text@,
    {
        let mut s: String = "cannot parse protection expiry: ".to_owned();
        s.append(self.text.as_str());
        s
    }
}

/// Reads an expiry as the remote system reports it: the sentinel `infinity`
/// stays the sentinel, anything else must parse as a UTC timestamp with a
/// four-digit year.
pub fn parse_expiry(s: &String) -> (r: Result<Expiry, ExpiryParseError>)
    ensures
        r is Ok <==> expiry_ok(s@),
        r matches Ok(e) ==> e == expiry_val(s@) && e.wf(),
        r matches Err(err) ==> err.text@ == s@,
{
    let sentinel: String = "infinity".to_owned();
    if s.eq(&sentinel) {
        Ok(Expiry::Infinity)
    } else {
        match parse_utc_timestamp(s.as_str()) {
            Some((y, mo, d, h, mi, se)) => match timestamp_from_parts(y, mo, d, h, mi, se) {
                Some(ts) => Ok(Expiry::At(ts)),
                None => Err(ExpiryParseError { text: s.clone() }),
            },
            None => Err(ExpiryParseError { text: s.clone() }),
        }
    }
}

/// The wire form of an expiry: the sentinel, or
/// `YYYY-MM-DDThh:mm:ssZ`.
pub open spec fn expiry_seq(e: Expiry) -> Seq<char> {
    match e {
        Expiry::Infinity => "infinity"@,
        Expiry::At(ts) => four_digit_seq(ts.date.year as int) + seq!['-'] + two_digit_seq(
            ts.date.month as int,
        ) + seq!['-'] + two_digit_seq(ts.date.day as int) + seq!['T'] + two_digit_seq(
            ts.hour as int,
        ) + seq![':'] + two_digit_seq(ts.minute as int) + seq![':'] + two_digit_seq(
            ts.second as int,
        ) + seq!['Z'],
    }
}

pub fn format_expiry(e: &Expiry) -> (r: String)
    requires
        e.wf(),
    ensures
        r@ == expiry_seq(*e),
{
    match e {
        Expiry::Infinity => "infinity".to_owned(),
        Expiry::At(ts) => {
            let mut s = String::new();
            push_four_digits(&mut s, ts.date.year);
            s.append("-");
            push_two_digits(&mut s, ts.date.month);
            s.append("-");
            push_two_digits(&mut s, ts.date.day);
            s.append("T");
            push_two_digits(&mut s, ts.hour);
            s.append(":");
            push_two_digits(&mut s, ts.minute);
            s.append(":");
            push_two_digits(&mut s, ts.second);
            s.append("Z");
            proof {
                reveal_strlit("-");
                reveal_strlit("T");
                reveal_strlit(":");
                reveal_strlit("Z");
                assert(s@ =~= expiry_seq(*e));
            }
            s
        },
    }
}

} // verus!
