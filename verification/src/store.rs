//! The record logic of the constraint history store: the values a violation
//! row is written with, and how a stored row is read back.  The SQL itself
//! runs against SQLite outside this crate.

use vstd::prelude::*;

verus! {

/// An instant: whole seconds since the Unix epoch (UTC) and the nanoseconds past that second.
#[derive(Clone, Copy, Debug, PartialEq, Eq, Structural)]
pub struct Instant {
    pub secs: i64,
    pub nanos: u32,
}

/// The instant that chrono's RFC 3339 parser reads from a text, if it accepts the text.
pub uninterp spec fn rfc3339_instant(text: Seq<char>) -> Option<(i64, u32)>;

/// The RFC 3339 text that chrono writes for an instant, if chrono can represent the instant.
pub uninterp spec fn rfc3339_text(secs: i64, nanos: u32) -> Option<Seq<char>>;

/// The instant lies in the years 0 to 9999 (UTC), whose RFC 3339 text has a four-digit year:
/// from 0000-01-01T00:00:00Z up to, not including, 10000-01-01T00:00:00Z.
pub open spec fn four_digit_year(t: Instant) -> bool {
    -62167219200 <= t.secs < 253402300800
}

/// Calls `chrono::DateTime::parse_from_rfc3339` and reads the result's Unix
/// seconds and sub-second nanoseconds.  Claimed: the result is the one
/// [`rfc3339_instant`] names for the text, `None` exactly when chrono refuses it.
/// Not claimed: which texts chrono accepts, or which instant it reads.
#[verifier::external_body]
fn parse_rfc3339(text: &str) -> (r: Option<Instant>)
    ensures
        match rfc3339_instant(text@) {
            Some((secs, nanos)) => r == Some(Instant { secs, nanos }),
            None => r is None,
        },
{
    match chrono::DateTime::parse_from_rfc3339(text) {
        Ok(d) => Some(Instant { secs: d.timestamp(), nanos: d.timestamp_subsec_nanos() }),
        Err(_) => None,
    }
}

/// Builds a `chrono::DateTime<Utc>` with `chrono::DateTime::from_timestamp`
/// and writes it with `to_rfc3339`.  Claimed: the result is the text
/// [`rfc3339_text`] names for the instant, `None` exactly when chrono cannot
/// represent the instant; an instant in the years 0 to 9999 with fewer than
/// a second of nanoseconds is represented; and for an instant in those years
/// chrono's RFC 3339 parser reads the written text back as the instant (the
/// writer puts a four-digit year, month, day, hours, minutes, seconds, the
/// exact fraction and `+00:00`, all of which the parser reads; a leap second
/// is written as second 60, which the parser reads back as such).  Not
/// claimed: the text's characters, or the range chrono represents beyond
/// those years.
#[verifier::external_body]
fn format_rfc3339(t: Instant) -> (r: Option<String>)
    ensures
        match rfc3339_text(t.secs, t.nanos) {
            Some(text) => r matches Some(s) && s@ == text,
            None => r is None,
        },
        four_digit_year(t) && t.nanos < 1_000_000_000 ==> r is Some,
        r matches Some(s) ==> (four_digit_year(t) ==> rfc3339_instant(s@) == Some(
            (t.secs, t.nanos),
        )),
{
    match chrono::DateTime::from_timestamp(t.secs, t.nanos) {
        Some(d) => Some(d.to_rfc3339()),
        None => None,
    }
}

/// The instant a stored timestamp stands for, given what parsing it gave:
/// the parsed instant, or `fallback` when it did not parse.
pub fn instant_or(parsed: Option<Instant>, fallback: Instant) -> (t: Instant)
    ensures
        t == match parsed {
            Some(p) => p,
            None => fallback,
        },
{
    match parsed {
        Some(p) => p,
        None => fallback,
    }
}

/// The instant of a stored timestamp text: the one it denotes in RFC 3339,
/// or `now` when it is not RFC 3339 text.
pub fn stored_instant(text: &str, now: Instant) -> (t: Instant)
    ensures
        t == match rfc3339_instant(text@) {
            Some((secs, nanos)) => Instant { secs, nanos },
            None => now,
        },
{
    instant_or(parse_rfc3339(text), now)
}

/// The text an instant is stored and compared as: its RFC 3339 form, or
/// `None` for an instant outside chrono's range.  In the years 0 to 9999 the
/// text reads back as the instant.
pub fn instant_param(t: Instant) -> (r: Option<String>)
    ensures
        match rfc3339_text(t.secs, t.nanos) {
            Some(text) => r matches Some(s) && s@ == text,
            None => r is None,
        },
        four_digit_year(t) && t.nanos < 1_000_000_000 ==> r is Some,
        r matches Some(s) ==> (four_digit_year(t) ==> rfc3339_instant(s@) == Some(
            (t.secs, t.nanos),
        )),
{
    format_rfc3339(t)
}

/// One stored violation of a constraint.
pub struct ViolationRecord {
    pub id: Option<i64>,
    pub agent_id: String,
    pub constraint_name: String,
    pub severity: String,
    pub observed_json: String,
    pub threshold_json: String,
    pub message: String,
    pub timestamp: Instant,
}

/// Checks and violations of one constraint of one agent within one hour.
pub struct HourlyAggregate {
    pub hour: String,
    pub agent_id: String,
    pub constraint_name: String,
    pub checks: i64,
    pub violations: i64,
}

/// The column values of a violation row, in insertion order: agent, constraint,
/// severity, observed, threshold, message, timestamp text.
pub open spec fn violation_columns(rec: ViolationRecord, stamp: Seq<char>) -> Seq<Seq<char>> {
    seq![
        rec.agent_id@,
        rec.constraint_name@,
        rec.severity@,
        rec.observed_json@,
        rec.threshold_json@,
        rec.message@,
        stamp,
    ]
}

impl ViolationRecord {
    /// The values a violation row is inserted with (see [`violation_columns`]);
    /// `None` when the timestamp lies outside chrono's range.  For a timestamp
    /// in the years 0 to 9999 the timestamp column reads back as the
    /// timestamp, so [`ViolationRecord::from_row`] on these columns gives the
    /// record back, but for its id.
    pub fn insert_params(&self) -> (r: Option<Vec<String>>)
        ensures
            match rfc3339_text(self.timestamp.secs, self.timestamp.nanos) {
                Some(stamp) => r matches Some(cols) && cols@.map_values(|c: String| c@)
                    == violation_columns(*self, stamp),
                None => r is None,
            },
            four_digit_year(self.timestamp) && self.timestamp.nanos < 1_000_000_000 ==> r is Some,
            r matches Some(cols) ==> cols@.len() == 7 && cols@[0]@ == self.agent_id@
                && cols@[1]@ == self.constraint_name@ && cols@[2]@ == self.severity@
                && cols@[3]@ == self.observed_json@ && cols@[4]@ == self.threshold_json@
                && cols@[5]@ == self.message@,
            r matches Some(cols) ==> (four_digit_year(self.timestamp) ==> cols@.len() == 7
                && rfc3339_instant(cols@[6]@) == Some(
                (self.timestamp.secs, self.timestamp.nanos),
            )),
    {
        match instant_param(self.timestamp) {
            Some(stamp) => {
                let mut cols: Vec<String> = Vec::new();
                cols.push(self.agent_id.clone());
                cols.push(self.constraint_name.clone());
                cols.push(self.severity.clone());
                cols.push(self.observed_json.clone());
                cols.push(self.threshold_json.clone());
                cols.push(self.message.clone());
                cols.push(stamp);
                proof {
                    let stamp_text = rfc3339_text(self.timestamp.secs, self.timestamp.nanos)->0;
                    assert(cols@.map_values(|c: String| c@) =~= violation_columns(
                        *self,
                        stamp_text,
                    ));
                }
                Some(cols)
            },
            None => None,
        }
    }

    /// A violation read back from a stored row, whose columns come in the order
    /// [`ViolationRecord::insert_params`] gives them: the columns as they are, and
    /// the timestamp text's instant, or `now` when the text is not RFC 3339.
    pub fn from_row(
        id: Option<i64>,
        agent_id: String,
        constraint_name: String,
        severity: String,
        observed_json: String,
        threshold_json: String,
        message: String,
        timestamp_text: &str,
        now: Instant,
    ) -> (rec: ViolationRecord)
        ensures
            rec.id == id,
            rec.agent_id == agent_id,
            rec.constraint_name == constraint_name,
            rec.severity == severity,
            rec.observed_json == observed_json,
            rec.threshold_json == threshold_json,
            rec.message == message,
            rec.timestamp == match rfc3339_instant(timestamp_text@) {
                Some((secs, nanos)) => Instant { secs, nanos },
                None => now,
            },
    {
        ViolationRecord {
            id,
            agent_id,
            constraint_name,
            severity,
            observed_json,
            threshold_json,
            message,
            timestamp: stored_instant(timestamp_text, now),
        }
    }
}

/// The values a window query over violations is run with: the bounds' RFC 3339
/// texts and the limit as SQLite's signed integer (a limit beyond `i64::MAX`
/// wraps to a negative one, which SQLite reads as no limit); `None` when a bound
/// lies outside chrono's range.
pub fn window_params(since: Instant, until: Instant, limit: usize) -> (r: Option<(String, String, i64)>)
    ensures
        match (rfc3339_text(since.secs, since.nanos), rfc3339_text(until.secs, until.nanos)) {
            (Some(a), Some(b)) => r matches Some(p) && p.0@ == a && p.1@ == b && p.2 == limit as i64,
            _ => r is None,
        },
{
    let lo = instant_param(since);
    let hi = instant_param(until);
    match (lo, hi) {
        (Some(a), Some(b)) => Some((a, b, limit as i64)),
        _ => None,
    }
}

/// Each column of a violation row holds the record field of the same name:
/// agent, constraint, severity, observed value, threshold, message, and
/// then the timestamp text, so no two fields trade places.
pub proof fn lemma_violation_columns_hold_their_fields(rec: ViolationRecord, stamp: Seq<char>)
    ensures
        violation_columns(rec, stamp).len() == 7,
        violation_columns(rec, stamp)[0] == rec.agent_id@,
        violation_columns(rec, stamp)[1] == rec.constraint_name@,
        violation_columns(rec, stamp)[2] == rec.severity@,
        violation_columns(rec, stamp)[3] == rec.observed_json@,
        violation_columns(rec, stamp)[4] == rec.threshold_json@,
        violation_columns(rec, stamp)[5] == rec.message@,
        violation_columns(rec, stamp)[6] == stamp,
{
}

} // verus!
