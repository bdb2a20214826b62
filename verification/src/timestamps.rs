//! Times of threads: the timestamps Codex writes in seconds or milliseconds,
//! which time a session index entry or database row should carry, and when a
//! stored time is off enough to be rewritten.
use vstd::prelude::*;
use chrono::TimeZone;
use crate::json::{json_view, member_of, opt_json_view, view_get, JsonValue, JsonView};
use crate::selection::{selection_includes_session, RepairTargetSelection};

verus! {

/// A Codex timestamp in milliseconds: values above 10^13 are taken as
/// microseconds, values up to 10^10 as seconds, the rest as milliseconds.
pub open spec fn normalized_ms(t: int) -> int {
    if t > 10_000_000_000_000 {
        t / 1000
    } else if t > 10_000_000_000 {
        t
    } else {
        t * 1000
    }
}

/// The timestamp in milliseconds (see `normalized_ms`).
pub fn normalize_codex_timestamp_ms(timestamp: i64) -> (r: i128)
    ensures
        r == normalized_ms(timestamp as int),
{
    let t = timestamp as i128;
    if t > 10_000_000_000_000 {
        t / 1000
    } else if t > 10_000_000_000 {
        t
    } else {
        t * 1000
    }
}

/// A millisecond time in the range that timestamps read from Codex's files
/// and databases take (an `i64` of seconds or milliseconds, normalized).
pub open spec fn ms_in_range(t: int) -> bool {
    -10_000_000_000_000_000_000_000 <= t <= 10_000_000_000_000_000_000_000
}

/// Every normalized timestamp is in range.
pub proof fn lemma_normalized_in_range(t: i64)
    ensures
        ms_in_range(normalized_ms(t as int)),
{
}

/// How far apart two times may be before the activity of a rollout file wins
/// over the time a database or session index records: an hour.
pub open spec fn activity_drift_ms() -> int {
    3_600_000
}

/// The distance between two times.
pub open spec fn distance(a: int, b: int) -> int {
    if a >= b {
        a - b
    } else {
        b - a
    }
}

/// The time to use given a recorded time and the last activity of the rollout
/// file: the activity when the two are more than the drift apart, else the
/// recorded time; whichever exists when only one does.
pub open spec fn prefer_recorded(recorded: Option<int>, activity: Option<int>) -> Option<int> {
    match (recorded, activity) {
        (Some(r), Some(a)) => if distance(r, a) > activity_drift_ms() {
            Some(a)
        } else {
            Some(r)
        },
        (Some(r), None) => Some(r),
        (None, Some(a)) => Some(a),
        (None, None) => None,
    }
}

/// An optional time taken as a mathematical integer.
pub open spec fn opt_int(o: Option<i128>) -> Option<int> {
    match o {
        Some(v) => Some(v as int),
        None => None,
    }
}

/// An optional time is in range.
pub open spec fn opt_in_range(o: Option<i128>) -> bool {
    o matches Some(v) ==> ms_in_range(v as int)
}

/// Whether an optional time is in range (see `ms_in_range`).
pub fn time_in_range(o: Option<i128>) -> (b: bool)
    ensures
        b == opt_in_range(o),
{
    match o {
        Some(v) => -10_000_000_000_000_000_000_000i128 <= v && v <= 10_000_000_000_000_000_000_000i128,
        None => true,
    }
}

fn abs_distance(a: i128, b: i128) -> (d: i128)
    requires
        ms_in_range(a as int),
        ms_in_range(b as int),
    ensures
        d == distance(a as int, b as int),
{
    if a >= b {
        a - b
    } else {
        b - a
    }
}

fn prefer_recorded_time(recorded: Option<i128>, activity: Option<i128>) -> (r: Option<i128>)
    requires
        opt_in_range(recorded),
        opt_in_range(activity),
    ensures
        opt_int(r) == prefer_recorded(opt_int(recorded), opt_int(activity)),
        opt_in_range(r),
{
    match (recorded, activity) {
        (Some(s), Some(a)) => if abs_distance(s, a) > 3_600_000 {
            Some(a)
        } else {
            Some(s)
        },
        (Some(s), None) => Some(s),
        (None, Some(a)) => Some(a),
        (None, None) => None,
    }
}

/// A thread as the session index is rebuilt from: its id, title, recorded
/// update times (seconds and milliseconds) and rollout file.
#[derive(Debug, Clone)]
pub struct SqliteThreadIndexRow {
    pub id: String,
    pub title: String,
    pub updated_at: Option<i64>,
    pub updated_at_ms: Option<i64>,
    pub rollout_path: Option<String>,
}

/// The update time a database row records, in milliseconds: its millisecond
/// column, else its seconds column.
pub open spec fn row_recorded_ms(row: SqliteThreadIndexRow) -> Option<int> {
    match row.updated_at_ms {
        Some(ms) => Some(ms as int),
        None => match row.updated_at {
            Some(s) => Some(s * 1000),
            None => None,
        },
    }
}

/// A row's recorded time is in milliseconds: its millisecond column when it has
/// one, else a thousand times its seconds column. Without rollout activity that
/// is the thread's update time; with activity at most an hour away it stays
/// the recorded time, and with activity further away the activity wins.
pub proof fn recorded_time_is_in_milliseconds(row: SqliteThreadIndexRow, activity: Option<int>)
    ensures
        row.updated_at_ms matches Some(ms) ==> row_recorded_ms(row) == Some(ms as int),
        row.updated_at_ms is None && row.updated_at is Some ==> row_recorded_ms(row) == Some(
            row.updated_at->0 * 1000,
        ),
        row.updated_at_ms is None && row.updated_at is None ==> row_recorded_ms(row) is None,
        activity is None ==> prefer_recorded(row_recorded_ms(row), activity) == row_recorded_ms(row),
        row_recorded_ms(row) is None ==> prefer_recorded(row_recorded_ms(row), activity) == activity,
        row_recorded_ms(row) is Some && activity is Some ==> prefer_recorded(
            row_recorded_ms(row),
            activity,
        ) == if row_recorded_ms(row)->0 - activity->0 > 3_600_000 || activity->0 - row_recorded_ms(
            row,
        )->0 > 3_600_000 {
            activity
        } else {
            row_recorded_ms(row)
        },
{
}

/// The update time of a thread (see `prefer_recorded`), given the last activity
/// of its rollout file when that file exists and has a timestamped line.
pub fn resolve_thread_updated_at_ms(row: &SqliteThreadIndexRow, rollout_activity_ms: Option<i128>) -> (r:
    Option<i128>)
    requires
        opt_in_range(rollout_activity_ms),
    ensures
        opt_int(r) == prefer_recorded(row_recorded_ms(*row), opt_int(rollout_activity_ms)),
        opt_in_range(r),
        rollout_activity_ms is None && row.updated_at_ms is None ==> match row.updated_at {
            Some(s) => r is Some && r->0 == s * 1000,
            None => r is None,
        },
        rollout_activity_ms is None && row.updated_at_ms is Some ==> r == Some(
            row.updated_at_ms->0 as i128,
        ),
{
    proof {
        recorded_time_is_in_milliseconds(*row, opt_int(rollout_activity_ms));
    }
    let recorded: Option<i128> = match row.updated_at_ms {
        Some(ms) => Some(ms as i128),
        None => match row.updated_at {
            Some(s) => Some(s as i128 * 1000),
            None => None,
        },
    };
    prefer_recorded_time(recorded, rollout_activity_ms)
}

/// The time a rewritten rollout file is given: the session index's time for the
/// session (unless its activity is more than the drift away), its activity, or
/// the fallback when neither is known.
pub open spec fn target_modified_ms(indexed: Option<int>, activity: Option<int>, fallback: Option<int>) -> Option<
    int,
> {
    if indexed is None && activity is None {
        fallback
    } else {
        prefer_recorded(indexed, activity)
    }
}

/// The time a rewritten rollout file is given (see `target_modified_ms`).
pub fn resolve_target_modified_at_ms(
    indexed_ms: Option<i128>,
    activity_ms: Option<i128>,
    fallback_ms: Option<i128>,
) -> (r: Option<i128>)
    requires
        opt_in_range(indexed_ms),
        opt_in_range(activity_ms),
    ensures
        opt_int(r) == target_modified_ms(opt_int(indexed_ms), opt_int(activity_ms), opt_int(fallback_ms)),
{
    if indexed_ms.is_none() && activity_ms.is_none() {
        fallback_ms
    } else {
        prefer_recorded_time(indexed_ms, activity_ms)
    }
}

/// A session index entry needs rewriting when the thread has a time and the
/// entry's time is missing or more than a second away from it.
pub open spec fn entry_needs_update(target: Option<int>, current: Option<int>) -> bool {
    match target {
        None => false,
        Some(t) => match current {
            Some(c) => distance(c, t) > 1000,
            None => true,
        },
    }
}

/// Whether a session index entry needs rewriting (see `entry_needs_update`).
pub fn session_index_entry_needs_update(target_ms: Option<i128>, current_ms: Option<i128>) -> (b: bool)
    requires
        opt_in_range(target_ms),
        opt_in_range(current_ms),
    ensures
        b == entry_needs_update(opt_int(target_ms), opt_int(current_ms)),
{
    match target_ms {
        None => false,
        Some(t) => match current_ms {
            Some(c) => abs_distance(c, t) > 1000,
            None => true,
        },
    }
}

/// An entry rewritten with the thread's time no longer needs rewriting.
pub proof fn rewritten_entry_is_current(target: Option<int>)
    ensures
        !entry_needs_update(target, target),
{
}

/// The milliseconds since the epoch of an RFC 3339 date-time, as chrono's
/// `DateTime::parse_from_rfc3339` and `timestamp_millis` give them; `None`
/// when the text does not parse.
pub uninterp spec fn rfc3339_millis(text: Seq<char>) -> Option<i64>;

/// Parses an RFC 3339 date-time into milliseconds since the epoch.
#[verifier::external_body]
fn parse_rfc3339_millis(text: &str) -> (r: Option<i64>)
    ensures
        r == rfc3339_millis(text@),
{
    chrono::DateTime::parse_from_rfc3339(text).ok().map(|value| value.timestamp_millis())
}

/// The value of a string of decimal digits.
pub open spec fn digits_value(s: Seq<char>) -> int
    decreases s.len(),
{
    if s.len() == 0 {
        0
    } else {
        digits_value(s.drop_last()) * 10 + (s.last() as int - '0' as int)
    }
}

/// Every character is an ASCII digit.
pub open spec fn all_digits(s: Seq<char>) -> bool {
    forall|i: int| 0 <= i < s.len() ==> '0' <= #[trigger] s[i] <= '9'
}

/// What `str::parse::<i64>` gives: an optional `+` or `-` followed by at least
/// one digit and nothing else, whose value fits an `i64`.
pub open spec fn parsed_i64(s: Seq<char>) -> Option<i64> {
    let negative = s.len() > 0 && s[0] == '-';
    let body = if s.len() > 0 && (s[0] == '-' || s[0] == '+') {
        s.drop_first()
    } else {
        s
    };
    let v = if negative {
        -digits_value(body)
    } else {
        digits_value(body)
    };
    if body.len() == 0 || !all_digits(body) || v < i64::MIN || v > i64::MAX {
        None
    } else {
        Some(v as i64)
    }
}

/// Parses a decimal `i64` with `str::parse`.
#[verifier::external_body]
fn parse_i64(text: &str) -> (r: Option<i64>)
    ensures
        r == parsed_i64(text@),
{
    text.parse::<i64>().ok()
}

/// The time in milliseconds a JSON timestamp gives: an integer (one that
/// fits an `i64`) normalized; a string as an RFC 3339 date-time, else as a
/// decimal integer normalized; nothing for other values.
pub open spec fn timestamp_ms_of(v: JsonView) -> Option<int> {
    match v {
        JsonView::Number(Some(n), _) => Some(normalized_ms(n as int)),
        JsonView::Text(t) => match rfc3339_millis(t) {
            Some(ms) => Some(ms as int),
            None => match parsed_i64(t) {
                Some(n) => Some(normalized_ms(n as int)),
                None => None,
            },
        },
        _ => None,
    }
}

/// The time in milliseconds of a JSON timestamp (see `timestamp_ms_of`).
pub fn parse_timestamp_ms(value: &JsonValue) -> (r: Option<i128>)
    ensures
        opt_int(r) == timestamp_ms_of(json_view(*value)),
        opt_in_range(r),
{
    match value {
        JsonValue::Number(Some(n), _) => Some(normalize_codex_timestamp_ms(*n)),
        JsonValue::Text(t) => match parse_rfc3339_millis(t.as_str()) {
            Some(ms) => Some(ms as i128),
            None => match parse_i64(t.as_str()) {
                Some(n) => Some(normalize_codex_timestamp_ms(n)),
                None => None,
            },
        },
        _ => None,
    }
}

/// The time a member of an object gives, when it has the member.
pub open spec fn member_time(v: JsonView, key: Seq<char>) -> Option<int> {
    match view_get(v, key) {
        Some(m) => timestamp_ms_of(m),
        None => None,
    }
}

/// The update time of a session index entry: that of the first of its
/// members `updated_at`, `updatedAt`, `last_updated_at` and `lastUpdatedAt`
/// that gives one.
pub open spec fn entry_updated_at(entry: JsonView) -> Option<int> {
    if member_time(entry, "updated_at"@) is Some {
        member_time(entry, "updated_at"@)
    } else if member_time(entry, "updatedAt"@) is Some {
        member_time(entry, "updatedAt"@)
    } else if member_time(entry, "last_updated_at"@) is Some {
        member_time(entry, "last_updated_at"@)
    } else {
        member_time(entry, "lastUpdatedAt"@)
    }
}

fn time_of_member(v: &JsonValue, key: &str) -> (r: Option<i128>)
    ensures
        opt_int(r) == member_time(json_view(*v), key@),
        opt_in_range(r),
{
    match member_of(v, key) {
        Some(m) => parse_timestamp_ms(m),
        None => None,
    }
}

/// The update time of a session index entry (see `entry_updated_at`).
pub fn parse_session_index_updated_at_ms(entry: &JsonValue) -> (r: Option<i128>)
    ensures
        opt_int(r) == entry_updated_at(json_view(*entry)),
        opt_in_range(r),
{
    let a = time_of_member(entry, "updated_at");
    if a.is_some() {
        return a;
    }
    let b = time_of_member(entry, "updatedAt");
    if b.is_some() {
        return b;
    }
    let c = time_of_member(entry, "last_updated_at");
    if c.is_some() {
        return c;
    }
    time_of_member(entry, "lastUpdatedAt")
}

/// The first of the members `timestamp`, `time`, `created_at` and
/// `createdAt` that an object has.
pub open spec fn first_time_member(v: JsonView) -> Option<JsonView> {
    if view_get(v, "timestamp"@) is Some {
        view_get(v, "timestamp"@)
    } else if view_get(v, "time"@) is Some {
        view_get(v, "time"@)
    } else if view_get(v, "created_at"@) is Some {
        view_get(v, "created_at"@)
    } else {
        view_get(v, "createdAt"@)
    }
}

/// The time of a rollout line: that of its first time member (see
/// `first_time_member`), else that of its payload's first time member.
pub open spec fn line_timestamp(record: JsonView) -> Option<int> {
    let from_top = match first_time_member(record) {
        Some(v) => timestamp_ms_of(v),
        None => None,
    };
    if from_top is Some {
        from_top
    } else {
        match view_get(record, "payload"@) {
            Some(p) => match first_time_member(p) {
                Some(v) => timestamp_ms_of(v),
                None => None,
            },
            None => None,
        }
    }
}

fn first_time_member_of(v: &JsonValue) -> (r: Option<&JsonValue>)
    ensures
        first_time_member(json_view(*v)) == opt_json_view(
            match r {
                Some(m) => Some(*m),
                None => None,
            },
        ),
{
    match member_of(v, "timestamp") {
        Some(m) => return Some(m),
        None => {},
    }
    match member_of(v, "time") {
        Some(m) => return Some(m),
        None => {},
    }
    match member_of(v, "created_at") {
        Some(m) => return Some(m),
        None => {},
    }
    member_of(v, "createdAt")
}

/// The time of a rollout line (see `line_timestamp`).
pub fn parse_rollout_line_timestamp_ms(record: &JsonValue) -> (r: Option<i128>)
    ensures
        opt_int(r) == line_timestamp(json_view(*record)),
        opt_in_range(r),
{
    let from_top = match first_time_member_of(record) {
        Some(v) => parse_timestamp_ms(v),
        None => None,
    };
    if from_top.is_some() {
        return from_top;
    }
    match member_of(record, "payload") {
        Some(p) => match first_time_member_of(p) {
            Some(v) => parse_timestamp_ms(v),
            None => None,
        },
        None => None,
    }
}

/// The latest of the times that lines give.
pub open spec fn latest(stamps: Seq<Option<i128>>) -> Option<int>
    decreases stamps.len(),
{
    if stamps.len() == 0 {
        None
    } else {
        let rest = latest(stamps.drop_last());
        match stamps.last() {
            None => rest,
            Some(t) => match rest {
                Some(m) => if (t as int) > m {
                    Some(t as int)
                } else {
                    Some(m)
                },
                None => Some(t as int),
            },
        }
    }
}

/// The last activity of a rollout file: the latest time its lines give.
pub fn rollout_file_activity_ms(line_stamps: &Vec<Option<i128>>) -> (r: Option<i128>)
    ensures
        opt_int(r) == latest(line_stamps@),
{
    let mut best: Option<i128> = None;
    let mut k: usize = 0;
    while k < line_stamps.len()
        invariant
            k <= line_stamps.len(),
            opt_int(best) == latest(line_stamps@.subrange(0, k as int)),
        decreases line_stamps.len() - k,
    {
        proof {
            assert(line_stamps@.subrange(0, k + 1).drop_last() =~= line_stamps@.subrange(0, k as int));
            assert(line_stamps@.subrange(0, k + 1).last() == line_stamps@[k as int]);
        }
        match line_stamps[k] {
            Some(t) => {
                best = match best {
                    Some(m) => if t > m {
                        Some(t)
                    } else {
                        Some(m)
                    },
                    None => Some(t),
                };
            },
            None => {},
        }
        k = k + 1;
    }
    proof {
        assert(line_stamps@.subrange(0, line_stamps.len() as int) =~= line_stamps@);
    }
    best
}

/// The RFC 3339 text, with microseconds and a `Z`, of a time given in
/// milliseconds since the epoch, as chrono's `Utc.timestamp_millis_opt` and
/// `to_rfc3339_opts(SecondsFormat::Micros, true)` give it; `None` when the time
/// is out of chrono's range.
pub uninterp spec fn rfc3339_micros_text(ms: i64) -> Option<Seq<char>>;

/// Formats a millisecond time as RFC 3339 with microseconds in UTC.
#[verifier::external_body]
fn format_rfc3339_micros(ms: i64) -> (r: Option<String>)
    ensures
        match r {
            Some(s) => rfc3339_micros_text(ms) == Some(s@),
            None => rfc3339_micros_text(ms) is None,
        },
{
    chrono::Utc.timestamp_millis_opt(ms).single().map(
        |value| value.to_rfc3339_opts(chrono::SecondsFormat::Micros, true),
    )
}

/// The text of a time for the session index: the thread's time, or the
/// current time when the thread has none or its time cannot be shown.
pub open spec fn index_time_text(updated_at_ms: Option<int>, now_ms: i64) -> Seq<char> {
    let ms = match updated_at_ms {
        Some(v) => v,
        None => now_ms as int,
    };
    let shown = if i64::MIN <= ms <= i64::MAX {
        rfc3339_micros_text(ms as i64)
    } else {
        None
    };
    match shown {
        Some(s) => s,
        None => match rfc3339_micros_text(now_ms) {
            Some(s) => s,
            None => seq![],
        },
    }
}

/// The text of a thread's time for the session index (see `index_time_text`);
/// `now_ms` is the current time in milliseconds.
pub fn format_thread_updated_at_iso_ms(updated_at_ms: Option<i128>, now_ms: i64) -> (r: String)
    ensures
        r@ == index_time_text(opt_int(updated_at_ms), now_ms),
{
    let ms: i128 = match updated_at_ms {
        Some(v) => v,
        None => now_ms as i128,
    };
    let shown = if -9_223_372_036_854_775_808i128 <= ms && ms <= 9_223_372_036_854_775_807i128 {
        format_rfc3339_micros(ms as i64)
    } else {
        None
    };
    match shown {
        Some(s) => s,
        None => match format_rfc3339_micros(now_ms) {
            Some(s) => s,
            None => String::new(),
        },
    }
}

} // verus!
