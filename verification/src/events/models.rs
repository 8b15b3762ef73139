//! Rows, payloads and responses of calendar events.

use vstd::prelude::*;

verus! {

/// Fixed length of an event on the calendar, only so that the calendar can
/// draw it as a block (it needs a start and an end); never stored.
pub const DISPLAY_DURATION_MINUTES: i64 = 30;

/// Whether chrono's `DateTime::parse_from_rfc3339` accepts the text.
pub uninterp spec fn rfc3339_accepts(s: Seq<char>) -> bool;

/// What chrono's `to_rfc3339_opts(SecondsFormat::Millis, true)` writes
/// for the RFC 3339 date `s` moved by `minutes` minutes, in the offset `s`
/// was written in: milliseconds always, and `Z` for a zero offset.
pub uninterp spec fn rfc3339_plus_minutes(s: Seq<char>, minutes: int) -> Seq<char>;

/// `DateTime::parse_from_rfc3339(s).is_ok()`: claimed to be the named
/// acceptance of chrono's RFC 3339 parser.
#[verifier::external_body]
pub(crate) fn accepts_rfc3339(s: &str) -> (ok: bool)
    ensures
        ok == rfc3339_accepts(s@),
{
    chrono::DateTime::parse_from_rfc3339(s).is_ok()
}

/// chrono's parse of `s` as RFC 3339, moved by `minutes` (`+ Duration::minutes`)
/// and written back with milliseconds and `Z` for a zero offset
/// (`to_rfc3339_opts(SecondsFormat::Millis, true)`), the form the calendar
/// sends (`Date.toJSON()`); `None` when the parse fails. Claimed:
/// it is `Some` exactly when `rfc3339_accepts(s)`, and then holds the named
/// text. `minutes` is kept within a range where neither `Duration::minutes`
/// nor the addition can leave chrono's range for the years RFC 3339 writes.
#[verifier::external_body]
pub(crate) fn rfc3339_after_minutes(s: &str, minutes: i64) -> (r: Option<String>)
    requires
        -1_000_000_000 <= minutes <= 1_000_000_000,
    ensures
        r is Some <==> rfc3339_accepts(s@),
        r matches Some(t) ==> t@ == rfc3339_plus_minutes(s@, minutes as int),
{
    match chrono::DateTime::parse_from_rfc3339(s) {
        Ok(start) => Some(
            (start + chrono::Duration::minutes(minutes)).to_rfc3339_opts(
                chrono::SecondsFormat::Millis,
                true,
            ),
        ),
        Err(_) => None,
    }
}

/// The calendar represents a signed-in user as `{ uid, name }`, so an event
/// carries the same shape for the calendar to compare `user.uid`.
pub struct EventUser {
    pub uid: String,
    pub name: String,
}

pub struct EventResponse {
    pub id: String,
    pub schedule_id: String,
    pub title: String,
    pub start: String,
    pub end: String,
    pub user: EventUser,
}

pub struct EventRow {
    pub id: String,
    pub schedule_id: String,
    /// The name of the schedule: an event keeps no title of its own.
    pub title: String,
    pub start_date: String,
    pub user_id: String,
    pub user_name: String,
}

/// The end drawn for an event starting at `start`: thirty minutes later in
/// RFC 3339, or the start itself when it is not an RFC 3339 date.
pub open spec fn display_end(start: Seq<char>) -> Seq<char> {
    if rfc3339_accepts(start) {
        rfc3339_plus_minutes(start, DISPLAY_DURATION_MINUTES as int)
    } else {
        start
    }
}

impl EventResponse {
    /// The response for a stored event.
    pub fn from(row: EventRow) -> (r: EventResponse)
        ensures
            r.id == row.id,
            r.schedule_id == row.schedule_id,
            r.title == row.title,
            r.start == row.start_date,
            r.end@ == display_end(row.start_date@),
            r.user.uid == row.user_id,
            r.user.name == row.user_name,
    {
        let end = match rfc3339_after_minutes(row.start_date.as_str(), DISPLAY_DURATION_MINUTES) {
            Some(end) => end,
            None => row.start_date.clone(),
        };
        EventResponse {
            id: row.id,
            schedule_id: row.schedule_id,
            title: row.title,
            start: row.start_date,
            end,
            user: EventUser { uid: row.user_id, name: row.user_name },
        }
    }
}

/// An event is always the occurrence of a schedule at a given date.
pub struct EventPayload {
    pub schedule_id: String,
    pub start: String,
}

} // verus!
