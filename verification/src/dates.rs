//! The current time and the cutoff of a date check, as the `time` crate computes them.

use crate::error::CheckError;
use crate::mail::MailDate;
use vstd::prelude::*;

verus! {

/// The length of a day in nanoseconds.
pub const NANOS_PER_DAY: i128 = 86_400_000_000_000;

/// Whether `time::OffsetDateTime::checked_sub` can go back `days` days from the date
/// with these nanoseconds since the epoch and this offset, that is, whether both the
/// date and the earlier one are dates that `time` can hold.
pub uninterp spec fn can_go_back(unix_nanos: int, offset_seconds: int, days: int) -> bool;

/// Calls `time::OffsetDateTime::now_local`. The result depends on the clock and on the
/// machine's time zone, so nothing is claimed of it; `None` stands for an offset that
/// could not be determined.
#[verifier::external_body]
pub(crate) fn now_local() -> (r: Option<MailDate>) {
    match time::OffsetDateTime::now_local() {
        Ok(t) => Some(
            MailDate {
                unix_nanos: t.unix_timestamp_nanos(),
                offset_seconds: t.offset().whole_seconds(),
            },
        ),
        Err(_) => None,
    }
}

/// Calls `time::OffsetDateTime::checked_sub` with `time::Duration::days(days)`.
/// Trusted: it succeeds exactly where `can_go_back` holds, and then the result lies
/// that many whole days earlier and keeps the offset.
#[verifier::external_body]
pub(crate) fn checked_sub_days(date: &MailDate, days: u8) -> (r: Option<MailDate>)
    ensures
        r is Some <==> can_go_back(
            date.unix_nanos as int,
            date.offset_seconds as int,
            days as int,
        ),
        r is Some ==> r.unwrap().unix_nanos == date.unix_nanos - days * NANOS_PER_DAY,
        r is Some ==> r.unwrap().offset_seconds == date.offset_seconds,
{
    let offset = time::UtcOffset::from_whole_seconds(date.offset_seconds).ok()?;
    let at = time::OffsetDateTime::from_unix_timestamp_nanos(date.unix_nanos).ok()?;
    let then = at.checked_to_offset(offset)?.checked_sub(time::Duration::days(i64::from(days)))?;
    Some(
        MailDate {
            unix_nanos: then.unix_timestamp_nanos(),
            offset_seconds: then.offset().whole_seconds(),
        },
    )
}

/// The date `days` days before `now`, or why there is none: no current time at all is
/// a formatting failure, a date that cannot be held is a subtraction failure.
pub open spec fn cutoff_of(now: Option<MailDate>, days: u8) -> Result<MailDate, CheckError> {
    match now {
        None => Err(CheckError::DateFormatting),
        Some(t) => if can_go_back(t.unix_nanos as int, t.offset_seconds as int, days as int) {
            Ok(
                MailDate {
                    unix_nanos: (t.unix_nanos - days * NANOS_PER_DAY) as i128,
                    offset_seconds: t.offset_seconds,
                },
            )
        } else {
            Err(CheckError::DateSubtraction(days as i64))
        },
    }
}

/// Computes the cutoff of a date check from the current time.
pub fn cutoff(now: Option<MailDate>, days: u8) -> (r: Result<MailDate, CheckError>)
    ensures
        r == cutoff_of(now, days),
{
    match now {
        None => Err(CheckError::DateFormatting),
        Some(t) => match checked_sub_days(&t, days) {
            Some(then) => Ok(then),
            None => Err(CheckError::DateSubtraction(days as i64)),
        },
    }
}

/// What `time::OffsetDateTime::parse` with the `Rfc2822` description reads from a
/// text: the nanoseconds since the epoch and the offset in seconds, or nothing where
/// the text is no such date.
pub uninterp spec fn rfc2822_date(text: Seq<char>) -> Option<(int, int)>;

/// What `time::OffsetDateTime::format` writes for the date with these nanoseconds
/// since the epoch and this offset, under a format description that
/// `time::format_description::parse_borrowed` (version 1) reads from `description`;
/// nothing where the description or the date is refused.
pub uninterp spec fn formatted_date(
    unix_nanos: int,
    offset_seconds: int,
    description: Seq<char>,
) -> Option<Seq<char>>;

/// Calls `time::OffsetDateTime::parse` with the `Rfc2822` description. Trusted: the
/// result is `rfc2822_date` of the text.
#[verifier::external_body]
pub(crate) fn parse_rfc2822(text: &str) -> (r: Option<MailDate>)
    ensures
        match r {
            Some(d) => rfc2822_date(text@) == Some((d.unix_nanos as int, d.offset_seconds as int)),
            None => rfc2822_date(text@) is None,
        },
{
    match time::OffsetDateTime::parse(text, &time::format_description::well_known::Rfc2822) {
        Ok(t) => Some(
            MailDate {
                unix_nanos: t.unix_timestamp_nanos(),
                offset_seconds: t.offset().whole_seconds(),
            },
        ),
        Err(_) => None,
    }
}

/// Calls `time::OffsetDateTime::format` with the description that
/// `time::format_description::parse_borrowed` reads. Trusted: the result is
/// `formatted_date` of the date and the description.
#[verifier::external_body]
pub(crate) fn format_date(date: &MailDate, description: &str) -> (r: Option<String>)
    ensures
        match r {
            Some(s) => formatted_date(
                date.unix_nanos as int,
                date.offset_seconds as int,
                description@,
            ) == Some(s@),
            None => formatted_date(
                date.unix_nanos as int,
                date.offset_seconds as int,
                description@,
            ) is None,
        },
{
    let items = time::format_description::parse_borrowed::<1>(description).ok()?;
    let offset = time::UtcOffset::from_whole_seconds(date.offset_seconds).ok()?;
    let at = time::OffsetDateTime::from_unix_timestamp_nanos(date.unix_nanos).ok()?;
    at.checked_to_offset(offset)?.format(&items).ok()
}

} // verus!
