use vstd::prelude::*;

use crate::util::WeekDay;

verus! {

/// A calendar date of the `chrono` crate.
#[verifier::external_type_specification]
#[verifier::external_body]
pub struct ExNaiveDate(::chrono::NaiveDate);

/// A time of day of the `chrono` crate.
#[verifier::external_type_specification]
#[verifier::external_body]
pub struct ExNaiveTime(::chrono::NaiveTime);

/// A span of time of the `chrono` crate, which also calls it `Duration`.
#[verifier::external_type_specification]
#[verifier::external_body]
pub struct ExTimeDelta(::chrono::TimeDelta);

/// The date that `text` writes, if it writes one.
pub uninterp spec fn date_of_text(text: Seq<char>) -> Option<::chrono::NaiveDate>;

/// The time of day that `text` writes, if it writes one.
pub uninterp spec fn time_of_text(text: Seq<char>) -> Option<::chrono::NaiveTime>;

/// How `date` is written.
pub uninterp spec fn text_of_date(date: ::chrono::NaiveDate) -> Seq<char>;

/// How `time` is written.
pub uninterp spec fn text_of_time(time: ::chrono::NaiveTime) -> Seq<char>;

/// How `duration` is written.
pub uninterp spec fn text_of_duration(duration: ::chrono::TimeDelta) -> Seq<char>;

/// The day of the week on which `date` falls.
pub uninterp spec fn weekday_of(date: ::chrono::NaiveDate) -> WeekDay;

/// The date `days` days after `date`, if the calendar reaches that far.
pub uninterp spec fn date_plus_days(date: ::chrono::NaiveDate, days: u64) -> Option<
    ::chrono::NaiveDate,
>;

/// The time of day with the given hour, minute and second.
pub uninterp spec fn time_of_hms(hour: u32, minute: u32, second: u32) -> Option<
    ::chrono::NaiveTime,
>;

/// The span of `hours` hours, if a span can be that long.
pub uninterp spec fn duration_of_hours(hours: i64) -> Option<::chrono::TimeDelta>;

/// Calls `NaiveDate::from_str`, which reads a date written as year, month
/// and day with hyphens between them. `None` stands for its error.
#[verifier::external_body]
pub(crate) fn parse_date(text: &str) -> (date: Option<::chrono::NaiveDate>)
    ensures
        date == date_of_text(text@),
{
    text.parse::<::chrono::NaiveDate>().ok()
}

/// Calls `NaiveTime::from_str`, which reads a time of day written as hour
/// and minute, with or without seconds. `None` stands for its error.
#[verifier::external_body]
pub(crate) fn parse_time(text: &str) -> (time: Option<::chrono::NaiveTime>)
    ensures
        time == time_of_text(text@),
{
    text.parse::<::chrono::NaiveTime>().ok()
}

/// Calls `to_string` of `NaiveDate`: the date as `Display` writes it.
#[verifier::external_body]
pub(crate) fn format_date(date: &::chrono::NaiveDate) -> (text: String)
    ensures
        text@ == text_of_date(*date),
{
    date.to_string()
}

/// Calls `to_string` of `NaiveTime`: the time as `Display` writes it.
#[verifier::external_body]
pub(crate) fn format_time(time: &::chrono::NaiveTime) -> (text: String)
    ensures
        text@ == text_of_time(*time),
{
    time.to_string()
}

/// Calls `to_string` of `TimeDelta`: the span as `Display` writes it.
#[verifier::external_body]
pub(crate) fn format_duration(duration: &::chrono::TimeDelta) -> (text: String)
    ensures
        text@ == text_of_duration(*duration),
{
    duration.to_string()
}

/// Calls `Datelike::weekday` and gives the day as a `WeekDay`.
#[verifier::external_body]
pub(crate) fn weekday(date: &::chrono::NaiveDate) -> (day: WeekDay)
    ensures
        day == weekday_of(*date),
{
    match ::chrono::Datelike::weekday(date) {
        ::chrono::Weekday::Mon => WeekDay::Monday,
        ::chrono::Weekday::Tue => WeekDay::Tuesday,
        ::chrono::Weekday::Wed => WeekDay::Wednesday,
        ::chrono::Weekday::Thu => WeekDay::Thursday,
        ::chrono::Weekday::Fri => WeekDay::Friday,
        ::chrono::Weekday::Sat => WeekDay::Saturday,
        ::chrono::Weekday::Sun => WeekDay::Sunday,
    }
}

/// Calls `NaiveDate::checked_add_days`, which gives `None` where the date
/// would be out of the calendar's range. No days after a date is the date
/// itself.
#[verifier::external_body]
pub(crate) fn add_days(date: &::chrono::NaiveDate, days: u64) -> (later: Option<
    ::chrono::NaiveDate,
>)
    ensures
        later == date_plus_days(*date, days),
        days == 0 ==> later == Some(*date),
{
    date.checked_add_days(::chrono::Days::new(days))
}

/// Calls `NaiveTime::from_hms_opt`, which gives a time exactly where the
/// hour is below 24 and minute and second are below 60.
#[verifier::external_body]
pub(crate) fn time_from_hms(hour: u32, minute: u32, second: u32) -> (time: Option<
    ::chrono::NaiveTime,
>)
    ensures
        time == time_of_hms(hour, minute, second),
        (time is Some) == (hour < 24 && minute < 60 && second < 60),
{
    ::chrono::NaiveTime::from_hms_opt(hour, minute, second)
}

/// Calls `TimeDelta::try_hours`, which gives a span exactly where the
/// hours, counted in seconds, lie within the bounds of a `TimeDelta`: at
/// most `i64::MAX / 1000` seconds either way.
#[verifier::external_body]
pub(crate) fn duration_from_hours(hours: i64) -> (duration: Option<::chrono::TimeDelta>)
    ensures
        duration == duration_of_hours(hours),
        (duration is Some) == (-9_223_372_036_854_775 <= hours * 3600 && hours * 3600
            <= 9_223_372_036_854_775),
{
    ::chrono::TimeDelta::try_hours(hours)
}

/// Calls `Local::now` and takes the date of the moment in the local time
/// zone. Nothing is known of the date: it depends on when and where the
/// call is made.
#[verifier::external_body]
pub(crate) fn today() -> ::chrono::NaiveDate {
    ::chrono::Local::now().date_naive()
}

} // verus!
