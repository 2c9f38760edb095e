//! How a finished archive is named.

use vstd::prelude::*;
use vstd::string::StringExecFns;
use crate::text::{decimal_digits, push_decimal};

verus! {

/// The days that an archive covers: the one day where it begins and ends
/// on the same day, else the first and the last day.
pub open spec fn date_label_of(start_day: Seq<char>, end_day: Seq<char>) -> Seq<char> {
    if start_day == end_day {
        end_day
    } else {
        start_day + " to "@ + end_day
    }
}

/// The days that an archive covers, given the day of its earliest and of
/// its latest message, each written as a date.
pub fn date_label(start_day: &str, end_day: &str) -> (label: String)
    ensures
        label@ == date_label_of(start_day@, end_day@),
{
    let start = String::from_str(start_day);
    let end = String::from_str(end_day);
    if start == end {
        end
    } else {
        let mut label = start;
        label.append(" to ");
        label.append(end_day);
        label
    }
}

/// The file name of an archive: the days it covers, the name given to it,
/// and the extension of the bundle.
pub fn archive_file_name(date_label: &str, archive_name: &str) -> (name: String)
    ensures
        name@ == date_label@ + " - "@ + archive_name@ + ".zip"@,
{
    let mut name = String::from_str(date_label);
    name.append(" - ");
    name.append(archive_name);
    name.append(".zip");
    name
}

/// The zeros that widen a numeral of `digits` digits to four.
pub open spec fn padding(digits: nat) -> Seq<char> {
    if digits >= 4 {
        Seq::empty()
    } else if digits == 3 {
        "0"@
    } else if digits == 2 {
        "00"@
    } else {
        "000"@
    }
}

/// How a user is named in an archive's name: the user's name, the
/// discriminator where the user has one, written with at least four
/// digits, and the identifier in brackets.
pub open spec fn user_label_of(name: Seq<char>, discriminator: u16, id: u64) -> Seq<char> {
    if discriminator == 0 {
        name + " ("@ + decimal_digits(id as nat) + ")"@
    } else {
        name + "#"@ + padding(decimal_digits(discriminator as nat).len()) + decimal_digits(
            discriminator as nat,
        ) + " ("@ + decimal_digits(id as nat) + ")"@
    }
}

proof fn lemma_digits_len(n: nat)
    ensures
        n < 10 ==> decimal_digits(n).len() == 1,
        10 <= n < 100 ==> decimal_digits(n).len() == 2,
        100 <= n < 1000 ==> decimal_digits(n).len() == 3,
        1000 <= n ==> decimal_digits(n).len() >= 4,
    decreases n,
{
    if n >= 10 {
        lemma_digits_len(n / 10);
    }
}

/// How a user is named in an archive's name.
pub fn user_label(name: &str, discriminator: u16, id: u64) -> (label: String)
    ensures
        label@ == user_label_of(name@, discriminator, id),
{
    let mut label = String::from_str(name);
    if discriminator != 0 {
        label.append("#");
        proof {
            lemma_digits_len(discriminator as nat);
        }
        if discriminator < 10 {
            label.append("000");
        } else if discriminator < 100 {
            label.append("00");
        } else if discriminator < 1000 {
            label.append("0");
        }
        push_decimal(&mut label, discriminator as u64);
    }
    label.append(" (");
    push_decimal(&mut label, id);
    label.append(")");
    assert(label@ =~= user_label_of(name@, discriminator, id));
    label
}

/// The calendar day, in UTC, on which a moment falls, written as year,
/// month and day; nothing for a moment that no calendar date stands for.
pub uninterp spec fn utc_day(timestamp: int) -> Option<Seq<char>>;

/// Turns seconds since the Unix epoch into a date with
/// `chrono::DateTime::from_timestamp`, takes its day with `date_naive` and
/// writes it with `format` as `%Y-%m-%d`. Trusted: the outcome is a
/// function of the number alone, and `utc_day` is its name.
#[verifier::external_body]
fn day_text(timestamp: i64) -> (day: Option<String>)
    ensures
        match day {
            Some(day) => utc_day(timestamp as int) == Some(day@),
            None => utc_day(timestamp as int) is None,
        },
{
    match chrono::DateTime::from_timestamp(timestamp, 0) {
        Some(moment) => Some(moment.date_naive().format("%Y-%m-%d").to_string()),
        None => None,
    }
}

/// The days that a range of moments covers, given the day of each end.
pub open spec fn covered_days_of(first: Option<Seq<char>>, last: Option<Seq<char>>) -> Option<
    Seq<char>,
> {
    match (first, last) {
        (Some(first), Some(last)) => Some(date_label_of(first, last)),
        _ => None,
    }
}

/// The days that a range of moments covers, given the day of each end;
/// nothing where an end has no day.
pub fn covered_days_from(first: Option<String>, last: Option<String>) -> (label: Option<String>)
    ensures
        match label {
            Some(label) => covered_days_of(
                crate::extension::option_view(first),
                crate::extension::option_view(last),
            ) == Some(label@),
            None => covered_days_of(
                crate::extension::option_view(first),
                crate::extension::option_view(last),
            ) is None,
        },
{
    match (first, last) {
        (Some(first), Some(last)) => Some(date_label(first.as_str(), last.as_str())),
        _ => None,
    }
}

/// The days, in UTC, that the messages of an archive cover, given the
/// earliest and the latest of their timestamps.
pub fn covered_days(range: (i64, i64)) -> (label: Option<String>)
    ensures
        match label {
            Some(label) => covered_days_of(utc_day(range.0 as int), utc_day(range.1 as int))
                == Some(label@),
            None => covered_days_of(utc_day(range.0 as int), utc_day(range.1 as int)) is None,
        },
{
    covered_days_from(day_text(range.0), day_text(range.1))
}

} // verus!
