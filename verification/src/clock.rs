//! Local wall-clock time, formatted for time stamps and file names.

use vstd::prelude::*;
use crate::text::is_digit;
use crate::types::TimestampFormat;

verus! {

#[verifier::external_type_specification]
#[verifier::external_body]
pub struct ExNaiveDateTime(chrono::NaiveDateTime);

/// `HH:MM:SS`: three two-digit fields separated by colons.
pub open spec fn is_clock_time(s: Seq<char>) -> bool {
    &&& s.len() == 8
    &&& s[2] == ':'
    &&& s[5] == ':'
    &&& is_digit(s[0]) && is_digit(s[1])
    &&& is_digit(s[3]) && is_digit(s[4])
    &&& is_digit(s[6]) && is_digit(s[7])
}

/// `HH:MM:SS.mmm`: a clock time, a dot and three digits of milliseconds.
pub open spec fn is_clock_time_ms(s: Seq<char>) -> bool {
    &&& s.len() == 12
    &&& is_clock_time(s.take(8))
    &&& s[8] == '.'
    &&& is_digit(s[9]) && is_digit(s[10]) && is_digit(s[11])
}

/// Text that ends with a space and a clock time, as a date followed by the
/// time of day does.
pub open spec fn ends_with_clock_time(s: Seq<char>) -> bool {
    s.len() >= 9 && s[s.len() - 9] == ' ' && is_clock_time(s.skip(s.len() - 8))
}

/// The shape of a time stamp written in `fmt`.
pub open spec fn stamp_shape(fmt: TimestampFormat, s: Seq<char>) -> bool {
    match fmt {
        TimestampFormat::TimeOnly => is_clock_time(s),
        TimestampFormat::TimeMsec => is_clock_time_ms(s),
        TimestampFormat::DateTime => ends_with_clock_time(s),
    }
}

/// `serial_log_…_HHMMSS.txt`: the fixed prefix, then the date, an
/// underscore, six digits of time and the `.txt` suffix.
pub open spec fn is_log_file_name(s: Seq<char>) -> bool {
    &&& s.len() >= 22
    &&& s.take(11) == "serial_log_"@
    &&& s.skip(s.len() - 4) == ".txt"@
    &&& s[s.len() - 11] == '_'
    &&& forall|i: int| s.len() - 10 <= i < s.len() - 4 ==> is_digit(#[trigger] s[i])
}

/// The strftime patterns this library formats times with.
pub open spec fn known_pattern(p: Seq<char>) -> bool {
    ||| p == "%H:%M:%S"@
    ||| p == "%H:%M:%S%.3f"@
    ||| p == "%Y-%m-%d %H:%M:%S"@
    ||| p == "serial_log_%Y%m%d_%H%M%S.txt"@
}

/// The current local time, as a date and time of day without zone
/// (`chrono::Local::now`, taken by its local reading); nothing is promised
/// of it.
#[verifier::external_body]
fn local_now() -> chrono::NaiveDateTime {
    chrono::Local::now().naive_local()
}

/// `t.format(pattern).to_string()` (`chrono::NaiveDateTime::format`).  For the
/// patterns admitted, chrono's documentation fixes the width of the hour,
/// minute and second fields (two digits each) and of `%.3f` (a dot and three
/// digits), and copies the other characters of the pattern; that shape is
/// all the contract states, and it says nothing of the date fields, whose
/// width depends on the year.
#[verifier::external_body]
fn format_time(t: &chrono::NaiveDateTime, pattern: &str) -> (s: String)
    requires
        known_pattern(pattern@),
    ensures
        pattern@ == "%H:%M:%S"@ ==> is_clock_time(s@),
        pattern@ == "%H:%M:%S%.3f"@ ==> is_clock_time_ms(s@),
        pattern@ == "%Y-%m-%d %H:%M:%S"@ ==> ends_with_clock_time(s@),
        pattern@ == "serial_log_%Y%m%d_%H%M%S.txt"@ ==> is_log_file_name(s@),
{
    t.format(pattern).to_string()
}

/// The current local time as `HH:MM:SS`.
pub fn time_of_day() -> (s: String)
    ensures
        is_clock_time(s@),
{
    let now = local_now();
    format_time(&now, "%H:%M:%S")
}

/// The current local time written in the chosen time-stamp format.
pub fn fmt_timestamp(fmt: TimestampFormat) -> (s: String)
    ensures
        stamp_shape(fmt, s@),
{
    let now = local_now();
    match fmt {
        TimestampFormat::TimeOnly => format_time(&now, "%H:%M:%S"),
        TimestampFormat::TimeMsec => format_time(&now, "%H:%M:%S%.3f"),
        TimestampFormat::DateTime => format_time(&now, "%Y-%m-%d %H:%M:%S"),
    }
}

/// The name of a log file saved now: `serial_log_YYYYMMDD_HHMMSS.txt`.
pub fn log_file_name() -> (s: String)
    ensures
        is_log_file_name(s@),
{
    let now = local_now();
    format_time(&now, "serial_log_%Y%m%d_%H%M%S.txt")
}

} // verus!
