//! The decisions of the PSU packer that do not touch the file system: the
//! name of the archive to write, the time stamp given in a configuration
//! file, and the local time of a file's creation and modification times.

use crate::text::{decimal_string, decimal_text};
use chrono::{DateTime, FixedOffset, NaiveDateTime};
use vstd::prelude::*;
use vstd::string::StringExecFns;

verus! {

/// The archive name: the given output, else the save's name with `.psu`.
pub fn get_output_filename(output: &Option<String>, name: &String) -> (filename: String)
    ensures
        filename@ == (match output {
            Some(o) => o@,
            None => name@ + ".psu"@,
        }),
{
    match output {
        Some(o) => o.clone(),
        None => {
            let mut filename = name.clone();
            filename.append(".psu");
            filename
        },
    }
}

/// A calendar date as a configuration file gives it.
#[derive(Clone, Copy, Debug)]
pub struct ConfigDate {
    pub year: u16,
    pub month: u8,
    pub day: u8,
}

/// A time of day as a configuration file gives it (fractions of a second
/// play no part).
#[derive(Clone, Copy, Debug)]
pub struct ConfigTime {
    pub hour: u8,
    pub minute: u8,
    pub second: u8,
}

/// A time stamp as a configuration file gives it: a date, a time of day,
/// or both.
#[derive(Clone, Copy, Debug)]
pub struct ConfigTimestamp {
    pub date: Option<ConfigDate>,
    pub time: Option<ConfigTime>,
}

/// `chrono::FixedOffset`, the distance of local time from UTC.
#[verifier::external_type_specification]
#[verifier::external_body]
pub struct ExFixedOffset(FixedOffset);

/// What `chrono` reads from a text in the form `YYYY-MM-DDTHH:MM:SS`
/// (`None` where the text is not a valid date and time).
pub uninterp spec fn parsed_datetime(text: Seq<char>) -> Option<NaiveDateTime>;

/// The time `offset` after `utc`, as `chrono` computes it (`None` where it
/// leaves the range of `NaiveDateTime`).
pub uninterp spec fn offset_datetime(utc: NaiveDateTime, offset: FixedOffset) -> Option<
    NaiveDateTime,
>;

/// `text.parse::<NaiveDateTime>()`, failures as `None`: the result depends
/// on the text alone and is named, not stated.
#[verifier::external_body]
fn parse_datetime(text: &str) -> (t: Option<NaiveDateTime>)
    ensures
        t == parsed_datetime(text@),
{
    text.parse::<NaiveDateTime>().ok()
}

/// `NaiveDateTime::checked_add_offset`: the local time of `utc` at
/// `offset`. `DateTime::from_naive_utc_and_offset(utc, offset).naive_local()`
/// is this, with a panic in place of `None`.
#[verifier::external_body]
fn local_datetime(utc: NaiveDateTime, offset: FixedOffset) -> (t: Option<NaiveDateTime>)
    ensures
        t == offset_datetime(utc, offset),
{
    utc.checked_add_offset(offset)
}

/// The decimal numeral of `n`, with leading zeros up to `width` digits.
pub open spec fn zero_filled(n: nat, width: nat) -> Seq<char> {
    let d = decimal_text(n);
    if d.len() < width {
        Seq::new((width - d.len()) as nat, |i: int| '0') + d
    } else {
        d
    }
}

/// A configuration time stamp as `YYYY-MM-DDTHH:MM:SS`.
pub open spec fn timestamp_text(date: ConfigDate, time: ConfigTime) -> Seq<char> {
    zero_filled(date.year as nat, 4) + seq!['-'] + zero_filled(date.month as nat, 2) + seq!['-']
        + zero_filled(date.day as nat, 2) + seq!['T'] + zero_filled(time.hour as nat, 2) + seq![':']
        + zero_filled(time.minute as nat, 2) + seq![':'] + zero_filled(time.second as nat, 2)
}

/// Appends the decimal numeral of `n` with leading zeros up to `width`
/// digits.
fn push_zero_filled(out: &mut String, n: u32, width: usize)
    ensures
        final(out)@ == old(out)@ + zero_filled(n as nat, width as nat),
{
    let digits = decimal_string(n);
    let len = digits.as_str().unicode_len();
    if len < width {
        let mut i: usize = 0;
        while i < width - len
            invariant
                i <= width - len,
                len < width,
                out@ == old(out)@ + Seq::new(i as nat, |j: int| '0'),
            decreases width - len - i,
        {
            out.append("0");
            proof {
                reveal_strlit("0");
            }
            i = i + 1;
            assert(out@ =~= old(out)@ + Seq::new(i as nat, |j: int| '0'));
        }
    }
    out.append(digits.as_str());
    assert(out@ =~= old(out)@ + zero_filled(n as nat, width as nat));
}

/// Writes a configuration time stamp as `YYYY-MM-DDTHH:MM:SS`.
pub fn format_timestamp(date: &ConfigDate, time: &ConfigTime) -> (text: String)
    ensures
        text@ == timestamp_text(*date, *time),
{
    let mut text = String::new();
    push_zero_filled(&mut text, date.year as u32, 4);
    text.append("-");
    push_zero_filled(&mut text, date.month as u32, 2);
    text.append("-");
    push_zero_filled(&mut text, date.day as u32, 2);
    text.append("T");
    push_zero_filled(&mut text, time.hour as u32, 2);
    text.append(":");
    push_zero_filled(&mut text, time.minute as u32, 2);
    text.append(":");
    push_zero_filled(&mut text, time.second as u32, 2);
    proof {
        reveal_strlit("-");
        reveal_strlit("T");
        reveal_strlit(":");
    }
    assert(text@ =~= timestamp_text(*date, *time));
    text
}

/// The local time of a configuration time stamp: its date and time read as
/// UTC, then moved by `offset`. `None` where there is no time stamp; a
/// time stamp is converted only when it has both parts, they make a valid
/// date and time, and the move stays in range.
pub open spec fn converts(timestamp: Option<ConfigTimestamp>, offset: FixedOffset) -> bool {
    match timestamp {
        None => true,
        Some(ts) => {
            &&& ts.date is Some
            &&& ts.time is Some
            &&& parsed_datetime(timestamp_text(ts.date->0, ts.time->0)) matches Some(utc)
                && offset_datetime(utc, offset) is Some
        },
    }
}

/// See `converts`.
pub open spec fn converted(timestamp: Option<ConfigTimestamp>, offset: FixedOffset) -> Option<
    NaiveDateTime,
> {
    match timestamp {
        None => None,
        Some(ts) => offset_datetime(
            parsed_datetime(timestamp_text(ts.date->0, ts.time->0))->0,
            offset,
        ),
    }
}

/// The local time of the time stamp of a configuration file, for a machine
/// whose local time is `offset` from UTC.
pub fn convert_toml_datetime(timestamp: Option<ConfigTimestamp>, offset: FixedOffset) -> (res:
    Option<NaiveDateTime>)
    requires
        converts(timestamp, offset),
    ensures
        res == converted(timestamp, offset),
        timestamp is None ==> res is None,
        timestamp matches Some(ts) ==> (ts.date matches Some(date) && ts.time matches Some(time)
            && parsed_datetime(timestamp_text(date, time)) matches Some(utc) && res
            == offset_datetime(utc, offset) && res is Some),
{
    match timestamp {
        None => None,
        Some(ts) => {
            let date = ts.date.unwrap();
            let time = ts.time.unwrap();
            let text = format_timestamp(&date, &time);
            let utc = parse_datetime(text.as_str()).unwrap();
            local_datetime(utc, offset)
        },
    }
}

/// `convert_toml_datetime`, after testing the inputs that it cannot take:
/// `None` where the time stamp lacks a part, is no valid date and time, or
/// moves out of range.
pub fn try_convert_toml_datetime(timestamp: Option<ConfigTimestamp>, offset: FixedOffset) -> (res:
    Option<Option<NaiveDateTime>>)
    ensures
        res is None <==> !converts(timestamp, offset),
        res matches Some(t) ==> t == converted(timestamp, offset),
        timestamp is None ==> res == Some(None::<NaiveDateTime>),
        forall|date: ConfigDate, time: ConfigTime, utc: NaiveDateTime, local: NaiveDateTime|
            timestamp == Some(ConfigTimestamp { date: Some(date), time: Some(time) })
                && parsed_datetime(timestamp_text(date, time)) == Some(utc) && offset_datetime(
                utc,
                offset,
            ) == Some(local) ==> res == Some(Some(local)),
{
    if let Some(ts) = timestamp {
        match (ts.date, ts.time) {
            (Some(date), Some(time)) => {
                let text = format_timestamp(&date, &time);
                match parse_datetime(text.as_str()) {
                    Some(utc) => {
                        if local_datetime(utc, offset).is_none() {
                            return None;
                        }
                    },
                    None => {
                        return None;
                    },
                }
            },
            _ => {
                return None;
            },
        }
    }
    Some(convert_toml_datetime(timestamp, offset))
}

/// The UTC time `secs` seconds and `nanos` nanoseconds after the Unix
/// epoch, as `chrono` computes it (`None` where it leaves the range of
/// `NaiveDateTime` or `nanos` is not a valid fraction).
pub uninterp spec fn utc_datetime(secs: i64, nanos: u32) -> Option<NaiveDateTime>;

/// `DateTime::from_timestamp(secs, nanos)`, taken as its UTC date and time
/// (`naive_utc`): the result depends on the arguments alone and is named,
/// not stated.
#[verifier::external_body]
fn datetime_from_timestamp(secs: i64, nanos: u32) -> (t: Option<NaiveDateTime>)
    ensures
        t == utc_datetime(secs, nanos),
{
    DateTime::from_timestamp(secs, nanos).map(|d| d.naive_utc())
}

/// A file time given as seconds (taken as a signed 64-bit number, modulo
/// 2^64) and nanoseconds since the Unix epoch can be converted: it is in
/// range as UTC, and still in range once moved by `offset`.
pub open spec fn file_time_converts(secs: u64, nanos: u32, offset: FixedOffset) -> bool {
    utc_datetime(#[verifier::truncate] (secs as i64), nanos) matches Some(utc) && offset_datetime(utc, offset) is Some
}

/// The local time of a file time, on a machine whose local time is
/// `offset` from UTC at that moment.
pub open spec fn file_time(secs: u64, nanos: u32, offset: FixedOffset) -> NaiveDateTime {
    offset_datetime(utc_datetime(#[verifier::truncate] (secs as i64), nanos)->0, offset)->0
}

/// Converts a file time, given as the time since the Unix epoch, to the
/// local date and time, for a machine whose local time is `offset` from UTC
/// at that moment.
pub fn convert_timestamp(secs: u64, nanos: u32, offset: FixedOffset) -> (t: NaiveDateTime)
    requires
        file_time_converts(secs, nanos, offset),
    ensures
        t == file_time(secs, nanos, offset),
        utc_datetime(#[verifier::truncate] (secs as i64), nanos) matches Some(utc)
            && offset_datetime(utc, offset) == Some(t),
{
    let utc = datetime_from_timestamp(#[verifier::truncate] (secs as i64), nanos).unwrap();
    local_datetime(utc, offset).unwrap()
}

/// `convert_timestamp`, after testing the inputs that it cannot take:
/// `None` where the time is out of range.
pub fn try_convert_timestamp(secs: u64, nanos: u32, offset: FixedOffset) -> (t: Option<
    NaiveDateTime,
>)
    ensures
        t is None <==> !file_time_converts(secs, nanos, offset),
        t matches Some(t) ==> t == file_time(secs, nanos, offset),
        forall|utc: NaiveDateTime, local: NaiveDateTime|
            utc_datetime(#[verifier::truncate] (secs as i64), nanos) == Some(utc) && offset_datetime(
                utc,
                offset,
            ) == Some(local) ==> t == Some(local),
        t matches Some(local) ==> (utc_datetime(#[verifier::truncate] (secs as i64), nanos) matches Some(
            utc,
        ) && offset_datetime(utc, offset) == Some(local)),
{
    match datetime_from_timestamp(#[verifier::truncate] (secs as i64), nanos) {
        Some(utc) => {
            if local_datetime(utc, offset).is_none() {
                return None;
            }
        },
        None => {
            return None;
        },
    }
    Some(convert_timestamp(secs, nanos, offset))
}

} // verus!
