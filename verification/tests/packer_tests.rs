use chrono::{FixedOffset, NaiveDate};
use ps2_filetypes::packer::{
    convert_timestamp, try_convert_timestamp, convert_toml_datetime, format_timestamp, get_output_filename, try_convert_toml_datetime,
    ConfigDate, ConfigTime, ConfigTimestamp,
};
use ps2_filetypes::text::{decimal_string, parse_cstring, trim_start};

#[test]
fn output_filename_defaults_to_name_dot_psu() {
    assert_eq!(get_output_filename(&None, &"SAVE".to_string()), "SAVE.psu");
    assert_eq!(get_output_filename(&Some("out/x.psu".to_string()), &"SAVE".to_string()), "out/x.psu");
}

#[test]
fn timestamp_text_is_zero_filled() {
    let d = ConfigDate { year: 999, month: 1, day: 2 };
    let t = ConfigTime { hour: 3, minute: 4, second: 5 };
    assert_eq!(format_timestamp(&d, &t), "0999-01-02T03:04:05");
    let d = ConfigDate { year: 2024, month: 12, day: 31 };
    let t = ConfigTime { hour: 23, minute: 59, second: 58 };
    assert_eq!(format_timestamp(&d, &t), "2024-12-31T23:59:58");
}

#[test]
fn config_timestamp_is_moved_to_local_time() {
    let ts = ConfigTimestamp {
        date: Some(ConfigDate { year: 2024, month: 3, day: 9 }),
        time: Some(ConfigTime { hour: 23, minute: 30, second: 0 }),
    };
    let offset = FixedOffset::east_opt(3600).unwrap();
    let expected = NaiveDate::from_ymd_opt(2024, 3, 10).unwrap().and_hms_opt(0, 30, 0).unwrap();
    assert_eq!(convert_toml_datetime(Some(ts), offset), Some(expected));
    assert_eq!(convert_toml_datetime(None, offset), None);
}

#[test]
fn unconvertible_timestamps_are_refused_by_the_checked_form() {
    let offset = FixedOffset::east_opt(0).unwrap();
    let no_time = ConfigTimestamp { date: Some(ConfigDate { year: 2024, month: 3, day: 9 }), time: None };
    assert_eq!(try_convert_toml_datetime(Some(no_time), offset), None);
    let bad_day = ConfigTimestamp {
        date: Some(ConfigDate { year: 2023, month: 2, day: 30 }),
        time: Some(ConfigTime { hour: 0, minute: 0, second: 0 }),
    };
    assert_eq!(try_convert_toml_datetime(Some(bad_day), offset), None);
    assert_eq!(try_convert_toml_datetime(None, offset), Some(None));
    let good = ConfigTimestamp {
        date: Some(ConfigDate { year: 2000, month: 1, day: 1 }),
        time: Some(ConfigTime { hour: 12, minute: 0, second: 0 }),
    };
    let expected = NaiveDate::from_ymd_opt(2000, 1, 1).unwrap().and_hms_opt(12, 0, 0).unwrap();
    assert_eq!(try_convert_toml_datetime(Some(good), offset), Some(Some(expected)));
}

#[test]
fn cstring_stops_at_first_nul() {
    assert_eq!(parse_cstring(b"abc\0def"), "abc");
    assert_eq!(parse_cstring(b"abc"), "abc");
    assert_eq!(parse_cstring(b"\0abc"), "");
    assert_eq!(parse_cstring(&[0xff, b'a', 0]), "\u{fffd}a");
}

#[test]
fn file_time_is_moved_to_local_time() {
    let offset = FixedOffset::east_opt(-3600).unwrap();
    let expected = NaiveDate::from_ymd_opt(2015, 5, 14).unwrap().and_hms_opt(23, 0, 0).unwrap();
    assert_eq!(convert_timestamp(1431648000, 0, offset), expected);
    assert_eq!(try_convert_timestamp(1431648000, 0, offset), Some(expected));
    assert_eq!(try_convert_timestamp(1431648000, 2_000_000_000, offset), None);
    assert_eq!(try_convert_timestamp(u64::MAX / 2, 0, offset), None);
}

#[test]
fn decimal_and_trim_helpers() {
    assert_eq!(decimal_string(0), "0");
    assert_eq!(decimal_string(4294967295), "4294967295");
    assert_eq!(trim_start(" \t\u{3000}x y "), "x y ");
    assert_eq!(trim_start("   "), "");
}
