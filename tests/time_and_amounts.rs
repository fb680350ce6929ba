use fuxi::amount::Amount;
use fuxi::error::Error;
use fuxi::market::{data_dir, data_file_name};
use fuxi::model::Market;
use fuxi::time::{
    default_time, millis_to_time, nanos_to_time, normalize_time_literal, str_to_time, time_to_str,
    Time, TIME_FMT_MS, TIME_FMT_MS_CPT, TIME_FMT_S, TIME_FMT_S_CPT,
};

const JAN_1_2024_LOCAL_NANOS: i128 = 1_704_038_400_000_000_000;

#[test]
fn month_literal_is_midnight_of_first_day_local() {
    let t = str_to_time("2024-01").unwrap();
    assert_eq!(t, Time { nanos: JAN_1_2024_LOCAL_NANOS });
}

#[test]
fn every_separated_width_parses_and_formats_back() {
    let cases = [
        ("2024-01", "2024-01-01 00:00:00.000"),
        ("2024-01-02", "2024-01-02 00:00:00.000"),
        ("2024-01-02 03", "2024-01-02 03:00:00.000"),
        ("2024-01-02 03:04", "2024-01-02 03:04:00.000"),
        ("2024-01-02 03:04:05", "2024-01-02 03:04:05.000"),
        ("2024-01-02 03:04:05.678", "2024-01-02 03:04:05.678"),
    ];
    for (literal, full) in cases {
        let t = str_to_time(literal).unwrap();
        assert_eq!(time_to_str(t, TIME_FMT_MS).unwrap(), full);
        assert_eq!(normalize_time_literal(literal).unwrap(), full);
    }
}

#[test]
fn every_compact_width_parses_and_formats_back() {
    let cases = [
        ("2024", "20240101000000000"),
        ("202401", "20240101000000000"),
        ("20240102", "20240102000000000"),
        ("2024010203", "20240102030000000"),
        ("202401020304", "20240102030400000"),
        ("20240102030405", "20240102030405000"),
        ("20240102030405678", "20240102030405678"),
    ];
    for (literal, full) in cases {
        let t = str_to_time(literal).unwrap();
        assert_eq!(time_to_str(t, TIME_FMT_MS_CPT).unwrap(), full);
    }
}

#[test]
fn compact_millisecond_literal_matches_separated_one() {
    let a = str_to_time("20240102030405000").unwrap();
    let b = str_to_time("2024-01-02 03:04:05.000").unwrap();
    assert_eq!(a, b);
    assert_eq!(normalize_time_literal("20240102030405000").unwrap(), "2024-01-02 03:04:05.000");
}

#[test]
fn second_formats_write_without_milliseconds() {
    let t = str_to_time("2024-01-02 03:04:05.678").unwrap();
    assert_eq!(time_to_str(t, TIME_FMT_S).unwrap(), "2024-01-02 03:04:05");
    assert_eq!(time_to_str(t, TIME_FMT_S_CPT).unwrap(), "20240102030405");
}

#[test]
fn unsupported_widths_are_format_errors() {
    assert_eq!(str_to_time("2024-1"), Err(Error::TimeFormat));
    assert_eq!(str_to_time("20241"), Err(Error::TimeFormat));
    assert_eq!(str_to_time(""), Err(Error::TimeFormat));
    assert_eq!(normalize_time_literal("2024-01-02 03:04:05.6789"), None);
}

#[test]
fn unparseable_literal_of_supported_width_is_format_error() {
    assert_eq!(str_to_time("2024-13-01"), Err(Error::TimeFormat));
    assert_eq!(str_to_time("abcd"), Err(Error::TimeFormat));
}

#[test]
fn epoch_conversions() {
    assert_eq!(millis_to_time(1_500).unwrap(), Time { nanos: 1_500_000_000 });
    assert_eq!(millis_to_time(i64::MAX).unwrap(), Time { nanos: (i64::MAX as i128) * 1_000_000 });
    assert_eq!(millis_to_time(1_704_038_400_000).unwrap(), str_to_time("2024-01-01").unwrap());
    assert_eq!(nanos_to_time(42), Time { nanos: 42 });
    assert_eq!(default_time(), Time { nanos: 0 });
    assert_eq!(time_to_str(default_time(), TIME_FMT_S).unwrap(), "1970-01-01 08:00:00");
}

#[test]
fn time_to_str_refuses_a_bad_format() {
    assert_eq!(time_to_str(default_time(), "%Y-%Q"), Err(Error::TimeFormat));
}

#[test]
fn amounts_parse_from_decimal_text() {
    assert_eq!(Amount::parse("0.005").unwrap(), Amount { units: 50_000_000 });
    assert_eq!(Amount::parse("1000").unwrap(), Amount::from_int(1000));
    assert_eq!(Amount::parse("-2.5").unwrap(), Amount { units: -25_000_000_000 });
    assert_eq!(Amount::parse("not a number"), None);
    assert_eq!(Amount::parse("0.00000000001"), None);
}

#[test]
fn amounts_from_mantissa_and_scale() {
    assert_eq!(Amount::from_parts(15, 1).unwrap(), Amount { units: 15_000_000_000 });
    assert_eq!(Amount::from_parts(100, 12).unwrap(), Amount { units: 1 });
    assert_eq!(Amount::from_parts(-300, 12).unwrap(), Amount { units: -3 });
    assert_eq!(Amount::from_parts(1, 12), None);
    assert_eq!(Amount::from_parts(-7, 11), None);
}

#[test]
fn amount_arithmetic_and_wholeness() {
    let a = Amount::parse("1.5").unwrap();
    let b = Amount::parse("2").unwrap();
    assert_eq!(a.checked_mul(b).unwrap(), Amount::from_int(3));
    assert_eq!(a.checked_add(b).unwrap(), Amount::parse("3.5").unwrap());
    assert_eq!(a.checked_sub(b).unwrap(), Amount::parse("-0.5").unwrap());
    assert_eq!(Amount::from_int(7).div_whole(2), Amount::parse("3.5").unwrap());
    assert!(!a.is_whole());
    assert!(b.is_whole());
    assert!(Amount::from_int(-4).is_whole());
    assert!(!Amount::parse("-4.1").unwrap().is_whole());
    assert_eq!(Amount { units: i128::MAX }.checked_add(Amount { units: 1 }), None);
    assert_eq!(Amount { units: i128::MAX }.checked_mul(b), None);
}

#[test]
fn data_files_are_named_from_codes() {
    assert_eq!(data_file_name("BTC/USDC:USDC"), "BTC_USDC_USDC.feather");
    assert_eq!(data_file_name("HYPE/USDC"), "HYPE_USDC.feather");
    assert_eq!(data_dir(Market::Spot), "spot");
    assert_eq!(data_dir(Market::Swap), "swap");
}

#[test]
fn times_far_from_the_epoch_are_represented() {
    let t = millis_to_time(10_000_000_000_000).unwrap();
    assert_eq!(time_to_str(t, TIME_FMT_S).unwrap(), "2286-11-21 01:46:40");
    let y3000 = str_to_time("3000-01-01").unwrap();
    assert_eq!(time_to_str(y3000, TIME_FMT_MS).unwrap(), "3000-01-01 00:00:00.000");
    let y1600 = str_to_time("1600-06-15 12:00").unwrap();
    assert_eq!(time_to_str(y1600, TIME_FMT_S).unwrap(), "1600-06-15 12:00:00");
    assert!(y1600.nanos < 0);
}

#[test]
fn compact_and_separated_forms_agree_at_every_width() {
    let pairs = [
        ("202401", "2024-01"),
        ("20240102", "2024-01-02"),
        ("2024010203", "2024-01-02 03"),
        ("202401020304", "2024-01-02 03:04"),
        ("20240102030405", "2024-01-02 03:04:05"),
        ("20240102030405678", "2024-01-02 03:04:05.678"),
    ];
    for (compact, separated) in pairs {
        assert_eq!(str_to_time(compact).unwrap(), str_to_time(separated).unwrap());
        assert_eq!(normalize_time_literal(compact), normalize_time_literal(separated));
    }
}
