use std::str::FromStr;

use bsize::ByteSize;
use bsize::ParseError;

fn assert_parse_ok(input: &str, expected: u64) {
    let actual = ByteSize::<u64>::from_str(input).unwrap();
    let expected = ByteSize::<u64>::b(expected);
    assert_eq!(actual, expected, "input: {input:?}");

    let round_trip = actual.to_string().parse::<ByteSize<u64>>().unwrap();
    assert_eq!(round_trip, expected, "input: {input:?}");
}

fn assert_parse_err(input: &str, expected: ParseError) {
    assert_eq!(
        input.parse::<ByteSize<u64>>(),
        Err(expected),
        "input: {input:?}",
    );
}

#[test]
fn test_parse_ok() {
    for (input, expected) in [
        ("0", 0),
        ("3", 3),
        ("30", 30),
        ("32", 32),
        ("500", 500),
        ("_5_", 5),
        ("1_234_567", 1_234_567),
        (" 42 ", 42),
        ("1B", 1),
        ("1 b", 1),
        ("1kB", 1_000),
        ("1K", 1_000),
        ("1KB", 1_000),
        ("2MB", 2_000_000),
        ("3GB", 3_000_000_000),
        ("4TB", 4_000_000_000_000),
        ("5PB", 5_000_000_000_000_000),
        ("6EB", 6_000_000_000_000_000_000),
        ("8P", 8_000_000_000_000_000),
        ("1Ki", 1 << 10),
        ("1KiB", 1 << 10),
        ("1.5Ki", 1_536),
        ("1.5KiB", 1_536),
        ("7 KiB", 7 << 10),
        ("8 MiB", 8 << 20),
        ("9 GiB", 9 << 30),
        ("10 TiB", 10 << 40),
        ("11 PiB", 11 << 50),
        ("12 EiB", 12 << 60),
        ("  7 KiB  ", 7 << 10),
        ("1mib", 1_048_576),
        ("1.1 K", 1_100),
        ("1.2345 K", 1_235),
        ("1.2345m", 1_234_500),
        ("5.k", 5_000),
        ("0.0024KB", 2),
        ("0.0025KB", 3),
        ("0.4B", 0),
        ("0.5B", 1),
        ("0.1234567890123456789012", 0),
        ("1.84467440737095516155", 2),
        ("1.84467440737095516145 EB", 1_844_674_407_370_955_161),
        ("1.844674407370955161450 EB", 1_844_674_407_370_955_161),
        (
            "0.0000000000000000004336808689942017736029811203479766845703124 EiB",
            0,
        ),
        (
            "0.0000000000000000004336808689942017736029811203479766845703125 EiB",
            1,
        ),
        ("18_446_744_073_709_551_581", 18_446_744_073_709_551_581),
        ("18_446_744_073_709_551_615", u64::MAX),
        ("18.446_744_073_709_551_615 EB", u64::MAX),
        ("18.4467440737095516154 EB", u64::MAX),
        ("1.000_000_000_000_000_001 EB", 1_000_000_000_000_000_001),
    ] {
        assert_parse_ok(input, expected);
    }
}

#[test]
fn test_parse_err() {
    for input in ["", " ", "  ", "__", "k", "kb", "KiB"] {
        assert_parse_err(input, ParseError::Empty);
    }

    for input in [
        ".",
        ".5k",
        "a",
        "a124GB",
        "-1",
        "1,5",
        "1 234 567",
        "1 000 B",
        "1.3 42.0 B",
        "1.3 ... B",
        "19.aE",
        "1.0000000000000000000000000000000000000000000000000000000000000000x EB",
        "0.0004882812500000000000000000000000000000000000000000000000000000x KiB",
        "IB",
        "iB",
        "1iB",
        "1 ZiB",
        "1 YiB",
        "1e2 KIB",
        "1E+6",
        "\t1",
        "1\tKB",
    ] {
        assert_parse_err(input, ParseError::Malformed);
    }

    for input in [
        "18_446_744_073_709_551_616",
        "18_446_744_073_709_551_620",
        "18446744073709551615.5",
        "184467440737095516155",
        "18.446_744_073_709_551_616 EB",
        "18.4467440737095516155 EB",
        "19EB",
        "16EiB",
        "100000000000000000000",
    ] {
        assert_parse_err(input, ParseError::Overflow);
    }

    assert_eq!("256".parse::<ByteSize<u8>>(), Err(ParseError::Overflow));
    assert_eq!("64 KiB".parse::<ByteSize<u16>>(), Err(ParseError::Overflow));
    assert_eq!("4GiB".parse::<ByteSize<u32>>(), Err(ParseError::Overflow));
}

#[test]
fn ignores_fractional_digits_that_cannot_affect_half_ceil() {
    assert_parse_ok("0.499999999999999999999999999999 B", 0);
    assert_parse_ok("0.500000000000000000000000000001 B", 1);
    assert_parse_ok("0.000488281249999999999999999999 KiB", 0);
    assert_parse_ok("0.000488281250000000000000000001 KiB", 1);
    assert_parse_ok(
        "0.000000000000000000433680868994201773602981120347976684570312499999999 EiB",
        0,
    );
    assert_parse_ok(
        "0.000000000000000000433680868994201773602981120347976684570312500000001 EiB",
        1,
    );
}

#[test]
fn rounds_halves_up_and_checks_overflow_after_rounding() {
    assert_eq!(ByteSize::<u64>::b(0), "0.499 B".parse().unwrap());
    assert_eq!(ByteSize::<u64>::b(1), "0.5 B".parse().unwrap());
    assert_eq!(ByteSize::<u64>::b(1_235), "1.2345 kB".parse().unwrap());
    assert_eq!(ByteSize::<u8>::b(255), "255.4 B".parse().unwrap());
    assert_eq!(
        ParseError::Overflow,
        "255.5 B".parse::<ByteSize<u8>>().unwrap_err()
    );
    assert_eq!(ByteSize::<u8>::b(26), "25.55B".parse().unwrap());
    assert_eq!(ByteSize::<u8>::b(1), "0.001KB".parse().unwrap());
}

#[test]
fn parses_into_every_backing_type() {
    assert_eq!("255 B".parse::<ByteSize<u8>>(), Ok(ByteSize::b(255)));
    assert_eq!("63.9 KiB".parse::<ByteSize<u16>>(), Ok(ByteSize::b(65_434)));
    assert_eq!("4 GB".parse::<ByteSize<u32>>(), Ok(ByteSize::b(4_000_000_000)));
    assert_eq!("4.3 GB".parse::<ByteSize<u32>>(), Err(ParseError::Overflow));
    assert_eq!("16 EiB".parse::<ByteSize<usize>>(), Err(ParseError::Overflow));
    assert_eq!("15 EiB".parse::<ByteSize<usize>>(), Ok(ByteSize::b(15 << 60)));
    assert_eq!("x".parse::<ByteSize<u8>>(), Err(ParseError::Malformed));
    assert_eq!("".parse::<ByteSize<u16>>(), Err(ParseError::Empty));
}

#[test]
fn long_fractions_take_the_shortcut_with_the_same_result() {
    // Longer than 61 bytes in all, with a fraction longer than 61 digits.
    let mut fraction = String::new();
    for index in 0..128 {
        if index > 0 && index % 7 == 0 {
            fraction.push('_');
        }
        fraction.push(char::from(b'0' + (index % 10) as u8));
    }
    // 0.0123456789... KiB: 1024 * 0.0123456789012... rounds to 13.
    let input = format!("0.{fraction} KiB");
    assert_eq!(input.parse::<ByteSize<u64>>(), Ok(ByteSize::b(13)));
    let malformed = format!("0.{fraction}x KiB");
    assert_eq!(malformed.parse::<ByteSize<u64>>(), Err(ParseError::Malformed));
}

#[test]
fn parse_error_messages() {
    assert_eq!(
        ParseError::Empty.to_string(),
        "cannot parse integer from empty string"
    );
    assert_eq!(
        ParseError::Malformed.to_string(),
        "malformed bytes found in string"
    );
    assert_eq!(
        ParseError::Overflow.to_string(),
        "number too large to fit in target type"
    );
}
