use bsize::BSize16;
use bsize::BSize32;
use bsize::BSize64;
use bsize::BSize8;
use bsize::ByteSize;

#[test]
fn string_round_trip() {
    for bytes in [0u64, 1, 9, 10, 99, 1_000, 1_536, 987_654_321, u64::MAX - 1, u64::MAX] {
        let size = BSize64::b(bytes);
        assert!(!size.to_string().is_empty());
        assert_eq!(size.to_string().parse::<BSize64>().unwrap(), size);
    }
    assert_eq!(BSize8::b(255).to_string().parse::<BSize8>(), Ok(BSize8::b(255)));
    assert_eq!(BSize16::b(4_097).to_string().parse::<BSize16>(), Ok(BSize16::b(4_097)));
    assert_eq!(BSize32::b(7).to_string().parse::<BSize32>(), Ok(BSize32::b(7)));
}

#[test]
fn fractional_trailing_zero_preserves_value() {
    for (input, with_zero) in [
        ("1.5 EiB", "1.50 EiB"),
        ("15.999999999999999999 EiB", "15.9999999999999999990 EiB"),
        ("0.000000000000000001 EiB", "0.0000000000000000010 EiB"),
        ("2.5", "2.50"),
        ("3.", "3.0"),
    ] {
        assert_eq!(
            input.parse::<ByteSize<u64>>(),
            with_zero.parse::<ByteSize<u64>>(),
            "input: {input:?}"
        );
    }
    const SCALE: u64 = 1_000_000_000_000_000_000;
    let mut fraction: u64 = 0;
    for whole in 0u8..16 {
        for _ in 0..8 {
            fraction = (fraction.wrapping_mul(6_364_136_223_846_793_005).wrapping_add(1_442_695_040_888_963_407)) % SCALE;
            let input = format!("{whole}.{fraction:018} EiB");
            let input_with_zero = format!("{whole}.{fraction:018}0 EiB");
            assert_eq!(
                input.parse::<ByteSize<u64>>(),
                input_with_zero.parse::<ByteSize<u64>>(),
                "input: {input:?}"
            );
        }
    }
}

#[test]
fn trailing_zero_in_fraction_is_ignored_before_any_unit() {
    for (input, with_zero) in [
        ("  7.25_ KiB  ", "  7.25_0 KiB  "),
        ("1.5kb", "1.50kb"),
        ("3. MiB", "3.0 MiB"),
        ("0.1 B", "0.10 B"),
        ("2.5 Ei", "2.50 Ei"),
        ("1.5 iB", "1.50 iB"),
        ("16.5 EiB", "16.50 EiB"),
        ("x.5 KB", "x.50 KB"),
    ] {
        assert_eq!(
            input.parse::<ByteSize<u64>>(),
            with_zero.parse::<ByteSize<u64>>(),
            "input: {input:?}"
        );
    }
    assert_eq!("  7.25_0 KiB  ".parse::<ByteSize<u64>>(), Ok(ByteSize::<u64>::b(7_424)));
    assert_eq!("1.50 iB".parse::<ByteSize<u64>>(), Err(bsize::ParseError::Malformed));
    assert_eq!("16.50 EiB".parse::<ByteSize<u64>>(), Err(bsize::ParseError::Overflow));
}

#[test]
fn parses_eib_fractions_exactly() {
    const MULTIPLIER: u128 = 1 << 60;
    const SCALE: u128 = 1_000_000_000_000_000_000;
    for (whole, fraction) in [
        (0u128, 0u128),
        (1, 500_000_000_000_000_000),
        (15, 999_999_999_999_999_999),
        (16, 0),
        (3, 123_456_789_012_345_678),
        (0, 433_680_868_994_201_773),
    ] {
        let input = format!("{whole}.{fraction:018} EiB");
        let actual = input.parse::<ByteSize<u64>>();
        let expected = whole * MULTIPLIER + (fraction * MULTIPLIER + SCALE / 2) / SCALE;
        if expected > u128::from(u64::MAX) {
            assert_eq!(actual, Err(bsize::ParseError::Overflow));
        } else {
            assert_eq!(actual, Ok(ByteSize::b(expected as u64)));
        }
    }
}

#[test]
fn spaces_around_a_size_are_ignored() {
    assert_eq!(" 1 KiB".parse::<BSize64>(), "1 KiB".parse::<BSize64>());
    assert_eq!("1 KiB ".parse::<BSize64>(), "1 KiB".parse::<BSize64>());
    assert_eq!("  ".parse::<BSize64>(), "".parse::<BSize64>());
    assert_eq!(" x".parse::<BSize64>(), "x".parse::<BSize64>());
}

#[test]
fn long_fraction_digits_past_the_relevant_ones_are_ignored() {
    // One byte holds a single relevant digit; a kilobyte four; a kibibyte eleven.
    assert_eq!("0.5999999 B".parse::<BSize64>(), "0.5 B".parse::<BSize64>());
    assert_eq!("0.49999 B".parse::<BSize64>(), "0.4 B".parse::<BSize64>());
    assert_eq!("0.00049999 kB".parse::<BSize64>(), "0.0004 kB".parse::<BSize64>());
    assert_eq!("0.0005 kB".parse::<BSize64>(), Ok(BSize64::b(1)));
    assert_eq!(
        "0.00048828125999 KiB".parse::<BSize64>(),
        "0.00048828125 KiB".parse::<BSize64>()
    );
}

#[test]
fn letter_case_is_ignored() {
    for (lower, upper) in [
        ("1kb", "1KB"),
        ("1 kib", "1 KIB"),
        ("2.5 mib", "2.5 MIB"),
        ("3 eb", "3 EB"),
        ("1 zib", "1 ZIB"),
        ("x", "X"),
        ("iB", "IB"),
        ("kb", "KB"),
        ("19.ae", "19.AE"),
    ] {
        assert_eq!(
            lower.parse::<BSize64>(),
            upper.parse::<BSize64>(),
            "input: {lower:?}"
        );
    }
    assert_eq!("1kb".parse::<BSize64>(), Ok(BSize64::b(1_000)));
    assert_eq!("1 kib".parse::<BSize64>(), Ok(BSize64::b(1_024)));
}

#[test]
fn parsing_agrees_with_unit_constructors() {
    assert_eq!("3 kB".parse::<BSize64>(), Ok(BSize64::kb(3)));
    assert_eq!("3 MB".parse::<BSize64>(), Ok(BSize64::mb(3)));
    assert_eq!("3 GB".parse::<BSize64>(), Ok(BSize64::gb(3)));
    assert_eq!("3 TB".parse::<BSize64>(), Ok(BSize64::tb(3)));
    assert_eq!("3 PB".parse::<BSize64>(), Ok(BSize64::pb(3)));
    assert_eq!("3 EB".parse::<BSize64>(), Ok(BSize64::eb(3)));
    assert_eq!("3 KiB".parse::<BSize64>(), Ok(BSize64::kib(3)));
    assert_eq!("3 MiB".parse::<BSize64>(), Ok(BSize64::mib(3)));
    assert_eq!("3 GiB".parse::<BSize64>(), Ok(BSize64::gib(3)));
    assert_eq!("3 TiB".parse::<BSize64>(), Ok(BSize64::tib(3)));
    assert_eq!("3 PiB".parse::<BSize64>(), Ok(BSize64::pib(3)));
    assert_eq!("3 EiB".parse::<BSize64>(), Ok(BSize64::eib(3)));
}
