use bsize::display::padding;
use bsize::display::value_precision;
use bsize::display::DisplayAlignment;
use bsize::display::MAX_EXPONENT;
use bsize::DisplayBaseUnit;
use bsize::DisplayOptions;
use bsize::DisplayScale;
use bsize::DisplayUnitSystem;

#[test]
fn options_start_from_the_binary_preset() {
    assert_eq!(DisplayOptions::new(), DisplayOptions::BINARY());
    assert_eq!(DisplayOptions::default(), DisplayOptions::BINARY());
    assert_ne!(DisplayOptions::BINARY(), DisplayOptions::DECIMAL());
    assert_eq!(
        DisplayOptions::new().unit_system(DisplayUnitSystem::Decimal),
        DisplayOptions::DECIMAL()
    );
}

#[test]
fn setters_change_one_option_each() {
    let opts = DisplayOptions::new()
        .base_unit(DisplayBaseUnit::Bit)
        .scale(DisplayScale::Kilo);
    assert_eq!(opts.base_unit_factor(), 8);
    assert_eq!(opts.unit_base(), 1024);
    assert_eq!(opts.fixed_exponent(), Some(1));
    let opts = opts.unit_system(DisplayUnitSystem::Decimal);
    assert_eq!(opts.base_unit_factor(), 8);
    assert_eq!(opts.unit_base(), 1000);
    assert_eq!(opts.fixed_exponent(), Some(1));
    let opts = opts.base_unit(DisplayBaseUnit::Byte).scale(DisplayScale::Auto);
    assert_eq!(opts.base_unit_factor(), 1);
    assert_eq!(opts.fixed_exponent(), None);
}

#[test]
fn fixed_scales_name_their_exponent() {
    let opts = DisplayOptions::new();
    for (scale, exponent) in [
        (DisplayScale::Base, 0),
        (DisplayScale::Kilo, 1),
        (DisplayScale::Mega, 2),
        (DisplayScale::Giga, 3),
        (DisplayScale::Tera, 4),
        (DisplayScale::Peta, 5),
        (DisplayScale::Exa, 6),
    ] {
        assert_eq!(opts.scale(scale).fixed_exponent(), Some(exponent));
    }
    assert_eq!(MAX_EXPONENT, 6);
}

#[test]
fn unit_labels() {
    let binary = DisplayOptions::BINARY();
    let decimal = DisplayOptions::DECIMAL();
    let binary_bits = binary.base_unit(DisplayBaseUnit::Bit);
    let decimal_bits = decimal.base_unit(DisplayBaseUnit::Bit);
    assert_eq!(binary.unit_label(0), "B");
    assert_eq!(decimal.unit_label(0), "B");
    assert_eq!(binary_bits.unit_label(0), "bit");
    assert_eq!(binary.unit_label(1), "KiB");
    assert_eq!(decimal.unit_label(1), "kB");
    assert_eq!(binary.unit_label(2), "MiB");
    assert_eq!(decimal.unit_label(2), "MB");
    assert_eq!(binary.unit_label(3), "GiB");
    assert_eq!(binary.unit_label(4), "TiB");
    assert_eq!(decimal.unit_label(4), "TB");
    assert_eq!(binary.unit_label(5), "PiB");
    assert_eq!(binary.unit_label(6), "EiB");
    assert_eq!(decimal.unit_label(6), "EB");
    assert_eq!(binary_bits.unit_label(1), "Kibit");
    assert_eq!(decimal_bits.unit_label(1), "kbit");
    assert_eq!(decimal_bits.unit_label(2), "Mbit");
}

#[test]
fn precision_of_values() {
    assert_eq!(value_precision(0, None), None);
    assert_eq!(value_precision(1, None), Some(1));
    assert_eq!(value_precision(0, Some(3)), Some(3));
    assert_eq!(value_precision(2, Some(2)), Some(2));
}

#[test]
fn padding_splits_around_the_text() {
    assert_eq!(padding(10, 7, DisplayAlignment::Left), (0, 3));
    assert_eq!(padding(10, 7, DisplayAlignment::Right), (3, 0));
    assert_eq!(padding(10, 7, DisplayAlignment::Center), (1, 2));
    assert_eq!(padding(10, 8, DisplayAlignment::Center), (1, 1));
    assert_eq!(padding(5, 7, DisplayAlignment::Center), (0, 0));
    assert_eq!(padding(7, 7, DisplayAlignment::Right), (0, 0));
}
