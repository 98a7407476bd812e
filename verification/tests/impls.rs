use bsize::BSize;
use bsize::BSize16;
use bsize::BSize32;
use bsize::BSize64;
use bsize::BSize8;
use bsize::ByteSize;
use bsize::ExaByteSize;
use bsize::KiloByteSize;
use bsize::MegaByteSize;

#[test]
fn mod_defaults() {
    assert_eq!(BSize8::default(), BSize8::b(0));
    assert_eq!(BSize16::default(), BSize16::b(0));
    assert_eq!(BSize32::default(), BSize32::b(0));
    assert_eq!(BSize64::default(), BSize64::b(0));
    assert_eq!(BSize::default(), BSize::b(0));
}

#[test]
fn bsize_alias_is_usize() {
    let default: BSize = BSize::b(2);
    let explicit: ByteSize<usize> = ByteSize::b(2);

    assert_eq!(default, explicit);
}

#[test]
fn aliases_use_expected_underlying_types() {
    assert_eq!(BSize8::b(2), ByteSize::<u8>::b(2));
    assert_eq!(BSize16::kib(2), ByteSize::<u16>::kib(2));
    assert_eq!(BSize32::gib(2), ByteSize::<u32>::gib(2));
    assert_eq!(BSize64::eib(2), ByteSize::<u64>::eib(2));
}

#[test]
fn returns_exact_bytes() {
    let kib: u64 = BSize64::kib(1).bytes();
    assert_eq!(kib, 1_024);
}

#[test]
fn mod_constructs_u8_units() {
    assert_eq!(BSize8::b(2).bytes(), 2);
}

#[test]
fn mod_maps_underlying_byte_count() {
    assert_eq!(BSize64::kib(4).map(|bytes| bytes + 64), BSize64::b(4_160),);
}

#[test]
fn with_returns_closure_result() {
    assert!(BSize64::kib(4).with(|bytes| bytes == 4_096));
}

#[test]
fn mod_constructs_u16_units() {
    assert_eq!(BSize16::kb(2).bytes(), 2_000);
    assert_eq!(BSize16::kib(2).bytes(), 2_048);
}

#[test]
fn mod_constructs_u32_units() {
    assert_eq!(BSize32::gb(2).bytes(), 2_000_000_000);
    assert_eq!(BSize32::gib(2).bytes(), 2_147_483_648);
}

#[test]
fn mod_constructs_u64_units() {
    assert_eq!(BSize64::eb(2).bytes(), 2_000_000_000_000_000_000);
    assert_eq!(BSize64::eib(2).bytes(), 2_305_843_009_213_693_952);
}

#[test]
fn mod_returns_usize_units() {
    assert_eq!(BSize::kb(2).bytes(), 2_000);
    assert_eq!(BSize::kib(2).bytes(), 2_048);
    assert_eq!(BSize::gb(2).bytes(), 2_000_000_000);
    assert_eq!(BSize::gib(2).bytes(), 2_147_483_648);
    assert_eq!(BSize::eb(2).bytes(), 2_000_000_000_000_000_000);
    assert_eq!(BSize::eib(2).bytes(), 2_305_843_009_213_693_952);
}

#[test]
fn types_constructs_u8_units() {
    assert_eq!(ByteSize::<u8>::b(2).bytes(), 2);
}

#[test]
fn types_constructs_u16_units() {
    assert_eq!(ByteSize::<u16>::kb(2).bytes(), 2_000);
    assert_eq!(ByteSize::<u16>::kib(2).bytes(), 2_048);
}

#[test]
fn types_constructs_u32_units() {
    assert_eq!(ByteSize::<u32>::gb(2).bytes(), 2_000_000_000);
    assert_eq!(ByteSize::<u32>::gib(2).bytes(), 2_147_483_648);
}

#[test]
fn types_constructs_u64_units() {
    assert_eq!(ByteSize::<u64>::eb(2).bytes(), 2_000_000_000_000_000_000);
    assert_eq!(ByteSize::<u64>::eib(2).bytes(), 2_305_843_009_213_693_952);
}

#[test]
fn constructs_usize_units() {
    assert_eq!(ByteSize::<usize>::kb(2).bytes(), 2_000);
    assert_eq!(ByteSize::<usize>::kib(2).bytes(), 2_048);
}

#[test]
fn constructs_32_bit_usize_units() {
    assert_eq!(ByteSize::<usize>::gb(2).bytes(), 2_000_000_000);
    assert_eq!(ByteSize::<usize>::gib(2).bytes(), 2_147_483_648);
}

#[test]
fn constructs_64_bit_usize_units() {
    assert_eq!(ByteSize::<usize>::eb(2).bytes(), 2_000_000_000_000_000_000);
    assert_eq!(ByteSize::<usize>::eib(2).bytes(), 2_305_843_009_213_693_952);
}

#[test]
fn constructs_every_unit() {
    assert_eq!(BSize64::kb(3).bytes(), 3_000);
    assert_eq!(BSize64::kib(3).bytes(), 3_072);
    assert_eq!(BSize64::mb(3).bytes(), 3_000_000);
    assert_eq!(BSize64::mib(3).bytes(), 3_145_728);
    assert_eq!(BSize64::gb(3).bytes(), 3_000_000_000);
    assert_eq!(BSize64::gib(3).bytes(), 3_221_225_472);
    assert_eq!(BSize64::tb(3).bytes(), 3_000_000_000_000);
    assert_eq!(BSize64::tib(3).bytes(), 3_298_534_883_328);
    assert_eq!(BSize64::pb(3).bytes(), 3_000_000_000_000_000);
    assert_eq!(BSize64::pib(3).bytes(), 3_377_699_720_527_872);
    assert_eq!(BSize::tb(3).bytes(), 3_000_000_000_000);
    assert_eq!(BSize::tib(3).bytes(), 3_298_534_883_328);
    assert_eq!(BSize::pb(3).bytes(), 3_000_000_000_000_000);
    assert_eq!(BSize::pib(3).bytes(), 3_377_699_720_527_872);
    assert_eq!(BSize::mb(3).bytes(), 3_000_000);
    assert_eq!(BSize::mib(3).bytes(), 3_145_728);
    assert_eq!(BSize32::kb(3).bytes(), 3_000);
    assert_eq!(BSize32::kib(3).bytes(), 3_072);
    assert_eq!(BSize32::mb(3).bytes(), 3_000_000);
    assert_eq!(BSize32::mib(3).bytes(), 3_145_728);
}

#[test]
fn unit_constants_match_constructors() {
    assert_eq!(<u64 as KiloByteSize>::KB, BSize64::kb(1).bytes());
    assert_eq!(<u64 as KiloByteSize>::KIB, BSize64::kib(1).bytes());
    assert_eq!(<u32 as MegaByteSize>::MIB, BSize32::mib(1).bytes());
    assert_eq!(<u64 as ExaByteSize>::EIB, BSize64::eib(1).bytes());
    assert_eq!(<usize as ExaByteSize>::EB, BSize::eb(1).bytes());
    assert_eq!(<u16 as KiloByteSize>::KIB, 1_024);
}

#[test]
fn binary_units_are_larger_than_decimal_ones() {
    assert!(BSize::kib(4) > BSize::kb(4));
    let size: BSize = BSize::b(4_096);
    assert_eq!(size.bytes(), 4_096);
    assert_eq!(BSize64::mib(1).map(|bytes| bytes + 512 * 1024), "1.5 MiB".parse().unwrap());
}

#[test]
fn to_string_writes_exact_bytes() {
    assert_eq!(BSize::mib(1).to_string(), "1048576 B");
    assert_eq!(BSize8::b(0).to_string(), "0 B");
    assert_eq!(BSize16::b(u16::MAX).to_string(), "65535 B");
    assert_eq!(BSize32::b(10).to_string(), "10 B");
    assert_eq!(BSize64::b(u64::MAX).to_string(), "18446744073709551615 B");
}
