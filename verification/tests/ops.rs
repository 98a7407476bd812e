use bsize::BSize;
use bsize::ByteSize;

#[test]
fn mod_adds_byte_sizes() {
    assert_eq!((ByteSize::<u8>::b(3) + ByteSize::b(5)).bytes(), 8);
    assert_eq!((ByteSize::<u16>::b(3) + ByteSize::b(5)).bytes(), 8);
    assert_eq!((ByteSize::<u32>::b(3) + ByteSize::b(5)).bytes(), 8);
    assert_eq!((ByteSize::<u64>::b(3) + ByteSize::b(5)).bytes(), 8);
    assert_eq!((ByteSize::<usize>::b(3) + ByteSize::b(5)).bytes(), 8);
}

#[test]
fn mod_add_assigns_byte_sizes() {
    let mut size = ByteSize::<usize>::b(3);
    size += ByteSize::b(5);
    assert_eq!(size.bytes(), 8);
}

#[test]
fn mod_subtracts_byte_sizes() {
    assert_eq!((ByteSize::<u8>::b(8) - ByteSize::b(5)).bytes(), 3);
    assert_eq!((ByteSize::<u16>::b(8) - ByteSize::b(5)).bytes(), 3);
    assert_eq!((ByteSize::<u32>::b(8) - ByteSize::b(5)).bytes(), 3);
    assert_eq!((ByteSize::<u64>::b(8) - ByteSize::b(5)).bytes(), 3);
    assert_eq!((ByteSize::<usize>::b(8) - ByteSize::b(5)).bytes(), 3);
}

#[test]
fn mod_sub_assigns_byte_sizes() {
    let mut size = ByteSize::<usize>::b(8);
    size -= ByteSize::b(5);
    assert_eq!(size.bytes(), 3);
}

#[test]
fn arithmetic_over_units() {
    let plus = BSize::mb(1) + BSize::kb(100);
    assert_eq!(plus.bytes(), 1_100_000);
    let minus = BSize::tb(1) - BSize::gb(4);
    assert_eq!(BSize::gb(996), minus);
    assert_eq!((plus - BSize::kb(100)), BSize::mb(1));
}
