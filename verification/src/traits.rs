//! The integer types that can back a [`ByteSize`](crate::ByteSize), and the units each can hold.
use vstd::prelude::*;

use core::ops::Mul;

use crate::sealed::Sealed;

verus! {

/// A sealed trait for integer types that can back [`ByteSize`](crate::ByteSize).
///
/// This trait is implemented only for the unsigned integer types supported by this crate.
pub trait BaseByteSize: Sealed + Copy + Sized {}

impl BaseByteSize for u8 {}

impl BaseByteSize for u16 {}

impl BaseByteSize for u32 {}

impl BaseByteSize for u64 {}

impl BaseByteSize for usize {}

/// Provides kilobyte-scale unit constants for supported backing integer types.
pub trait KiloByteSize: BaseByteSize + Mul<Output = Self> {
    /// Number of bytes in one kilobyte.
    const KB: Self;

    /// Number of bytes in one kibibyte.
    const KIB: Self;
}

/// Provides megabyte-scale unit constants for supported backing integer types.
pub trait MegaByteSize: KiloByteSize {
    /// Number of bytes in one megabyte.
    const MB: Self;

    /// Number of bytes in one mebibyte.
    const MIB: Self;
}

/// Provides gigabyte-scale unit constants for supported backing integer types.
pub trait GigaByteSize: MegaByteSize {
    /// Number of bytes in one gigabyte.
    const GB: Self;

    /// Number of bytes in one gibibyte.
    const GIB: Self;
}

/// Provides terabyte-scale unit constants for supported backing integer types.
pub trait TeraByteSize: GigaByteSize {
    /// Number of bytes in one terabyte.
    const TB: Self;

    /// Number of bytes in one tebibyte.
    const TIB: Self;
}

/// Provides petabyte-scale unit constants for supported backing integer types.
pub trait PetaByteSize: TeraByteSize {
    /// Number of bytes in one petabyte.
    const PB: Self;

    /// Number of bytes in one pebibyte.
    const PIB: Self;
}

/// Provides exabyte-scale unit constants for supported backing integer types.
pub trait ExaByteSize: PetaByteSize {
    /// Number of bytes in one exabyte.
    const EB: Self;

    /// Number of bytes in one exbibyte.
    const EIB: Self;
}

impl KiloByteSize for u16 {
    const KB: Self = 1_000;
    const KIB: Self = 1_024;
}

impl KiloByteSize for u32 {
    const KB: Self = 1_000;
    const KIB: Self = 1_024;
}

impl MegaByteSize for u32 {
    const MB: Self = 1_000_000;
    const MIB: Self = 1_048_576;
}

impl GigaByteSize for u32 {
    const GB: Self = 1_000_000_000;
    const GIB: Self = 1_073_741_824;
}

impl KiloByteSize for u64 {
    const KB: Self = 1_000;
    const KIB: Self = 1_024;
}

impl MegaByteSize for u64 {
    const MB: Self = 1_000_000;
    const MIB: Self = 1_048_576;
}

impl GigaByteSize for u64 {
    const GB: Self = 1_000_000_000;
    const GIB: Self = 1_073_741_824;
}

impl TeraByteSize for u64 {
    const TB: Self = 1_000_000_000_000;
    const TIB: Self = 1_099_511_627_776;
}

impl PetaByteSize for u64 {
    const PB: Self = 1_000_000_000_000_000;
    const PIB: Self = 1_125_899_906_842_624;
}

impl ExaByteSize for u64 {
    const EB: Self = 1_000_000_000_000_000_000;
    const EIB: Self = 1_152_921_504_606_846_976;
}

impl KiloByteSize for usize {
    const KB: Self = 1_000;
    const KIB: Self = 1_024;
}

impl MegaByteSize for usize {
    const MB: Self = 1_000_000;
    const MIB: Self = 1_048_576;
}

impl GigaByteSize for usize {
    const GB: Self = 1_000_000_000;
    const GIB: Self = 1_073_741_824;
}

/// These values are exact where `usize` has 64 bits. Where it has 32 bits they do not fit and
/// are truncated to the low 32 bits (`TB` would read `3_567_587_328`): use a `u64` backing type
/// for sizes of a terabyte and more there.
impl TeraByteSize for usize {
    const TB: Self = 1_000_000_000_000u64 as usize;
    const TIB: Self = 1_099_511_627_776u64 as usize;
}

/// These values are exact where `usize` has 64 bits. Where it has 32 bits they do not fit and
/// are truncated to the low 32 bits (`TB` would read `3_567_587_328`): use a `u64` backing type
/// for sizes of a terabyte and more there.
impl PetaByteSize for usize {
    const PB: Self = 1_000_000_000_000_000u64 as usize;
    const PIB: Self = 1_125_899_906_842_624u64 as usize;
}

/// These values are exact where `usize` has 64 bits. Where it has 32 bits they do not fit and
/// are truncated to the low 32 bits (`TB` would read `3_567_587_328`): use a `u64` backing type
/// for sizes of a terabyte and more there.
impl ExaByteSize for usize {
    const EB: Self = 1_000_000_000_000_000_000u64 as usize;
    const EIB: Self = 1_152_921_504_606_846_976u64 as usize;
}

} // verus!
