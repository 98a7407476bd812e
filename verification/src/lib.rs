//! Semantic wrappers and utilities for byte size representations.
//!
//! [`ByteSize`] wraps an unsigned integer byte count; unit constructors build one from a count
//! of kilobytes, kibibytes and so on, parsing reads one from text such as `"1.5 KiB"`, and
//! [`ByteSize::to_string`] writes the exact count in bytes (such as `"1536 B"`).
use vstd::prelude::*;

mod sealed;

pub mod digits;
pub mod display;
pub mod format;
pub mod impls;
pub mod laws;
pub mod ops;
pub mod parse;
pub mod traits;

pub use display::DisplayBaseUnit;
pub use display::DisplayOptions;
pub use display::DisplayScale;
pub use display::DisplayUnitSystem;
pub use parse::ParseError;
pub use traits::BaseByteSize;
pub use traits::ExaByteSize;
pub use traits::GigaByteSize;
pub use traits::KiloByteSize;
pub use traits::MegaByteSize;
pub use traits::PetaByteSize;
pub use traits::TeraByteSize;

verus! {

/// Byte size representation.
///
/// Use [`ByteSize::b`] to construct a value from bytes and [`ByteSize::bytes`] to get the exact
/// underlying byte count.
///
/// Parsing applies the unit multiplier before rounding the resulting value once to a whole
/// number of bytes: the nearest whole byte is selected, and a value exactly halfway between two
/// byte counts is rounded toward the larger one. Decimal fractions are evaluated exactly.
/// Overflow is checked after rounding, both against `u64` and against the integer type backing
/// the parsed `ByteSize`.
#[derive(Default, Clone, Copy, PartialEq, Eq, PartialOrd, Ord, Hash, Debug)]
pub struct ByteSize<T: BaseByteSize>(T);

impl<T: BaseByteSize> View for ByteSize<T> {
    type V = T;

    closed spec fn view(&self) -> T {
        self.0
    }
}

/// A byte size built from a count of bytes holds that count.
pub(crate) broadcast proof fn lemma_view_of<T: BaseByteSize>(size: T)
    ensures
        #[trigger] ByteSize(size)@ == size,
{
}

/// Byte size representation backed by `usize`.
pub type BSize = ByteSize<usize>;

/// Byte size representation backed by `u8`.
pub type BSize8 = ByteSize<u8>;

/// Byte size representation backed by `u16`.
pub type BSize16 = ByteSize<u16>;

/// Byte size representation backed by `u32`.
pub type BSize32 = ByteSize<u32>;

/// Byte size representation backed by `u64`.
pub type BSize64 = ByteSize<u64>;

impl<T: BaseByteSize> ByteSize<T> {
    /// Constructs a byte size wrapper from a quantity of bytes.
    pub fn b(size: T) -> (r: Self)
        ensures
            r@ == size,
    {
        ByteSize(size)
    }

    /// Returns the exact byte count as the underlying integer type.
    pub fn bytes(self) -> (r: T)
        ensures
            r == self@,
    {
        self.0
    }
}

} // verus!
