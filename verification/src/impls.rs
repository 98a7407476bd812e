//! Construction, access, and the exact text of byte sizes.
use vstd::prelude::*;

use crate::format::{ascii_chars, byte_count_bytes, format_byte_count};
use crate::parse::ParseError;
use crate::traits::BaseByteSize;
use crate::ByteSize;

verus! {

impl<T: BaseByteSize> ByteSize<T> {
    /// Calculate a new byte size with the provided function, returning a new struct.
    pub fn map<F: FnOnce(T) -> T>(self, f: F) -> (r: Self)
        requires
            f.requires((self@,)),
        ensures
            f.ensures((self@,), r@),
    {
        ByteSize::b(f(self.bytes()))
    }

    /// Calculate a new value with the provided function.
    pub fn with<R, F: FnOnce(T) -> R>(self, f: F) -> (r: R)
        requires
            f.requires((self@,)),
        ensures
            f.ensures((self@,), r),
    {
        f(self.bytes())
    }
}

impl ByteSize<u16> {
    /// Constructs a byte size wrapper from a quantity of `kb` units (kilobytes).
    pub fn kb(size: u16) -> (r: Self)
        requires
            size * 1_000 <= u16::MAX,
        ensures
            r@ == size * 1_000,
    {
        ByteSize::b(size * 1_000)
    }

    /// Constructs a byte size wrapper from a quantity of `kib` units (kibibytes).
    pub fn kib(size: u16) -> (r: Self)
        requires
            size * 1_024 <= u16::MAX,
        ensures
            r@ == size * 1_024,
    {
        ByteSize::b(size * 1_024)
    }
}

impl ByteSize<u32> {
    /// Constructs a byte size wrapper from a quantity of `kb` units (kilobytes).
    pub fn kb(size: u32) -> (r: Self)
        requires
            size * 1_000 <= u32::MAX,
        ensures
            r@ == size * 1_000,
    {
        ByteSize::b(size * 1_000)
    }

    /// Constructs a byte size wrapper from a quantity of `kib` units (kibibytes).
    pub fn kib(size: u32) -> (r: Self)
        requires
            size * 1_024 <= u32::MAX,
        ensures
            r@ == size * 1_024,
    {
        ByteSize::b(size * 1_024)
    }

    /// Constructs a byte size wrapper from a quantity of `mb` units (megabytes).
    pub fn mb(size: u32) -> (r: Self)
        requires
            size * 1_000_000 <= u32::MAX,
        ensures
            r@ == size * 1_000_000,
    {
        ByteSize::b(size * 1_000_000)
    }

    /// Constructs a byte size wrapper from a quantity of `mib` units (mebibytes).
    pub fn mib(size: u32) -> (r: Self)
        requires
            size * 1_048_576 <= u32::MAX,
        ensures
            r@ == size * 1_048_576,
    {
        ByteSize::b(size * 1_048_576)
    }

    /// Constructs a byte size wrapper from a quantity of `gb` units (gigabytes).
    pub fn gb(size: u32) -> (r: Self)
        requires
            size * 1_000_000_000 <= u32::MAX,
        ensures
            r@ == size * 1_000_000_000,
    {
        ByteSize::b(size * 1_000_000_000)
    }

    /// Constructs a byte size wrapper from a quantity of `gib` units (gibibytes).
    pub fn gib(size: u32) -> (r: Self)
        requires
            size * 1_073_741_824 <= u32::MAX,
        ensures
            r@ == size * 1_073_741_824,
    {
        ByteSize::b(size * 1_073_741_824)
    }
}

impl ByteSize<u64> {
    /// Constructs a byte size wrapper from a quantity of `kb` units (kilobytes).
    pub fn kb(size: u64) -> (r: Self)
        requires
            size * 1_000 <= u64::MAX,
        ensures
            r@ == size * 1_000,
    {
        ByteSize::b(size * 1_000)
    }

    /// Constructs a byte size wrapper from a quantity of `kib` units (kibibytes).
    pub fn kib(size: u64) -> (r: Self)
        requires
            size * 1_024 <= u64::MAX,
        ensures
            r@ == size * 1_024,
    {
        ByteSize::b(size * 1_024)
    }

    /// Constructs a byte size wrapper from a quantity of `mb` units (megabytes).
    pub fn mb(size: u64) -> (r: Self)
        requires
            size * 1_000_000 <= u64::MAX,
        ensures
            r@ == size * 1_000_000,
    {
        ByteSize::b(size * 1_000_000)
    }

    /// Constructs a byte size wrapper from a quantity of `mib` units (mebibytes).
    pub fn mib(size: u64) -> (r: Self)
        requires
            size * 1_048_576 <= u64::MAX,
        ensures
            r@ == size * 1_048_576,
    {
        ByteSize::b(size * 1_048_576)
    }

    /// Constructs a byte size wrapper from a quantity of `gb` units (gigabytes).
    pub fn gb(size: u64) -> (r: Self)
        requires
            size * 1_000_000_000 <= u64::MAX,
        ensures
            r@ == size * 1_000_000_000,
    {
        ByteSize::b(size * 1_000_000_000)
    }

    /// Constructs a byte size wrapper from a quantity of `gib` units (gibibytes).
    pub fn gib(size: u64) -> (r: Self)
        requires
            size * 1_073_741_824 <= u64::MAX,
        ensures
            r@ == size * 1_073_741_824,
    {
        ByteSize::b(size * 1_073_741_824)
    }

    /// Constructs a byte size wrapper from a quantity of `tb` units (terabytes).
    pub fn tb(size: u64) -> (r: Self)
        requires
            size * 1_000_000_000_000 <= u64::MAX,
        ensures
            r@ == size * 1_000_000_000_000,
    {
        ByteSize::b(size * 1_000_000_000_000)
    }

    /// Constructs a byte size wrapper from a quantity of `tib` units (tebibytes).
    pub fn tib(size: u64) -> (r: Self)
        requires
            size * 1_099_511_627_776 <= u64::MAX,
        ensures
            r@ == size * 1_099_511_627_776,
    {
        ByteSize::b(size * 1_099_511_627_776)
    }

    /// Constructs a byte size wrapper from a quantity of `pb` units (petabytes).
    pub fn pb(size: u64) -> (r: Self)
        requires
            size * 1_000_000_000_000_000 <= u64::MAX,
        ensures
            r@ == size * 1_000_000_000_000_000,
    {
        ByteSize::b(size * 1_000_000_000_000_000)
    }

    /// Constructs a byte size wrapper from a quantity of `pib` units (pebibytes).
    pub fn pib(size: u64) -> (r: Self)
        requires
            size * 1_125_899_906_842_624 <= u64::MAX,
        ensures
            r@ == size * 1_125_899_906_842_624,
    {
        ByteSize::b(size * 1_125_899_906_842_624)
    }

    /// Constructs a byte size wrapper from a quantity of `eb` units (exabytes).
    pub fn eb(size: u64) -> (r: Self)
        requires
            size * 1_000_000_000_000_000_000 <= u64::MAX,
        ensures
            r@ == size * 1_000_000_000_000_000_000,
    {
        ByteSize::b(size * 1_000_000_000_000_000_000)
    }

    /// Constructs a byte size wrapper from a quantity of `eib` units (exbibytes).
    pub fn eib(size: u64) -> (r: Self)
        requires
            size * 1_152_921_504_606_846_976 <= u64::MAX,
        ensures
            r@ == size * 1_152_921_504_606_846_976,
    {
        ByteSize::b(size * 1_152_921_504_606_846_976)
    }
}

impl ByteSize<usize> {
    /// Constructs a byte size wrapper from a quantity of `kb` units (kilobytes).
    pub fn kb(size: usize) -> (r: Self)
        requires
            size * 1_000 <= usize::MAX,
        ensures
            r@ == size * 1_000,
    {
        ByteSize::b(size * 1_000)
    }

    /// Constructs a byte size wrapper from a quantity of `kib` units (kibibytes).
    pub fn kib(size: usize) -> (r: Self)
        requires
            size * 1_024 <= usize::MAX,
        ensures
            r@ == size * 1_024,
    {
        ByteSize::b(size * 1_024)
    }

    /// Constructs a byte size wrapper from a quantity of `mb` units (megabytes).
    pub fn mb(size: usize) -> (r: Self)
        requires
            size * 1_000_000 <= usize::MAX,
        ensures
            r@ == size * 1_000_000,
    {
        ByteSize::b(size * 1_000_000)
    }

    /// Constructs a byte size wrapper from a quantity of `mib` units (mebibytes).
    pub fn mib(size: usize) -> (r: Self)
        requires
            size * 1_048_576 <= usize::MAX,
        ensures
            r@ == size * 1_048_576,
    {
        ByteSize::b(size * 1_048_576)
    }

    /// Constructs a byte size wrapper from a quantity of `gb` units (gigabytes).
    pub fn gb(size: usize) -> (r: Self)
        requires
            size * 1_000_000_000 <= usize::MAX,
        ensures
            r@ == size * 1_000_000_000,
    {
        ByteSize::b(size * 1_000_000_000)
    }

    /// Constructs a byte size wrapper from a quantity of `gib` units (gibibytes).
    pub fn gib(size: usize) -> (r: Self)
        requires
            size * 1_073_741_824 <= usize::MAX,
        ensures
            r@ == size * 1_073_741_824,
    {
        ByteSize::b(size * 1_073_741_824)
    }

    /// Constructs a byte size wrapper from a quantity of `tb` units (terabytes).
    pub fn tb(size: usize) -> (r: Self)
        requires
            size * 1_000_000_000_000 <= usize::MAX,
        ensures
            r@ == size * 1_000_000_000_000,
    {
        ByteSize::b((size as u64 * 1_000_000_000_000) as usize)
    }

    /// Constructs a byte size wrapper from a quantity of `tib` units (tebibytes).
    pub fn tib(size: usize) -> (r: Self)
        requires
            size * 1_099_511_627_776 <= usize::MAX,
        ensures
            r@ == size * 1_099_511_627_776,
    {
        ByteSize::b((size as u64 * 1_099_511_627_776) as usize)
    }

    /// Constructs a byte size wrapper from a quantity of `pb` units (petabytes).
    pub fn pb(size: usize) -> (r: Self)
        requires
            size * 1_000_000_000_000_000 <= usize::MAX,
        ensures
            r@ == size * 1_000_000_000_000_000,
    {
        ByteSize::b((size as u64 * 1_000_000_000_000_000) as usize)
    }

    /// Constructs a byte size wrapper from a quantity of `pib` units (pebibytes).
    pub fn pib(size: usize) -> (r: Self)
        requires
            size * 1_125_899_906_842_624 <= usize::MAX,
        ensures
            r@ == size * 1_125_899_906_842_624,
    {
        ByteSize::b((size as u64 * 1_125_899_906_842_624) as usize)
    }

    /// Constructs a byte size wrapper from a quantity of `eb` units (exabytes).
    pub fn eb(size: usize) -> (r: Self)
        requires
            size * 1_000_000_000_000_000_000 <= usize::MAX,
        ensures
            r@ == size * 1_000_000_000_000_000_000,
    {
        ByteSize::b((size as u64 * 1_000_000_000_000_000_000) as usize)
    }

    /// Constructs a byte size wrapper from a quantity of `eib` units (exbibytes).
    pub fn eib(size: usize) -> (r: Self)
        requires
            size * 1_152_921_504_606_846_976 <= usize::MAX,
        ensures
            r@ == size * 1_152_921_504_606_846_976,
    {
        ByteSize::b((size as u64 * 1_152_921_504_606_846_976) as usize)
    }
}

impl ByteSize<u8> {
    /// The exact byte count in base bytes, such as `"1536 B"`: its decimal digits, a space,
    /// and `B`.
    pub fn to_string(&self) -> (r: String)
        ensures
            r@ == ascii_chars(byte_count_bytes(self@ as nat)),
    {
        format_byte_count(self.bytes() as u64)
    }
}

impl ByteSize<u16> {
    /// The exact byte count in base bytes, such as `"1536 B"`: its decimal digits, a space,
    /// and `B`.
    pub fn to_string(&self) -> (r: String)
        ensures
            r@ == ascii_chars(byte_count_bytes(self@ as nat)),
    {
        format_byte_count(self.bytes() as u64)
    }
}

impl ByteSize<u32> {
    /// The exact byte count in base bytes, such as `"1536 B"`: its decimal digits, a space,
    /// and `B`.
    pub fn to_string(&self) -> (r: String)
        ensures
            r@ == ascii_chars(byte_count_bytes(self@ as nat)),
    {
        format_byte_count(self.bytes() as u64)
    }
}

impl ByteSize<u64> {
    /// The exact byte count in base bytes, such as `"1536 B"`: its decimal digits, a space,
    /// and `B`.
    pub fn to_string(&self) -> (r: String)
        ensures
            r@ == ascii_chars(byte_count_bytes(self@ as nat)),
    {
        format_byte_count(self.bytes() as u64)
    }
}

impl ByteSize<usize> {
    /// The exact byte count in base bytes, such as `"1536 B"`: its decimal digits, a space,
    /// and `B`.
    pub fn to_string(&self) -> (r: String)
        ensures
            r@ == ascii_chars(byte_count_bytes(self@ as nat)),
    {
        format_byte_count(self.bytes() as u64)
    }
}

impl ByteSize<u8> {
    /// The byte size of `size` bytes, when `size` fits in `u8`; an overflow otherwise.
    pub fn bsize_from_u64(size: u64) -> (r: Result<Self, ParseError>)
        ensures
            size <= u8::MAX ==> (r matches Ok(v) && v@ == size),
            size > u8::MAX ==> r == Err::<Self, ParseError>(ParseError::Overflow),
    {
        if size <= u8::MAX as u64 {
            Ok(ByteSize::b(size as u8))
        } else {
            Err(ParseError::Overflow)
        }
    }
}

impl ByteSize<u16> {
    /// The byte size of `size` bytes, when `size` fits in `u16`; an overflow otherwise.
    pub fn bsize_from_u64(size: u64) -> (r: Result<Self, ParseError>)
        ensures
            size <= u16::MAX ==> (r matches Ok(v) && v@ == size),
            size > u16::MAX ==> r == Err::<Self, ParseError>(ParseError::Overflow),
    {
        if size <= u16::MAX as u64 {
            Ok(ByteSize::b(size as u16))
        } else {
            Err(ParseError::Overflow)
        }
    }
}

impl ByteSize<u32> {
    /// The byte size of `size` bytes, when `size` fits in `u32`; an overflow otherwise.
    pub fn bsize_from_u64(size: u64) -> (r: Result<Self, ParseError>)
        ensures
            size <= u32::MAX ==> (r matches Ok(v) && v@ == size),
            size > u32::MAX ==> r == Err::<Self, ParseError>(ParseError::Overflow),
    {
        if size <= u32::MAX as u64 {
            Ok(ByteSize::b(size as u32))
        } else {
            Err(ParseError::Overflow)
        }
    }
}

impl ByteSize<u64> {
    /// The byte size of `size` bytes, when `size` fits in `u64`; an overflow otherwise.
    pub fn bsize_from_u64(size: u64) -> (r: Result<Self, ParseError>)
        ensures
            size <= u64::MAX ==> (r matches Ok(v) && v@ == size),
            size > u64::MAX ==> r == Err::<Self, ParseError>(ParseError::Overflow),
    {
        Ok(ByteSize::b(size))
    }
}

impl ByteSize<usize> {
    /// The byte size of `size` bytes, when `size` fits in `usize`; an overflow otherwise.
    pub fn bsize_from_u64(size: u64) -> (r: Result<Self, ParseError>)
        ensures
            size <= usize::MAX ==> (r matches Ok(v) && v@ == size),
            size > usize::MAX ==> r == Err::<Self, ParseError>(ParseError::Overflow),
    {
        if size <= usize::MAX as u64 {
            Ok(ByteSize::b(size as usize))
        } else {
            Err(ParseError::Overflow)
        }
    }
}

} // verus!
