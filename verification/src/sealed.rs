use vstd::prelude::*;

verus! {

/// Restricts the backing integer types to those this crate supports.
pub trait Sealed {}

impl Sealed for u8 {}

impl Sealed for u16 {}

impl Sealed for u32 {}

impl Sealed for u64 {}

impl Sealed for usize {}

} // verus!
