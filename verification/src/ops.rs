//! Addition and subtraction of byte sizes backed by the same integer type.
use vstd::prelude::*;

use core::ops::{Add, AddAssign, Sub, SubAssign};
use vstd::std_specs::ops::{AddSpecImpl, SubSpecImpl};

use crate::ByteSize;

verus! {

broadcast use crate::lemma_view_of;

impl AddSpecImpl for ByteSize<u8> {
    open spec fn obeys_add_spec() -> bool {
        true
    }

    open spec fn add_req(self, rhs: Self) -> bool {
        self@ + rhs@ <= u8::MAX
    }

    closed spec fn add_spec(self, rhs: Self) -> Self {
        ByteSize((self.0 + rhs.0) as u8)
    }
}

impl Add for ByteSize<u8> {
    type Output = Self;

    fn add(self, rhs: Self) -> (r: Self)
        ensures
            r@ == self@ + rhs@,
    {
        ByteSize(self.0 + rhs.0)
    }
}

impl AddAssign for ByteSize<u8> {
    fn add_assign(&mut self, rhs: Self)
        requires
            old(self)@ + rhs@ <= u8::MAX,
        ensures
            final(self)@ == old(self)@ + rhs@,
    {
        self.0 = self.0 + rhs.0;
    }
}

impl SubSpecImpl for ByteSize<u8> {
    open spec fn obeys_sub_spec() -> bool {
        true
    }

    open spec fn sub_req(self, rhs: Self) -> bool {
        self@ >= rhs@
    }

    closed spec fn sub_spec(self, rhs: Self) -> Self {
        ByteSize((self.0 - rhs.0) as u8)
    }
}

impl Sub for ByteSize<u8> {
    type Output = Self;

    fn sub(self, rhs: Self) -> (r: Self)
        ensures
            r@ == self@ - rhs@,
    {
        ByteSize(self.0 - rhs.0)
    }
}

impl SubAssign for ByteSize<u8> {
    fn sub_assign(&mut self, rhs: Self)
        requires
            old(self)@ >= rhs@,
        ensures
            final(self)@ == old(self)@ - rhs@,
    {
        self.0 = self.0 - rhs.0;
    }
}

impl AddSpecImpl for ByteSize<u16> {
    open spec fn obeys_add_spec() -> bool {
        true
    }

    open spec fn add_req(self, rhs: Self) -> bool {
        self@ + rhs@ <= u16::MAX
    }

    closed spec fn add_spec(self, rhs: Self) -> Self {
        ByteSize((self.0 + rhs.0) as u16)
    }
}

impl Add for ByteSize<u16> {
    type Output = Self;

    fn add(self, rhs: Self) -> (r: Self)
        ensures
            r@ == self@ + rhs@,
    {
        ByteSize(self.0 + rhs.0)
    }
}

impl AddAssign for ByteSize<u16> {
    fn add_assign(&mut self, rhs: Self)
        requires
            old(self)@ + rhs@ <= u16::MAX,
        ensures
            final(self)@ == old(self)@ + rhs@,
    {
        self.0 = self.0 + rhs.0;
    }
}

impl SubSpecImpl for ByteSize<u16> {
    open spec fn obeys_sub_spec() -> bool {
        true
    }

    open spec fn sub_req(self, rhs: Self) -> bool {
        self@ >= rhs@
    }

    closed spec fn sub_spec(self, rhs: Self) -> Self {
        ByteSize((self.0 - rhs.0) as u16)
    }
}

impl Sub for ByteSize<u16> {
    type Output = Self;

    fn sub(self, rhs: Self) -> (r: Self)
        ensures
            r@ == self@ - rhs@,
    {
        ByteSize(self.0 - rhs.0)
    }
}

impl SubAssign for ByteSize<u16> {
    fn sub_assign(&mut self, rhs: Self)
        requires
            old(self)@ >= rhs@,
        ensures
            final(self)@ == old(self)@ - rhs@,
    {
        self.0 = self.0 - rhs.0;
    }
}

impl AddSpecImpl for ByteSize<u32> {
    open spec fn obeys_add_spec() -> bool {
        true
    }

    open spec fn add_req(self, rhs: Self) -> bool {
        self@ + rhs@ <= u32::MAX
    }

    closed spec fn add_spec(self, rhs: Self) -> Self {
        ByteSize((self.0 + rhs.0) as u32)
    }
}

impl Add for ByteSize<u32> {
    type Output = Self;

    fn add(self, rhs: Self) -> (r: Self)
        ensures
            r@ == self@ + rhs@,
    {
        ByteSize(self.0 + rhs.0)
    }
}

impl AddAssign for ByteSize<u32> {
    fn add_assign(&mut self, rhs: Self)
        requires
            old(self)@ + rhs@ <= u32::MAX,
        ensures
            final(self)@ == old(self)@ + rhs@,
    {
        self.0 = self.0 + rhs.0;
    }
}

impl SubSpecImpl for ByteSize<u32> {
    open spec fn obeys_sub_spec() -> bool {
        true
    }

    open spec fn sub_req(self, rhs: Self) -> bool {
        self@ >= rhs@
    }

    closed spec fn sub_spec(self, rhs: Self) -> Self {
        ByteSize((self.0 - rhs.0) as u32)
    }
}

impl Sub for ByteSize<u32> {
    type Output = Self;

    fn sub(self, rhs: Self) -> (r: Self)
        ensures
            r@ == self@ - rhs@,
    {
        ByteSize(self.0 - rhs.0)
    }
}

impl SubAssign for ByteSize<u32> {
    fn sub_assign(&mut self, rhs: Self)
        requires
            old(self)@ >= rhs@,
        ensures
            final(self)@ == old(self)@ - rhs@,
    {
        self.0 = self.0 - rhs.0;
    }
}

impl AddSpecImpl for ByteSize<u64> {
    open spec fn obeys_add_spec() -> bool {
        true
    }

    open spec fn add_req(self, rhs: Self) -> bool {
        self@ + rhs@ <= u64::MAX
    }

    closed spec fn add_spec(self, rhs: Self) -> Self {
        ByteSize((self.0 + rhs.0) as u64)
    }
}

impl Add for ByteSize<u64> {
    type Output = Self;

    fn add(self, rhs: Self) -> (r: Self)
        ensures
            r@ == self@ + rhs@,
    {
        ByteSize(self.0 + rhs.0)
    }
}

impl AddAssign for ByteSize<u64> {
    fn add_assign(&mut self, rhs: Self)
        requires
            old(self)@ + rhs@ <= u64::MAX,
        ensures
            final(self)@ == old(self)@ + rhs@,
    {
        self.0 = self.0 + rhs.0;
    }
}

impl SubSpecImpl for ByteSize<u64> {
    open spec fn obeys_sub_spec() -> bool {
        true
    }

    open spec fn sub_req(self, rhs: Self) -> bool {
        self@ >= rhs@
    }

    closed spec fn sub_spec(self, rhs: Self) -> Self {
        ByteSize((self.0 - rhs.0) as u64)
    }
}

impl Sub for ByteSize<u64> {
    type Output = Self;

    fn sub(self, rhs: Self) -> (r: Self)
        ensures
            r@ == self@ - rhs@,
    {
        ByteSize(self.0 - rhs.0)
    }
}

impl SubAssign for ByteSize<u64> {
    fn sub_assign(&mut self, rhs: Self)
        requires
            old(self)@ >= rhs@,
        ensures
            final(self)@ == old(self)@ - rhs@,
    {
        self.0 = self.0 - rhs.0;
    }
}

impl AddSpecImpl for ByteSize<usize> {
    open spec fn obeys_add_spec() -> bool {
        true
    }

    open spec fn add_req(self, rhs: Self) -> bool {
        self@ + rhs@ <= usize::MAX
    }

    closed spec fn add_spec(self, rhs: Self) -> Self {
        ByteSize((self.0 + rhs.0) as usize)
    }
}

impl Add for ByteSize<usize> {
    type Output = Self;

    fn add(self, rhs: Self) -> (r: Self)
        ensures
            r@ == self@ + rhs@,
    {
        ByteSize(self.0 + rhs.0)
    }
}

impl AddAssign for ByteSize<usize> {
    fn add_assign(&mut self, rhs: Self)
        requires
            old(self)@ + rhs@ <= usize::MAX,
        ensures
            final(self)@ == old(self)@ + rhs@,
    {
        self.0 = self.0 + rhs.0;
    }
}

impl SubSpecImpl for ByteSize<usize> {
    open spec fn obeys_sub_spec() -> bool {
        true
    }

    open spec fn sub_req(self, rhs: Self) -> bool {
        self@ >= rhs@
    }

    closed spec fn sub_spec(self, rhs: Self) -> Self {
        ByteSize((self.0 - rhs.0) as usize)
    }
}

impl Sub for ByteSize<usize> {
    type Output = Self;

    fn sub(self, rhs: Self) -> (r: Self)
        ensures
            r@ == self@ - rhs@,
    {
        ByteSize(self.0 - rhs.0)
    }
}

impl SubAssign for ByteSize<usize> {
    fn sub_assign(&mut self, rhs: Self)
        requires
            old(self)@ >= rhs@,
        ensures
            final(self)@ == old(self)@ - rhs@,
    {
        self.0 = self.0 - rhs.0;
    }
}

} // verus!
