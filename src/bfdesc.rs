//! Field descriptors: an inclusive bit range bound to a container type.
use core::marker::PhantomData;
use vstd::prelude::*;

use crate::bits::{BitContainer, bits_of, with_bits};

verus! {

/// The position `(low, high)` of one field inside a container of type `T`.
pub struct BfPos<T: BitContainer> {
    pos: (usize, usize),
    marker: PhantomData<T>,
}

impl<T: BitContainer> BfPos<T> {
    #[verifier::type_invariant]
    spec fn inv(self) -> bool {
        self.pos.0 <= self.pos.1 < T::bits()
    }

    /// Lowest bit of the field.
    pub closed spec fn low(self) -> u64 {
        self.pos.0 as u64
    }

    /// Highest bit of the field.
    pub closed spec fn high(self) -> u64 {
        self.pos.1 as u64
    }

    /// The range is non-empty and lies inside the container; every descriptor satisfies this.
    pub open spec fn valid(self) -> bool {
        self.low() <= self.high() < T::bits()
    }

    pub fn new(pos: (usize, usize)) -> (r: Self)
        requires
            pos.0 <= pos.1 < T::bits(),
        ensures
            r.low() == pos.0,
            r.high() == pos.1,
            r.valid(),
    {
        BfPos { pos, marker: PhantomData }
    }

    /// The field's bits in `val`, right-aligned.
    pub fn extract(&self, val: T) -> (r: T)
        ensures
            self.valid(),
            r.wide() == bits_of(val.wide(), self.low(), self.high()),
    {
        proof {
            use_type_invariant(self);
        }
        val.extract_range(self.pos.0, self.pos.1)
    }

    /// `val` with this field replaced by the low bits of `new_val`.
    pub fn place(&self, val: T, new_val: T) -> (r: T)
        ensures
            self.valid(),
            r.wide() == with_bits(val.wide(), self.low(), self.high(), new_val.wide()),
    {
        proof {
            use_type_invariant(self);
        }
        val.insert_range(self.pos.0, self.pos.1, new_val)
    }
}

} // verus!
