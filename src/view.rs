//! Structured views over one container integer.
use vstd::prelude::*;

use crate::bfdesc::BfPos;
use crate::bits::{BitContainer, bits_of, with_bits};

verus! {

/// An owned view: its whole state is the container value `val`.
#[derive(Clone, Copy)]
pub struct Bitfield<T: BitContainer> {
    pub val: T,
}

/// A read-only view of a container owned elsewhere.
pub struct BitfieldRef<'a, T: BitContainer> {
    pub raw: &'a T,
}

/// An exclusive view of a container owned elsewhere; writes go straight to that storage.
pub struct BitfieldMut<'a, T: BitContainer> {
    pub raw: &'a mut T,
}

impl<T: BitContainer> Bitfield<T> {
    pub fn new(val: T) -> (r: Self)
        ensures
            r.val == val,
    {
        Bitfield { val }
    }

    /// Views `raw` read-only, without copying it.
    pub fn alias<'a>(raw: &'a T) -> (r: BitfieldRef<'a, T>)
        ensures
            *r.raw == *raw,
    {
        BitfieldRef { raw }
    }

    /// Views `raw` with exclusive write access, without copying it.
    pub fn alias_mut<'a>(raw: &'a mut T) -> (r: BitfieldMut<'a, T>)
        ensures
            *r.raw == *old(raw),
            *final(r.raw) == *final(raw),
    {
        BitfieldMut { raw }
    }

    /// The whole container value.
    pub fn raw(&self) -> (r: T)
        ensures
            r == self.val,
    {
        self.val
    }

    /// Replaces the whole container value.
    pub fn set_raw(&mut self, val: T)
        ensures
            final(self).val == val,
    {
        self.val = val;
    }

    /// The current value of the field at `pos`.
    pub fn get(&self, pos: &BfPos<T>) -> (r: T)
        ensures
            r.wide() == bits_of(self.val.wide(), pos.low(), pos.high()),
    {
        pos.extract(self.val)
    }

    /// Writes the low bits of `new` into the field at `pos`; returns the view for chaining.
    pub fn set(&mut self, pos: &BfPos<T>, new: T) -> (r: &mut Self)
        ensures
            r.val.wide() == with_bits(old(self).val.wide(), pos.low(), pos.high(), new.wide()),
            *final(self) == *final(r),
    {
        self.val = pos.place(self.val, new);
        self
    }

    /// Replaces the field at `pos` by `f` of its current value; returns the view for chaining.
    pub fn update<F: FnOnce(T) -> T>(&mut self, pos: &BfPos<T>, f: F) -> (r: &mut Self)
        requires
            forall|x: T|
                x.wide() == bits_of(old(self).val.wide(), pos.low(), pos.high()) ==> f.requires(
                    (x,),
                ),
        ensures
            exists|x: T, n: T|
                x.wide() == bits_of(old(self).val.wide(), pos.low(), pos.high()) && f.ensures(
                    (x,),
                    n,
                ) && r.val.wide() == with_bits(old(self).val.wide(), pos.low(), pos.high(), n.wide()),
            *final(self) == *final(r),
    {
        let cur = pos.extract(self.val);
        let n = f(cur);
        self.val = pos.place(self.val, n);
        self
    }
}

impl<'a, T: BitContainer> BitfieldRef<'a, T> {
    /// The whole container value.
    pub fn raw(&self) -> (r: T)
        ensures
            r == *self.raw,
    {
        *self.raw
    }

    /// The current value of the field at `pos`.
    pub fn get(&self, pos: &BfPos<T>) -> (r: T)
        ensures
            r.wide() == bits_of((*self.raw).wide(), pos.low(), pos.high()),
    {
        pos.extract(*self.raw)
    }
}

impl<'a, T: BitContainer> BitfieldMut<'a, T> {
    /// The current value of the aliased storage.
    pub open spec fn value(self) -> T {
        *self.raw
    }

    /// The whole container value.
    pub fn raw(&self) -> (r: T)
        ensures
            r == self.value(),
    {
        *self.raw
    }

    /// The current value of the field at `pos`.
    pub fn get(&self, pos: &BfPos<T>) -> (r: T)
        ensures
            r.wide() == bits_of(self.value().wide(), pos.low(), pos.high()),
    {
        pos.extract(*self.raw)
    }

    /// Writes the low bits of `new` into the field at `pos` of the aliased storage.
    pub fn set(&mut self, pos: &BfPos<T>, new: T)
        ensures
            final(self).value().wide() == with_bits(
                old(self).value().wide(),
                pos.low(),
                pos.high(),
                new.wide(),
            ),
            *final(final(self).raw) == *final(old(self).raw),
    {
        *self.raw = pos.place(*self.raw, new);
    }

    /// Replaces the field at `pos` of the aliased storage by `f` of its current value.
    pub fn update<F: FnOnce(T) -> T>(&mut self, pos: &BfPos<T>, f: F)
        requires
            forall|x: T|
                x.wide() == bits_of(old(self).value().wide(), pos.low(), pos.high()) ==> f.requires(
                    (x,),
                ),
        ensures
            exists|x: T, n: T|
                x.wide() == bits_of(old(self).value().wide(), pos.low(), pos.high()) && f.ensures(
                    (x,),
                    n,
                ) && final(self).value().wide() == with_bits(
                    old(self).value().wide(),
                    pos.low(),
                    pos.high(),
                    n.wide(),
                ),
            *final(final(self).raw) == *final(old(self).raw),
    {
        let cur = pos.extract(*self.raw);
        let n = f(cur);
        *self.raw = pos.place(*self.raw, n);
    }
}

} // verus!
