//! Boxed bit slices: owned runs of bits whose length is settled.

use vstd::prelude::*;
use crate::order::BitOrder;
use crate::slice::BitSlice;
use crate::store::BitStore;
use crate::vec::BitVec;

verus! {

/// A run of bits in owned words of type `T`, ordered by `O`, that is done
/// growing.
///
/// As a value it is the sequence of its bits: see [`BitBox::view`].
#[derive(Debug)]
pub struct BitBox<T: BitStore, O: BitOrder> {
    bits: BitVec<T, O>,
}

impl<T: BitStore, O: BitOrder> View for BitBox<T, O> {
    type V = Seq<bool>;

    open spec fn view(&self) -> Seq<bool> {
        self.spec_bitvec()@
    }
}

impl<T: BitStore, O: BitOrder> BitBox<T, O> {
    /// The bit vector that was boxed.
    pub closed spec fn spec_bitvec(&self) -> BitVec<T, O> {
        self.bits
    }

    /// Boxes a bit vector.
    pub fn from_bitvec(bits: BitVec<T, O>) -> (boxed: Self)
        ensures
            boxed.spec_bitvec() == bits,
    {
        BitBox { bits }
    }

    /// The bit vector that was boxed, given back.
    pub fn into_bitvec(self) -> (bits: BitVec<T, O>)
        ensures
            bits == self.spec_bitvec(),
    {
        self.bits
    }

    /// The bits, as a view that borrows the words.
    pub fn as_bitslice(&self) -> (slice: BitSlice<'_, T, O>)
        ensures
            slice.wf(),
            slice.spec_words() == self.spec_bitvec().spec_words(),
            slice.spec_span() == self.spec_bitvec().spec_span(),
            slice.spec_span().spec_base() == 0,
            slice@ == self@,
    {
        self.bits.as_bitslice()
    }
}

impl<T: BitStore, O: BitOrder> BitVec<T, O> {
    /// Boxes the bit vector.
    pub fn into_boxed_bitslice(self) -> (boxed: BitBox<T, O>)
        ensures
            boxed.spec_bitvec() == self,
    {
        BitBox::from_bitvec(self)
    }
}

} // verus!
