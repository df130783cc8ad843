//! Bit vectors: runs of bits in words that the value owns.

use vstd::prelude::*;
use crate::index::BitIdx;
use crate::order::BitOrder;
use crate::slice::region_bits;
use crate::slice::BitSlice;
use crate::span::BitSpan;
use crate::span::BitSpanError;
use crate::store::BitStore;

verus! {

/// A run of bits in owned words of type `T`, ordered by `O`. The run starts
/// in the first word.
///
/// As a value it is the sequence of its bits: see [`BitVec::view`].
#[derive(Debug)]
pub struct BitVec<T: BitStore, O: BitOrder> {
    words: Vec<T>,
    span: BitSpan<T, O>,
}

impl<T: BitStore, O: BitOrder> View for BitVec<T, O> {
    type V = Seq<bool>;

    open spec fn view(&self) -> Seq<bool> {
        region_bits::<T, O>(self.spec_words(), 0, self.spec_head() as int, self.spec_len() as int)
    }
}

impl<T: BitStore, O: BitOrder> BitVec<T, O> {
    /// The words that the value owns: all of them, not only those that hold
    /// its bits.
    pub closed spec fn spec_words(&self) -> Seq<T> {
        self.words@
    }

    /// The span that places the bits in the words.
    pub closed spec fn spec_span(&self) -> BitSpan<T, O> {
        self.span
    }

    /// The index of the first bit inside the first word.
    pub open spec fn spec_head(&self) -> u8 {
        self.spec_span().spec_head()
    }

    /// The number of bits.
    pub open spec fn spec_len(&self) -> usize {
        self.spec_span().spec_len()
    }

    /// What holds of every bit vector: its span is a span, starts in the
    /// first word, and lies inside the words.
    pub open spec fn wf(&self) -> bool {
        &&& self.spec_span().wf()
        &&& self.spec_span().spec_base() == 0
        &&& self.spec_span().fits(self.spec_words().len() as int)
    }

    #[verifier::type_invariant]
    spec fn inv(self) -> bool {
        self.wf()
    }

    /// Takes `words` for the `bits` bits that start at index `head` of the
    /// first word, or says why they do not hold such a run.
    pub fn new(words: Vec<T>, head: BitIdx, bits: u64) -> (r: Result<Self, BitSpanError>)
        ensures
            match BitSpan::<T, O>::check(0, head, bits, words@.len() as int) {
                Some(e) => r matches Err(f) && f == e,
                None => {
                    &&& r matches Ok(v)
                    &&& v.wf()
                    &&& v.spec_words() == words@
                    &&& v.spec_head() == head.index
                    &&& v.spec_len() == bits
                },
            },
    {
        match BitSpan::new(0, head, bits, words.len()) {
            Ok(span) => Ok(BitVec { words, span }),
            Err(e) => Err(e),
        }
    }

    /// The bits, as a view that borrows the words.
    pub fn as_bitslice(&self) -> (slice: BitSlice<'_, T, O>)
        ensures
            slice.wf(),
            slice.spec_words() == self.spec_words(),
            slice.spec_span() == self.spec_span(),
            slice.spec_span().spec_base() == 0,
            slice@ == self@,
    {
        proof {
            use_type_invariant(self);
        }
        BitSlice::from_parts(self.words.as_slice(), self.span)
    }

    /// The index of the first bit, with the width of the words.
    pub fn head(&self) -> (head: BitIdx)
        ensures
            head == (BitIdx { width: T::spec_bits(), index: self.spec_head() }),
            head.valid(),
    {
        self.span.head()
    }

    /// The number of bits.
    pub fn len(&self) -> (bits: usize)
        ensures
            bits == self.spec_len(),
            bits == self@.len(),
    {
        self.span.len()
    }

    /// Whether the value holds no bit.
    pub fn is_empty(&self) -> (r: bool)
        ensures
            r == (self@.len() == 0),
    {
        self.span.len() == 0
    }

    /// Bit `i`, or nothing where there is no such bit.
    pub fn get(&self, i: usize) -> (r: Option<bool>)
        ensures
            r == if i < self@.len() {
                Some(self@[i as int])
            } else {
                None
            },
    {
        self.as_bitslice().get(i)
    }

    /// The bits, one `bool` each.
    pub fn to_bools(&self) -> (bools: Vec<bool>)
        ensures
            bools@ == self@,
    {
        self.as_bitslice().to_bools()
    }

    /// The words, given back.
    pub fn into_vec(self) -> (words: Vec<T>)
        ensures
            words@ == self.spec_words(),
    {
        self.words
    }
}

} // verus!
