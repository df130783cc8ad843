//! The index of a bit inside a storage word.

use vstd::prelude::*;
use crate::store::supported_width;
use crate::store::BitStore;

verus! {

/// A bit index together with the word width it was computed against.
///
/// The pair is what encoded data records for the first live bit of a region.
/// It says nothing by itself: it is *valid* when the width is a supported one
/// and the index lies inside a word of that width.
#[derive(Clone, Copy, Debug, PartialEq, Eq, Structural)]
pub struct BitIdx {
    /// The width, in bits, of the words that the index counts in.
    pub width: u8,
    /// The index of the bit, from 0.
    pub index: u8,
}

impl BitIdx {
    /// The index lies inside a word of the recorded width.
    pub open spec fn valid(self) -> bool {
        supported_width(self.width) && self.index < self.width
    }

    /// The index was computed against words of `width` bits and lies inside
    /// such a word.
    pub open spec fn valid_for(self, width: u8) -> bool {
        self.width == width && self.index < width
    }

    /// The index `index` in words of `width` bits, where that is a valid pair.
    pub fn new(width: u8, index: u8) -> (r: Option<BitIdx>)
        ensures
            r == if (BitIdx { width, index }).valid() {
                Some(BitIdx { width, index })
            } else {
                None
            },
    {
        if (width == 8 || width == 16 || width == 32 || width == 64) && index < width {
            Some(BitIdx { width, index })
        } else {
            None
        }
    }

    /// The index `index` in words of type `T`, where it lies inside the word.
    pub fn of<T: BitStore>(index: u8) -> (r: Option<BitIdx>)
        ensures
            r == if index < T::spec_bits() {
                Some(BitIdx { width: T::spec_bits(), index })
            } else {
                None
            },
            r is Some ==> r.unwrap().valid(),
    {
        proof {
            T::lemma_bits();
        }
        if index < T::bits() {
            Some(BitIdx { width: T::bits(), index })
        } else {
            None
        }
    }

    /// Whether the pair fits words of `width` bits.
    pub fn fits(self, width: u8) -> (r: bool)
        ensures
            r == self.valid_for(width),
    {
        self.width == width && self.index < width
    }
}

} // verus!
