//! Bit-ordering policies: where in a word the bit of a given index lives.

use vstd::prelude::*;

verus! {

/// A rule that places the `width` bit indices of a word on its `width` bit
/// positions, position 0 being the least significant.
pub trait BitOrder: Copy + Sized {
    /// The position of the bit with this index in a word of this width.
    spec fn spec_at(index: u8, width: u8) -> u8;

    /// The text that identifies this policy in encoded data.
    spec fn spec_name() -> Seq<char>;

    /// Every index of the word lands on a position of the word.
    proof fn lemma_at_in_range(index: u8, width: u8)
        requires
            index < width,
        ensures
            Self::spec_at(index, width) < width,
    ;

    /// No two indices of the word share a position.
    proof fn lemma_at_injective(i: u8, j: u8, width: u8)
        requires
            i < width,
            j < width,
            Self::spec_at(i, width) == Self::spec_at(j, width),
        ensures
            i == j,
    ;

    /// The position of the bit with this index in a word of this width.
    fn at(index: u8, width: u8) -> (pos: u8)
        requires
            index < width,
        ensures
            pos == Self::spec_at(index, width),
    ;

    /// The text that identifies this policy in encoded data.
    fn name() -> (s: &'static str)
        ensures
            s@ == Self::spec_name(),
    ;
}

/// Index 0 is the least significant bit, and indices climb with significance.
#[derive(Clone, Copy, Debug, PartialEq, Eq)]
pub struct Lsb0;

/// Index 0 is the most significant bit, and indices fall with significance.
#[derive(Clone, Copy, Debug, PartialEq, Eq)]
pub struct Msb0;

impl BitOrder for Lsb0 {
    open spec fn spec_at(index: u8, width: u8) -> u8 {
        index
    }

    open spec fn spec_name() -> Seq<char> {
        "bitvec::order::Lsb0"@
    }

    proof fn lemma_at_in_range(index: u8, width: u8) {
    }

    proof fn lemma_at_injective(i: u8, j: u8, width: u8) {
    }

    fn at(index: u8, width: u8) -> (pos: u8) {
        index
    }

    fn name() -> (s: &'static str) {
        "bitvec::order::Lsb0"
    }
}

impl BitOrder for Msb0 {
    open spec fn spec_at(index: u8, width: u8) -> u8 {
        (width - 1 - index) as u8
    }

    open spec fn spec_name() -> Seq<char> {
        "bitvec::order::Msb0"@
    }

    proof fn lemma_at_in_range(index: u8, width: u8) {
    }

    proof fn lemma_at_injective(i: u8, j: u8, width: u8) {
    }

    fn at(index: u8, width: u8) -> (pos: u8) {
        width - 1 - index
    }

    fn name() -> (s: &'static str) {
        "bitvec::order::Msb0"
    }
}

/// The two policies carry different names, so that data written under one is
/// never taken for data written under the other.
pub proof fn lemma_names_differ()
    ensures
        Lsb0::spec_name() != Msb0::spec_name(),
{
    reveal_strlit("bitvec::order::Lsb0");
    reveal_strlit("bitvec::order::Msb0");
    assert(Lsb0::spec_name()[15] == 'L');
    assert(Msb0::spec_name()[15] == 'M');
}

} // verus!
