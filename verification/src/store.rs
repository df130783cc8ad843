//! Storage words: the unsigned integer types that bits are packed into.

use vstd::prelude::*;

verus! {

/// Whether `width` is a number of bits that a storage word can have.
pub open spec fn supported_width(width: u8) -> bool {
    width == 8 || width == 16 || width == 32 || width == 64
}

/// Whether the bit at `pos`, counted from the least significant one, is set
/// in `value`. No bit is set at a position that 64 bits do not have.
pub open spec fn bit_of(value: u64, pos: u8) -> bool {
    pos < 64 && (value >> pos) & 1 == 1
}

/// An unsigned integer type whose values hold packed bits.
pub trait BitStore: Copy + Sized {
    /// The number of bits in one word.
    spec fn spec_bits() -> u8;

    /// The word's value as a number.
    spec fn spec_load(self) -> u64;

    /// The width is one of the supported ones.
    proof fn lemma_bits()
        ensures
            supported_width(Self::spec_bits()),
    ;

    /// The number of bits in one word.
    fn bits() -> (width: u8)
        ensures
            width == Self::spec_bits(),
    ;

    /// The word's value, widened to 64 bits.
    fn load(self) -> (value: u64)
        ensures
            value == self.spec_load(),
    ;
}

impl BitStore for u8 {
    open spec fn spec_bits() -> u8 {
        8
    }

    open spec fn spec_load(self) -> u64 {
        self as u64
    }

    proof fn lemma_bits() {
    }

    fn bits() -> (width: u8) {
        8
    }

    fn load(self) -> (value: u64) {
        self as u64
    }
}

impl BitStore for u16 {
    open spec fn spec_bits() -> u8 {
        16
    }

    open spec fn spec_load(self) -> u64 {
        self as u64
    }

    proof fn lemma_bits() {
    }

    fn bits() -> (width: u8) {
        16
    }

    fn load(self) -> (value: u64) {
        self as u64
    }
}

impl BitStore for u32 {
    open spec fn spec_bits() -> u8 {
        32
    }

    open spec fn spec_load(self) -> u64 {
        self as u64
    }

    proof fn lemma_bits() {
    }

    fn bits() -> (width: u8) {
        32
    }

    fn load(self) -> (value: u64) {
        self as u64
    }
}

impl BitStore for u64 {
    open spec fn spec_bits() -> u8 {
        64
    }

    open spec fn spec_load(self) -> u64 {
        self
    }

    proof fn lemma_bits() {
    }

    fn bits() -> (width: u8) {
        64
    }

    fn load(self) -> (value: u64) {
        self
    }
}

impl BitStore for usize {
    open spec fn spec_bits() -> u8 {
        usize::BITS as u8
    }

    open spec fn spec_load(self) -> u64 {
        self as u64
    }

    proof fn lemma_bits() {
    }

    fn bits() -> (width: u8) {
        usize::BITS as u8
    }

    fn load(self) -> (value: u64) {
        self as u64
    }
}

/// Reads the bit at `pos`, counted from the least significant one.
pub fn test_bit(value: u64, pos: u8) -> (set: bool)
    ensures
        set == bit_of(value, pos),
{
    pos < 64 && (value >> pos) & 1 == 1
}

} // verus!
