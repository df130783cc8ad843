//! Bit spans: descriptors of a run of bits inside a sequence of words.

use vstd::prelude::*;
use core::marker::PhantomData;
use crate::index::BitIdx;
use crate::order::BitOrder;
use crate::store::supported_width;
use crate::store::BitStore;

verus! {

/// The greatest number of bits that a span can describe.
pub const MAX_BITS: usize = usize::MAX / 8;

/// The number of words of `width` bits that `bits` bits occupy when the first
/// of them sits at index `head` of the first word: `(head + bits) / width`,
/// rounded up.
pub open spec fn required_words(head: int, bits: int, width: int) -> int {
    (head + bits + width - 1) / width
}

/// Why a span could not be made.
#[derive(Clone, Copy, Debug, PartialEq, Eq, Structural)]
pub enum BitSpanError {
    /// The head index does not lie inside a word of the span's width, or was
    /// computed against another width.
    HeadOutOfRange {
        /// The width that the head index was recorded with.
        width: u8,
        /// The head index.
        index: u8,
    },
    /// The words at hand are fewer than the span covers.
    InsufficientBuffer {
        /// The number of words that the span covers.
        required: u64,
        /// The number of words present from the span's first word on.
        available: usize,
    },
    /// The span holds more bits than a span can describe.
    LengthOverflow {
        /// The number of bits asked for.
        bits: u64,
    },
}

impl BitSpanError {
    /// The error in words.
    pub open spec fn spec_message(self) -> Seq<char> {
        match self {
            BitSpanError::HeadOutOfRange { .. } => "head index out of range for the word width"@,
            BitSpanError::InsufficientBuffer { .. } => "too few words for the head index and the bit count"@,
            BitSpanError::LengthOverflow { .. } => "bit count beyond the longest span"@,
        }
    }

    /// The error in words.
    pub fn message(&self) -> (text: &'static str)
        ensures
            text@ == self.spec_message(),
    {
        match self {
            BitSpanError::HeadOutOfRange { .. } => "head index out of range for the word width",
            BitSpanError::InsufficientBuffer { .. } => "too few words for the head index and the bit count",
            BitSpanError::LengthOverflow { .. } => "bit count beyond the longest span",
        }
    }
}

/// A run of `len` bits in a sequence of words of type `T`, ordered by `O`.
///
/// The run starts in the word at position `base` of the sequence, at bit
/// index `head` of that word, and goes on through the following words. A span
/// is made by [`BitSpan::new`] alone, which checks it against the length of
/// the word sequence it is meant for.
#[derive(Debug)]
pub struct BitSpan<T: BitStore, O: BitOrder> {
    base: usize,
    head: u8,
    bits: usize,
    marker: PhantomData<(T, O)>,
}

impl<T: BitStore, O: BitOrder> Clone for BitSpan<T, O> {
    fn clone(&self) -> (r: Self)
        ensures
            r == *self,
    {
        proof {
            use_type_invariant(self);
        }
        BitSpan { base: self.base, head: self.head, bits: self.bits, marker: PhantomData }
    }
}

impl<T: BitStore, O: BitOrder> Copy for BitSpan<T, O> {

}

impl<T: BitStore, O: BitOrder> BitSpan<T, O> {
    /// The position, in the word sequence, of the word that holds the first
    /// bit.
    pub closed spec fn spec_base(&self) -> usize {
        self.base
    }

    /// The index of the first bit inside its word.
    pub closed spec fn spec_head(&self) -> u8 {
        self.head
    }

    /// The number of bits.
    pub closed spec fn spec_len(&self) -> usize {
        self.bits
    }

    /// The number of words that the span covers.
    pub open spec fn spec_elements(&self) -> int {
        required_words(self.spec_head() as int, self.spec_len() as int, T::spec_bits() as int)
    }

    /// The position, in the word sequence, of the word that holds bit `i`.
    pub open spec fn spec_word_of(&self, i: int) -> int {
        self.spec_base() + (self.spec_head() + i) / (T::spec_bits() as int)
    }

    /// The position of bit `i` inside its word, from the least significant
    /// bit.
    pub open spec fn spec_pos_of(&self, i: int) -> u8 {
        O::spec_at(((self.spec_head() + i) % (T::spec_bits() as int)) as u8, T::spec_bits())
    }

    /// What holds of every span: the head lies inside a word, the length is
    /// one that a span can describe, and the words covered can be counted.
    pub open spec fn wf(&self) -> bool {
        &&& self.spec_head() < T::spec_bits()
        &&& self.spec_len() <= MAX_BITS
        &&& self.spec_base() + self.spec_elements() <= usize::MAX
    }

    /// The span lies inside a sequence of `words` words.
    pub open spec fn fits(&self, words: int) -> bool {
        self.spec_base() + self.spec_elements() <= words
    }

    #[verifier::type_invariant]
    spec fn inv(self) -> bool {
        self.wf()
    }

    /// The first reason, if any, for which no span of `bits` bits can start
    /// at word `base`, index `head`, of a sequence of `words` words.
    ///
    /// The head is judged first, then the room in the sequence, then the
    /// length.
    pub open spec fn check(base: int, head: BitIdx, bits: u64, words: int) -> Option<BitSpanError> {
        let required = required_words(head.index as int, bits as int, T::spec_bits() as int);
        if !head.valid_for(T::spec_bits()) {
            Some(BitSpanError::HeadOutOfRange { width: head.width, index: head.index })
        } else if base + required > words {
            Some(
                BitSpanError::InsufficientBuffer {
                    required: required as u64,
                    available: if base <= words {
                        (words - base) as usize
                    } else {
                        0
                    },
                },
            )
        } else if bits > MAX_BITS {
            Some(BitSpanError::LengthOverflow { bits })
        } else {
            None
        }
    }

    /// Makes the span of `bits` bits that starts at word `base`, index
    /// `head`, of a sequence of `words` words, or says why there is none.
    pub fn new(base: usize, head: BitIdx, bits: u64, words: usize) -> (r: Result<
        Self,
        BitSpanError,
    >)
        ensures
            match Self::check(base as int, head, bits, words as int) {
                Some(e) => r == Err::<Self, BitSpanError>(e),
                None => {
                    &&& r is Ok
                    &&& r.unwrap().wf()
                    &&& r.unwrap().fits(words as int)
                    &&& r.unwrap().spec_base() == base
                    &&& r.unwrap().spec_head() == head.index
                    &&& r.unwrap().spec_len() == bits
                },
            },
    {
        let width = T::bits();
        proof {
            T::lemma_bits();
        }
        if !head.fits(width) {
            return Err(BitSpanError::HeadOutOfRange { width: head.width, index: head.index });
        }
        let required = count_words(head.index, bits, width);
        if base > words {
            return Err(BitSpanError::InsufficientBuffer { required, available: 0 });
        }
        let available = words - base;
        if required > available as u64 {
            return Err(BitSpanError::InsufficientBuffer { required, available });
        }
        if bits > MAX_BITS as u64 {
            return Err(BitSpanError::LengthOverflow { bits });
        }
        Ok(BitSpan { base, head: head.index, bits: bits as usize, marker: PhantomData })
    }

    /// The position, in the word sequence, of the word that holds the first
    /// bit.
    pub fn base(&self) -> (base: usize)
        ensures
            base == self.spec_base(),
    {
        self.base
    }

    /// The index of the first bit, with the width of the span's words.
    pub fn head(&self) -> (head: BitIdx)
        ensures
            head == (BitIdx { width: T::spec_bits(), index: self.spec_head() }),
            head.valid(),
    {
        proof {
            use_type_invariant(self);
            T::lemma_bits();
        }
        BitIdx { width: T::bits(), index: self.head }
    }

    /// The number of bits.
    pub fn len(&self) -> (bits: usize)
        ensures
            bits == self.spec_len(),
            bits <= MAX_BITS,
    {
        proof {
            use_type_invariant(self);
        }
        self.bits
    }

    /// The number of words that the span covers.
    pub fn elements(&self) -> (count: usize)
        ensures
            count == self.spec_elements(),
    {
        proof {
            use_type_invariant(self);
            T::lemma_bits();
        }
        count_words(self.head, self.bits as u64, T::bits()) as usize
    }

    /// The part of the span from bit `start` up to, and without, bit `end`,
    /// or nothing where the span has no such part.
    pub fn narrow(&self, start: usize, end: usize) -> (r: Option<Self>)
        ensures
            r is Some <==> start <= end <= self.spec_len(),
            r matches Some(part) ==> {
                &&& part.wf()
                &&& part.spec_len() == end - start
                &&& part.spec_base() + part.spec_elements() <= self.spec_base()
                    + self.spec_elements()
                &&& forall|i: int|
                    0 <= i < end - start ==> #[trigger] part.spec_word_of(i) == self.spec_word_of(
                        start + i,
                    )
                &&& forall|i: int|
                    0 <= i < end - start ==> #[trigger] part.spec_pos_of(i) == self.spec_pos_of(
                        start + i,
                    )
            },
    {
        proof {
            use_type_invariant(self);
            T::lemma_bits();
        }
        if start > end || end > self.bits {
            return None;
        }
        let width = T::bits() as usize;
        let offset = self.head as usize + start;
        let skipped = offset / width;
        let head = (offset % width) as u8;
        proof {
            lemma_narrow(
                self.head as int,
                self.bits as int,
                width as int,
                start as int,
                end as int,
            );
        }
        let part = BitSpan {
            base: self.base + skipped,
            head,
            bits: end - start,
            marker: PhantomData,
        };
        proof {
            assert forall|i: int| 0 <= i < end - start implies #[trigger] part.spec_word_of(i)
                == self.spec_word_of(start + i) by {
                lemma_narrow_bit(self.head as int, width as int, start as int, i);
            }
            assert forall|i: int| 0 <= i < end - start implies #[trigger] part.spec_pos_of(i)
                == self.spec_pos_of(start + i) by {
                lemma_narrow_bit(self.head as int, width as int, start as int, i);
            }
        }
        Some(part)
    }

    /// Where bit `i` of the span lives: the position of its word in the word
    /// sequence, and its position inside that word. Nothing where the span
    /// has no such bit.
    pub fn locate(&self, i: usize) -> (r: Option<(usize, u8)>)
        ensures
            r is Some <==> i < self.spec_len(),
            r matches Some(place) ==> {
                &&& place.0 == self.spec_word_of(i as int)
                &&& place.1 == self.spec_pos_of(i as int)
                &&& self.spec_base() <= place.0 < self.spec_base() + self.spec_elements()
                &&& place.1 < T::spec_bits()
            },
    {
        proof {
            use_type_invariant(self);
            T::lemma_bits();
        }
        if i >= self.bits {
            return None;
        }
        let width = T::bits();
        let offset = self.head as usize + i;
        let word = offset / (width as usize);
        let index = (offset % (width as usize)) as u8;
        proof {
            lemma_word_in_span(self.head as int, self.bits as int, width as int, i as int);
            O::lemma_at_in_range(index, width);
        }
        Some((self.base + word, O::at(index, width)))
    }
}

/// Counts the words of `width` bits that `bits` bits occupy from index `head`
/// of the first word on. There is no count where the width is not a
/// supported one or the head lies outside a word.
pub fn words_for(head: u8, bits: u64, width: u8) -> (count: Option<u64>)
    ensures
        count == if supported_width(width) && head < width {
            Some(required_words(head as int, bits as int, width as int) as u64)
        } else {
            None
        },
        count matches Some(n) ==> n == required_words(head as int, bits as int, width as int) && n
            <= bits / 8 + 2,
{
    if (width == 8 || width == 16 || width == 32 || width == 64) && head < width {
        Some(count_words(head, bits, width))
    } else {
        None
    }
}

/// The count of [`words_for`], where there is one.
fn count_words(head: u8, bits: u64, width: u8) -> (count: u64)
    requires
        supported_width(width),
        head < width,
    ensures
        count == required_words(head as int, bits as int, width as int),
        count <= bits / 8 + 2,
{
    let w = width as u64;
    proof {
        lemma_count_split(head as int, bits as int, width as int);
    }
    bits / w + (bits % w + head as u64 + w - 1) / w
}

/// The word count, taken apart so that no step of it leaves 64 bits.
proof fn lemma_count_split(head: int, bits: int, width: int)
    requires
        width == 8 || width == 16 || width == 32 || width == 64,
        0 <= head < width,
        0 <= bits,
    ensures
        required_words(head, bits, width) == bits / width + (bits % width + head + width - 1)
            / width,
        0 <= bits / width <= bits / 8,
        0 <= bits % width < width,
        0 <= (bits % width + head + width - 1) / width <= 2,
{
    if width == 8 {
        assert((head + bits + 7) / 8 == bits / 8 + (bits % 8 + head + 7) / 8);
    } else if width == 16 {
        assert((head + bits + 15) / 16 == bits / 16 + (bits % 16 + head + 15) / 16);
        assert(bits / 16 <= bits / 8);
    } else if width == 32 {
        assert((head + bits + 31) / 32 == bits / 32 + (bits % 32 + head + 31) / 32);
        assert(bits / 32 <= bits / 8);
    } else {
        assert((head + bits + 63) / 64 == bits / 64 + (bits % 64 + head + 63) / 64);
        assert(bits / 64 <= bits / 8);
    }
}

/// A part of a span covers no word that the span does not cover.
proof fn lemma_narrow(head: int, bits: int, width: int, start: int, end: int)
    requires
        width == 8 || width == 16 || width == 32 || width == 64,
        0 <= head < width,
        0 <= start <= end <= bits,
    ensures
        0 <= (head + start) % width < width,
        0 <= (head + start) / width,
        (head + start) / width + required_words((head + start) % width, end - start, width)
            <= required_words(head, bits, width),
{
    if width == 8 {
        assert((head + start) / 8 + ((head + start) % 8 + end - start + 7) / 8 <= (head + bits + 7)
            / 8);
    } else if width == 16 {
        assert((head + start) / 16 + ((head + start) % 16 + end - start + 15) / 16 <= (head + bits
            + 15) / 16);
    } else if width == 32 {
        assert((head + start) / 32 + ((head + start) % 32 + end - start + 31) / 32 <= (head + bits
            + 31) / 32);
    } else {
        assert((head + start) / 64 + ((head + start) % 64 + end - start + 63) / 64 <= (head + bits
            + 63) / 64);
    }
}

/// Bit `i` of the part that starts at bit `start` is bit `start + i` of the
/// whole.
proof fn lemma_narrow_bit(head: int, width: int, start: int, i: int)
    requires
        width == 8 || width == 16 || width == 32 || width == 64,
        0 <= head < width,
        0 <= start,
        0 <= i,
    ensures
        (head + start) / width + ((head + start) % width + i) / width == (head + start + i)
            / width,
        ((head + start) % width + i) % width == (head + start + i) % width,
{
    if width == 8 {
        assert((head + start) / 8 + ((head + start) % 8 + i) / 8 == (head + start + i) / 8);
    } else if width == 16 {
        assert((head + start) / 16 + ((head + start) % 16 + i) / 16 == (head + start + i) / 16);
    } else if width == 32 {
        assert((head + start) / 32 + ((head + start) % 32 + i) / 32 == (head + start + i) / 32);
    } else {
        assert((head + start) / 64 + ((head + start) % 64 + i) / 64 == (head + start + i) / 64);
    }
}

/// Bit `i` of a span lives in one of the words that the span covers.
pub proof fn lemma_word_in_span(head: int, bits: int, width: int, i: int)
    requires
        width == 8 || width == 16 || width == 32 || width == 64,
        0 <= head < width,
        0 <= i < bits,
    ensures
        0 <= (head + i) / width < required_words(head, bits, width),
        0 <= (head + i) % width < width,
{
    if width == 8 {
        assert((head + i) / 8 < (head + bits + 7) / 8);
    } else if width == 16 {
        assert((head + i) / 16 < (head + bits + 15) / 16);
    } else if width == 32 {
        assert((head + i) / 32 < (head + bits + 31) / 32);
    } else {
        assert((head + i) / 64 < (head + bits + 63) / 64);
    }
}

} // verus!
