//! Bit slices: borrowed views of a run of bits in a sequence of words.

use vstd::prelude::*;
use vstd::slice::slice_subrange;
use crate::index::BitIdx;
use crate::order::BitOrder;
use crate::span::BitSpan;
use crate::span::BitSpanError;
use crate::span::lemma_word_in_span;
use crate::span::required_words;
use crate::store::bit_of;
use crate::store::test_bit;
use crate::store::BitStore;

verus! {

/// The bits of the run of `len` bits that starts in word `base` of `words`,
/// at index `head` of that word, read under the ordering `O`.
pub open spec fn region_bits<T: BitStore, O: BitOrder>(
    words: Seq<T>,
    base: int,
    head: int,
    len: int,
) -> Seq<bool> {
    Seq::new(
        len as nat,
        |i: int|
            bit_of(
                words[base + (head + i) / (T::spec_bits() as int)].spec_load(),
                O::spec_at(((head + i) % (T::spec_bits() as int)) as u8, T::spec_bits()),
            ),
    )
}

/// A view of a run of bits in borrowed words of type `T`, ordered by `O`.
///
/// As a value it is the sequence of its bits: see [`BitSlice::view`].
#[derive(Debug)]
pub struct BitSlice<'a, T: BitStore, O: BitOrder> {
    words: &'a [T],
    span: BitSpan<T, O>,
}

impl<'a, T: BitStore, O: BitOrder> View for BitSlice<'a, T, O> {
    type V = Seq<bool>;

    open spec fn view(&self) -> Seq<bool> {
        region_bits::<T, O>(
            self.spec_words(),
            self.spec_span().spec_base() as int,
            self.spec_span().spec_head() as int,
            self.spec_span().spec_len() as int,
        )
    }
}

impl<'a, T: BitStore, O: BitOrder> BitSlice<'a, T, O> {
    /// The words that the view borrows: all of them, not only those that hold
    /// its bits.
    pub closed spec fn spec_words(&self) -> Seq<T> {
        self.words@
    }

    /// The span that places the bits in the words.
    pub closed spec fn spec_span(&self) -> BitSpan<T, O> {
        self.span
    }

    /// The index of the first bit inside its word.
    pub open spec fn spec_head(&self) -> u8 {
        self.spec_span().spec_head()
    }

    /// The number of bits.
    pub open spec fn spec_len(&self) -> usize {
        self.spec_span().spec_len()
    }

    /// The words that hold the bits, from the first to the last.
    pub open spec fn spec_domain(&self) -> Seq<T> {
        self.spec_words().subrange(
            self.spec_span().spec_base() as int,
            self.spec_span().spec_base() + self.spec_span().spec_elements(),
        )
    }

    /// What holds of every view: its span is a span, and lies inside the
    /// borrowed words.
    pub open spec fn wf(&self) -> bool {
        &&& self.spec_span().wf()
        &&& self.spec_span().fits(self.spec_words().len() as int)
    }

    #[verifier::type_invariant]
    spec fn inv(self) -> bool {
        self.wf()
    }

    /// Makes the view of the `bits` bits that start in word `base` of
    /// `words`, at index `head`, or says why there is none.
    pub fn new(words: &'a [T], base: usize, head: BitIdx, bits: u64) -> (r: Result<
        Self,
        BitSpanError,
    >)
        ensures
            match BitSpan::<T, O>::check(base as int, head, bits, words@.len() as int) {
                Some(e) => r matches Err(f) && f == e,
                None => {
                    &&& r matches Ok(v)
                    &&& v.wf()
                    &&& v.spec_words() == words@
                    &&& v.spec_span().spec_base() == base
                    &&& v.spec_head() == head.index
                    &&& v.spec_len() == bits
                },
            },
    {
        match BitSpan::new(base, head, bits, words.len()) {
            Ok(span) => Ok(BitSlice { words, span }),
            Err(e) => Err(e),
        }
    }

    /// The view of the bits that `span` places in `words`.
    pub(crate) fn from_parts(words: &'a [T], span: BitSpan<T, O>) -> (v: Self)
        requires
            span.wf(),
            span.fits(words@.len() as int),
        ensures
            v.wf(),
            v.spec_words() == words@,
            v.spec_span() == span,
    {
        BitSlice { words, span }
    }

    /// The span that places the bits in the words.
    pub fn span(&self) -> (span: BitSpan<T, O>)
        ensures
            span == self.spec_span(),
            span.wf(),
            span.fits(self.spec_words().len() as int),
    {
        proof {
            use_type_invariant(self);
        }
        self.span
    }

    /// The index of the first bit, with the width of the words.
    pub fn head(&self) -> (head: BitIdx)
        ensures
            head == (BitIdx { width: T::spec_bits(), index: self.spec_head() }),
            head.valid(),
    {
        self.span.head()
    }

    /// The number of bits.
    pub fn len(&self) -> (bits: usize)
        ensures
            bits == self.spec_len(),
            bits == self@.len(),
    {
        self.span.len()
    }

    /// Whether the view holds no bit.
    pub fn is_empty(&self) -> (r: bool)
        ensures
            r == (self@.len() == 0),
    {
        self.span.len() == 0
    }

    /// The words that hold the bits, from the first to the last.
    pub fn domain(&self) -> (words: &'a [T])
        ensures
            words@ == self.spec_domain(),
            words@.len() == self.spec_span().spec_elements(),
    {
        proof {
            use_type_invariant(self);
        }
        let base = self.span.base();
        let count = self.span.elements();
        slice_subrange(self.words, base, base + count)
    }

    /// Bit `i` of the view, or nothing where the view has no such bit.
    pub fn get(&self, i: usize) -> (r: Option<bool>)
        ensures
            r == if i < self@.len() {
                Some(self@[i as int])
            } else {
                None
            },
    {
        proof {
            use_type_invariant(self);
            T::lemma_bits();
        }
        let (word, pos) = match self.span.locate(i) {
            Some(place) => place,
            None => {
                return None;
            },
        };
        let value = self.words[word].load();
        Some(test_bit(value, pos))
    }

    /// The view of the bits from `start` up to, and without, `end`, or
    /// nothing where this view has no such bits.
    pub fn slice(&self, start: usize, end: usize) -> (r: Option<Self>)
        ensures
            r is Some <==> start <= end <= self@.len(),
            r matches Some(part) ==> {
                &&& part.wf()
                &&& part.spec_words() == self.spec_words()
                &&& part@ == self@.subrange(start as int, end as int)
            },
    {
        proof {
            use_type_invariant(self);
        }
        match self.span.narrow(start, end) {
            None => None,
            Some(span) => {
                let part = BitSlice { words: self.words, span };
                proof {
                    assert forall|i: int| 0 <= i < end - start implies #[trigger] part@[i]
                        == self@[start + i] by {
                        assert(span.spec_word_of(i) == self.span.spec_word_of(start + i));
                        assert(span.spec_pos_of(i) == self.span.spec_pos_of(start + i));
                    }
                    assert(part@ =~= self@.subrange(start as int, end as int));
                }
                Some(part)
            },
        }
    }

    /// The bits of the view, one `bool` each.
    pub fn to_bools(&self) -> (bools: Vec<bool>)
        ensures
            bools@ == self@,
    {
        let len = self.len();
        let mut bools: Vec<bool> = Vec::new();
        let mut i: usize = 0;
        while i < len
            invariant
                len == self@.len(),
                i <= len,
                bools@ == self@.subrange(0, i as int),
            decreases len - i,
        {
            let bit = self.get(i);
            bools.push(bit.unwrap());
            i = i + 1;
        }
        bools
    }

    /// Whether `other` holds the same bits in the same order, wherever and
    /// under whatever ordering each keeps them.
    pub fn same_bits<'b, U: BitStore, P: BitOrder>(&self, other: &BitSlice<'b, U, P>) -> (r: bool)
        ensures
            r == (self@ == other@),
    {
        let len = self.len();
        if len != other.len() {
            return false;
        }
        let mut i: usize = 0;
        while i < len
            invariant
                len == self@.len(),
                len == other@.len(),
                i <= len,
                self@.subrange(0, i as int) == other@.subrange(0, i as int),
            decreases len - i,
        {
            let a = self.get(i);
            let b = other.get(i);
            if a.unwrap() != b.unwrap() {
                proof {
                    assert(self@[i as int] != other@[i as int]);
                }
                return false;
            }
            proof {
                assert(self@.subrange(0, i + 1) == self@.subrange(0, i as int).push(self@[i as int]));
                assert(other@.subrange(0, i + 1) == other@.subrange(0, i as int).push(
                    other@[i as int],
                ));
            }
            i = i + 1;
        }
        proof {
            assert(self@ == self@.subrange(0, len as int));
            assert(other@ == other@.subrange(0, len as int));
        }
        true
    }
}

/// The words that hold a run of bits hold the same bits when taken alone.
///
/// A run that starts in word `base` of `words` reads the same in the words
/// from `base` on, counted from 0: only the words that the run covers matter.
pub proof fn lemma_region_bits_of_domain<T: BitStore, O: BitOrder>(
    words: Seq<T>,
    base: int,
    head: int,
    len: int,
)
    requires
        0 <= base,
        0 <= head < T::spec_bits(),
        0 <= len,
        base + required_words(head, len, T::spec_bits() as int) <= words.len(),
    ensures
        region_bits::<T, O>(
            words.subrange(base, base + required_words(head, len, T::spec_bits() as int)),
            0,
            head,
            len,
        ) == region_bits::<T, O>(words, base, head, len),
{
    T::lemma_bits();
    let width = T::spec_bits() as int;
    let count = required_words(head, len, width);
    let domain = words.subrange(base, base + count);
    assert forall|i: int| 0 <= i < len implies #[trigger] region_bits::<T, O>(domain, 0, head, len)[i]
        == region_bits::<T, O>(words, base, head, len)[i] by {
        lemma_word_in_span(head, len, width, i);
        assert(domain[(head + i) / width] == words[base + (head + i) / width]);
    }
    assert(region_bits::<T, O>(domain, 0, head, len) =~= region_bits::<T, O>(
        words,
        base,
        head,
        len,
    ));
}

} // verus!
