//! Encoding and decoding of bit slices, bit vectors and boxed bit slices.

use vstd::prelude::*;
use crate::boxed::BitBox;
use crate::index::BitIdx;
use crate::order::BitOrder;
use crate::serdes::error::DecodeError;
use crate::serdes::error::DecodeErrorView;
use crate::serdes::visitor::expecting_text;
use crate::serdes::visitor::BitSeqVisitor;
use crate::serdes::visitor::Slots;
use crate::serdes::wire::BitSeq;
use crate::serdes::wire::BitSeqView;
use crate::serdes::wire::Input;
use crate::serdes::wire::InputView;
use crate::serdes::wire::PartsView;
use crate::slice::region_bits;
use crate::slice::BitSlice;
use crate::span::required_words;
use crate::span::BitSpan;
use crate::store::BitStore;
use crate::vec::BitVec;

verus! {

/// What is written for the run of `len` bits that starts in word `base` of
/// `words`, at index `head`: the name of `O`, the head with the width of
/// `T`, the length, and the words that the run covers.
pub open spec fn encoding<T: BitStore, O: BitOrder>(
    words: Seq<T>,
    base: int,
    head: u8,
    len: usize,
) -> BitSeqView<Seq<T>> {
    BitSeqView {
        order: O::spec_name(),
        head: BitIdx { width: T::spec_bits(), index: head },
        bits: len as u64,
        data: words.subrange(
            base,
            base + required_words(head as int, len as int, T::spec_bits() as int),
        ),
    }
}

/// What comes out of `input` for words of type `T` ordered by `O`: the fields
/// that the protocol and the assembly give, where head, length and words go
/// together as a span that starts in the first word; else the first failure.
pub open spec fn decode<T: BitStore, O: BitOrder>(input: InputView<Seq<T>>) -> Result<
    PartsView<Seq<T>>,
    DecodeErrorView,
> {
    match Slots::<Seq<T>>::empty().visit(
        input,
        O::spec_name(),
        expecting_text(T::spec_bits(), O::spec_name()),
    ) {
        Err(error) => Err(error),
        Ok(parts) => match BitSpan::<T, O>::check(0, parts.head, parts.bits, parts.data.len() as int) {
            Some(error) => Err(DecodeErrorView::Span(error)),
            None => Ok(parts),
        },
    }
}

/// The bits that decoded fields stand for.
pub open spec fn decoded_bits<T: BitStore, O: BitOrder>(parts: PartsView<Seq<T>>) -> Seq<bool> {
    region_bits::<T, O>(parts.data, 0, parts.head.index as int, parts.bits as int)
}

impl<'a, T: BitStore, O: BitOrder> BitSlice<'a, T, O> {
    /// What is written for this view.
    pub open spec fn spec_serialize(&self) -> BitSeqView<Seq<T>> {
        encoding::<T, O>(
            self.spec_words(),
            self.spec_span().spec_base() as int,
            self.spec_head(),
            self.spec_len(),
        )
    }

    /// Encodes the view: the four fields, with the words that hold the bits
    /// borrowed as they are.
    pub fn serialize(&self) -> (record: BitSeq<&'a [T]>)
        ensures
            record@ == self.spec_serialize(),
    {
        BitSeq {
            order: String::from_str(O::name()),
            head: self.head(),
            bits: self.len() as u64,
            data: self.domain(),
        }
    }
}

impl<'de, O: BitOrder> BitSlice<'de, u8, O> {
    /// Decodes a view that borrows the bytes of the data as its words. There
    /// is no such decoding for words of another width.
    pub fn deserialize(input: Input<&'de [u8]>) -> (r: Result<Self, DecodeError>)
        ensures
            match decode::<u8, O>(input@) {
                Err(error) => r matches Err(e) && e@ == error,
                Ok(parts) => {
                    &&& r matches Ok(v)
                    &&& v.wf()
                    &&& v.spec_words() == parts.data
                    &&& v.spec_span().spec_base() == 0
                    &&& v.spec_head() == parts.head.index
                    &&& v.spec_len() == parts.bits
                    &&& v@ == decoded_bits::<u8, O>(parts)
                },
            },
    {
        let visitor = BitSeqVisitor::<u8, O, &'de [u8]>::new();
        let parts = match visitor.visit(input) {
            Ok(parts) => parts,
            Err(error) => {
                return Err(error);
            },
        };
        match BitSlice::new(parts.data, 0, parts.head, parts.bits) {
            Ok(slice) => Ok(slice),
            Err(error) => Err(DecodeError::Span(error)),
        }
    }
}

impl<T: BitStore, O: BitOrder> BitVec<T, O> {
    /// What is written for this bit vector.
    pub open spec fn spec_serialize(&self) -> BitSeqView<Seq<T>> {
        encoding::<T, O>(self.spec_words(), 0, self.spec_head(), self.spec_len())
    }

    /// Encodes the bit vector, as the view of its bits is encoded.
    pub fn serialize(&self) -> (record: BitSeq<&[T]>)
        ensures
            record@ == self.spec_serialize(),
    {
        self.as_bitslice().serialize()
    }

    /// Decodes a bit vector that takes over the words of the data.
    pub fn deserialize(input: Input<Vec<T>>) -> (r: Result<Self, DecodeError>)
        ensures
            match decode::<T, O>(input@) {
                Err(error) => r matches Err(e) && e@ == error,
                Ok(parts) => {
                    &&& r matches Ok(v)
                    &&& v.wf()
                    &&& v.spec_words() == parts.data
                    &&& v.spec_head() == parts.head.index
                    &&& v.spec_len() == parts.bits
                    &&& v@ == decoded_bits::<T, O>(parts)
                },
            },
    {
        let visitor = BitSeqVisitor::<T, O, Vec<T>>::new();
        let parts = match visitor.visit(input) {
            Ok(parts) => parts,
            Err(error) => {
                return Err(error);
            },
        };
        match BitVec::new(parts.data, parts.head, parts.bits) {
            Ok(bits) => Ok(bits),
            Err(error) => Err(DecodeError::Span(error)),
        }
    }
}

impl<T: BitStore, O: BitOrder> BitBox<T, O> {
    /// Encodes the boxed bits, as the view of them is encoded.
    pub fn serialize(&self) -> (record: BitSeq<&[T]>)
        ensures
            record@ == self.spec_bitvec().spec_serialize(),
    {
        self.as_bitslice().serialize()
    }

    /// Decodes a bit vector and boxes it.
    pub fn deserialize(input: Input<Vec<T>>) -> (r: Result<Self, DecodeError>)
        ensures
            match decode::<T, O>(input@) {
                Err(error) => r matches Err(e) && e@ == error,
                Ok(parts) => {
                    &&& r matches Ok(b)
                    &&& b.spec_bitvec().wf()
                    &&& b.spec_bitvec().spec_words() == parts.data
                    &&& b.spec_bitvec().spec_head() == parts.head.index
                    &&& b.spec_bitvec().spec_len() == parts.bits
                    &&& b@ == decoded_bits::<T, O>(parts)
                },
            },
    {
        match BitVec::deserialize(input) {
            Ok(bits) => Ok(bits.into_boxed_bitslice()),
            Err(error) => Err(error),
        }
    }
}

} // verus!
