//! What travels: the values that a data format hands over, one by one, and
//! the record of four fields that they make up.

use vstd::prelude::*;
use vstd::slice::slice_to_vec;
use crate::index::BitIdx;
use crate::serdes::field::Field;

verus! {

/// One value as a data format hands it over. `D` is the type that the format
/// gives a sequence of words in: borrowed or owned.
#[derive(Clone, Debug, PartialEq, Eq)]
pub enum Value<D> {
    /// A text.
    Str(String),
    /// A bit index with its word width.
    Head(BitIdx),
    /// An unsigned number.
    U64(u64),
    /// A sequence of words.
    Words(D),
}

/// A [`Value`] as the mathematical value it stands for.
pub enum ValueView<W> {
    /// A text.
    Str(Seq<char>),
    /// A bit index with its word width.
    Head(BitIdx),
    /// An unsigned number.
    U64(u64),
    /// A sequence of words.
    Words(W),
}

/// The shape of a value found where another shape was called for.
#[derive(Clone, Debug, PartialEq, Eq)]
pub enum Unexpected {
    /// A text, which is kept.
    Str(String),
    /// An unsigned number, which is kept.
    Unsigned(u64),
    /// A keyed aggregate.
    Keyed,
    /// A sequence.
    Sequence,
}

/// An [`Unexpected`] as the mathematical value it stands for.
pub enum UnexpectedView {
    /// A text, which is kept.
    Str(Seq<char>),
    /// An unsigned number, which is kept.
    Unsigned(u64),
    /// A keyed aggregate.
    Keyed,
    /// A sequence.
    Sequence,
}

impl View for Unexpected {
    type V = UnexpectedView;

    open spec fn view(&self) -> UnexpectedView {
        match self {
            Unexpected::Str(text) => UnexpectedView::Str(text@),
            Unexpected::Unsigned(number) => UnexpectedView::Unsigned(*number),
            Unexpected::Keyed => UnexpectedView::Keyed,
            Unexpected::Sequence => UnexpectedView::Sequence,
        }
    }
}

impl<W> ValueView<W> {
    /// Whether the value has the shape that `field` holds.
    pub open spec fn fits(self, field: Field) -> bool {
        match field {
            Field::Order => self is Str,
            Field::Head => self is Head,
            Field::Bits => self is U64,
            Field::Data => self is Words,
        }
    }

    /// The value's shape, as a mismatch reports it.
    pub open spec fn unexpected(self) -> UnexpectedView {
        match self {
            ValueView::Str(text) => UnexpectedView::Str(text),
            ValueView::Head(_) => UnexpectedView::Keyed,
            ValueView::U64(number) => UnexpectedView::Unsigned(number),
            ValueView::Words(_) => UnexpectedView::Sequence,
        }
    }
}

impl<D: View> View for Value<D> {
    type V = ValueView<D::V>;

    open spec fn view(&self) -> ValueView<D::V> {
        match self {
            Value::Str(text) => ValueView::Str(text@),
            Value::Head(head) => ValueView::Head(*head),
            Value::U64(number) => ValueView::U64(*number),
            Value::Words(words) => ValueView::Words(words@),
        }
    }
}

impl<D: View> Value<D> {
    /// Whether the value has the shape that `field` holds.
    pub fn fits(&self, field: Field) -> (r: bool)
        ensures
            r == self@.fits(field),
    {
        match field {
            Field::Order => match self {
                Value::Str(_) => true,
                _ => false,
            },
            Field::Head => match self {
                Value::Head(_) => true,
                _ => false,
            },
            Field::Bits => match self {
                Value::U64(_) => true,
                _ => false,
            },
            Field::Data => match self {
                Value::Words(_) => true,
                _ => false,
            },
        }
    }

    /// The value's shape, as a mismatch reports it.
    pub fn unexpected(&self) -> (r: Unexpected)
        ensures
            r@ == self@.unexpected(),
    {
        match self {
            Value::Str(text) => Unexpected::Str(text.clone()),
            Value::Head(_) => Unexpected::Keyed,
            Value::U64(number) => Unexpected::Unsigned(*number),
            Value::Words(_) => Unexpected::Sequence,
        }
    }
}

/// The values of a sequence, each as the mathematical value it stands for.
pub open spec fn values_view<D: View>(values: Seq<Value<D>>) -> Seq<ValueView<D::V>> {
    values.map_values(|value: Value<D>| value@)
}

/// The entries of a keyed sequence, each as the key and the value it stands
/// for.
pub open spec fn entries_view<D: View>(entries: Seq<(String, Value<D>)>) -> Seq<
    (Seq<char>, ValueView<D::V>),
> {
    entries.map_values(|entry: (String, Value<D>)| (entry.0@, entry.1@))
}

/// What a data format hands over for one bit sequence.
#[derive(Clone, Debug, PartialEq, Eq)]
pub enum Input<D> {
    /// Values alone, told apart by their place.
    Positional(Vec<Value<D>>),
    /// Values under keys, in any order.
    Keyed(Vec<(String, Value<D>)>),
}

/// An [`Input`] as the mathematical value it stands for.
pub enum InputView<W> {
    /// Values alone, told apart by their place.
    Positional(Seq<ValueView<W>>),
    /// Values under keys, in any order.
    Keyed(Seq<(Seq<char>, ValueView<W>)>),
}

impl<D: View> View for Input<D> {
    type V = InputView<D::V>;

    open spec fn view(&self) -> InputView<D::V> {
        match self {
            Input::Positional(values) => InputView::Positional(values_view(values@)),
            Input::Keyed(entries) => InputView::Keyed(entries_view(entries@)),
        }
    }
}

/// The contents of the four fields, once all of them are there and the
/// ordering is the one called for. Nothing is known yet of how head, length
/// and words go together.
#[derive(Clone, Debug, PartialEq, Eq)]
pub struct Parts<D> {
    /// The index of the first bit in the first word.
    pub head: BitIdx,
    /// The number of bits.
    pub bits: u64,
    /// The words.
    pub data: D,
}

/// A [`Parts`] as the mathematical value it stands for.
pub struct PartsView<W> {
    /// The index of the first bit in the first word.
    pub head: BitIdx,
    /// The number of bits.
    pub bits: u64,
    /// The words.
    pub data: W,
}

impl<D: View> View for Parts<D> {
    type V = PartsView<D::V>;

    open spec fn view(&self) -> PartsView<D::V> {
        PartsView { head: self.head, bits: self.bits, data: self.data@ }
    }
}

/// An encoded bit sequence: the four fields, in the order in which they are
/// written.
#[derive(Clone, Debug, PartialEq, Eq)]
pub struct BitSeq<D> {
    /// The name of the bit ordering.
    pub order: String,
    /// The index of the first bit in the first word.
    pub head: BitIdx,
    /// The number of bits.
    pub bits: u64,
    /// The words that hold the bits, and no others.
    pub data: D,
}

/// A [`BitSeq`] as the mathematical value it stands for.
pub struct BitSeqView<W> {
    /// The name of the bit ordering.
    pub order: Seq<char>,
    /// The index of the first bit in the first word.
    pub head: BitIdx,
    /// The number of bits.
    pub bits: u64,
    /// The words that hold the bits, and no others.
    pub data: W,
}

impl<W> BitSeqView<W> {
    /// The record as positional data: the four values in the fields' order.
    pub open spec fn values(self) -> Seq<ValueView<W>> {
        seq![
            ValueView::Str(self.order),
            ValueView::Head(self.head),
            ValueView::U64(self.bits),
            ValueView::Words(self.data),
        ]
    }

    /// The record as keyed data: each value under its field's name, in the
    /// fields' order.
    pub open spec fn entries(self) -> Seq<(Seq<char>, ValueView<W>)> {
        seq![
            (Field::Order.spec_name(), ValueView::Str(self.order)),
            (Field::Head.spec_name(), ValueView::Head(self.head)),
            (Field::Bits.spec_name(), ValueView::U64(self.bits)),
            (Field::Data.spec_name(), ValueView::Words(self.data)),
        ]
    }
}

impl<D: View> View for BitSeq<D> {
    type V = BitSeqView<D::V>;

    open spec fn view(&self) -> BitSeqView<D::V> {
        BitSeqView { order: self.order@, head: self.head, bits: self.bits, data: self.data@ }
    }
}

impl<'a, T: Copy> BitSeq<&'a [T]> {
    /// The record with its words copied into a vector of their own.
    pub fn into_owned(self) -> (record: BitSeq<Vec<T>>)
        ensures
            record@ == self@,
    {
        BitSeq {
            order: self.order,
            head: self.head,
            bits: self.bits,
            data: slice_to_vec(self.data),
        }
    }
}

impl<D: View> BitSeq<D> {
    /// The record as positional data: the four values in the fields' order.
    pub fn into_seq(self) -> (values: Vec<Value<D>>)
        ensures
            values_view(values@) == self@.values(),
    {
        let mut values: Vec<Value<D>> = Vec::new();
        values.push(Value::Str(self.order));
        values.push(Value::Head(self.head));
        values.push(Value::U64(self.bits));
        values.push(Value::Words(self.data));
        proof {
            assert(values_view(values@) =~= self@.values());
        }
        values
    }

    /// The record as keyed data: each value under its field's name, in the
    /// fields' order.
    pub fn into_map(self) -> (entries: Vec<(String, Value<D>)>)
        ensures
            entries_view(entries@) == self@.entries(),
    {
        let mut entries: Vec<(String, Value<D>)> = Vec::new();
        entries.push((String::from_str(Field::Order.name()), Value::Str(self.order)));
        entries.push((String::from_str(Field::Head.name()), Value::Head(self.head)));
        entries.push((String::from_str(Field::Bits.name()), Value::U64(self.bits)));
        entries.push((String::from_str(Field::Data.name()), Value::Words(self.data)));
        proof {
            assert(entries_view(entries@) =~= self@.entries());
        }
        entries
    }
}

} // verus!
