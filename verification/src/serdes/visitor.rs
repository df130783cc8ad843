//! The accumulator that takes in the four fields, in either protocol, and
//! the assembly that follows.

use vstd::prelude::*;
use core::marker::PhantomData;
use crate::index::BitIdx;
use crate::order::BitOrder;
use crate::serdes::error::DecodeError;
use crate::serdes::error::DecodeErrorView;
use crate::serdes::field::Field;
use crate::serdes::wire::entries_view;
use crate::serdes::wire::values_view;
use crate::serdes::wire::Input;
use crate::serdes::wire::InputView;
use crate::serdes::wire::Parts;
use crate::serdes::wire::PartsView;
use crate::serdes::wire::Value;
use crate::serdes::wire::ValueView;
use crate::store::BitStore;

verus! {

/// The digits of a word width.
pub open spec fn width_digits(width: u8) -> Seq<char> {
    if width == 8 {
        "8"@
    } else if width == 16 {
        "16"@
    } else if width == 32 {
        "32"@
    } else {
        "64"@
    }
}

/// What a decoder of words of `width` bits under the ordering named `order`
/// says that it expects.
pub open spec fn expecting_text(width: u8, order: Seq<char>) -> Seq<char> {
    "a `BitSlice<u"@ + width_digits(width) + ", "@ + order + ">`"@
}

/// The field at a place of positional data.
pub open spec fn field_at(position: int) -> Field {
    if position == 0 {
        Field::Order
    } else if position == 1 {
        Field::Head
    } else if position == 2 {
        Field::Bits
    } else {
        Field::Data
    }
}

/// The state of an accumulator: one slot for each field, empty or filled.
pub struct Slots<W> {
    /// The name of the bit ordering.
    pub order: Option<Seq<char>>,
    /// The index of the first bit in the first word.
    pub head: Option<BitIdx>,
    /// The number of bits.
    pub bits: Option<u64>,
    /// The words.
    pub data: Option<W>,
}

impl<W> Slots<W> {
    /// The state in which every slot is empty.
    pub open spec fn empty() -> Slots<W> {
        Slots { order: None, head: None, bits: None, data: None }
    }

    /// Whether the slot of `field` is filled.
    pub open spec fn filled(self, field: Field) -> bool {
        match field {
            Field::Order => self.order is Some,
            Field::Head => self.head is Some,
            Field::Bits => self.bits is Some,
            Field::Data => self.data is Some,
        }
    }

    /// The state with `value` in the slot of `field`, where the value has the
    /// field's shape.
    pub open spec fn with(self, field: Field, value: ValueView<W>) -> Slots<W> {
        match value {
            ValueView::Str(order) => Slots { order: Some(order), ..self },
            ValueView::Head(head) => Slots { head: Some(head), ..self },
            ValueView::U64(bits) => Slots { bits: Some(bits), ..self },
            ValueView::Words(data) => Slots { data: Some(data), ..self },
        }
    }

    /// One step: `value` comes in for `field`. A value of another shape than
    /// the field's is refused; then a value for a slot that is filled. Else
    /// the slot is filled, and nothing else changes.
    pub open spec fn put(self, field: Field, value: ValueView<W>) -> Result<
        Slots<W>,
        DecodeErrorView,
    > {
        if !value.fits(field) {
            Err(DecodeErrorView::InvalidType { field, found: value.unexpected() })
        } else if self.filled(field) {
            Err(DecodeErrorView::DuplicateField(field))
        } else {
            Ok(self.with(field, value))
        }
    }

    /// One step of the keyed protocol: `value` comes in under `key`. A key
    /// that names no field is refused; else the step is that of the field.
    pub open spec fn entry(self, key: Seq<char>, value: ValueView<W>) -> Result<
        Slots<W>,
        DecodeErrorView,
    > {
        match Field::spec_from_key(key) {
            None => Err(DecodeErrorView::UnknownField(key)),
            Some(field) => self.put(field, value),
        }
    }

    /// The keyed protocol: the entries come in one by one, and the first one
    /// that is refused ends it.
    pub open spec fn keyed(self, entries: Seq<(Seq<char>, ValueView<W>)>) -> Result<
        Slots<W>,
        DecodeErrorView,
    >
        decreases entries.len(),
    {
        if entries.len() == 0 {
            Ok(self)
        } else {
            match self.keyed(entries.drop_last()) {
                Err(error) => Err(error),
                Ok(slots) => slots.entry(entries.last().0, entries.last().1),
            }
        }
    }

    /// The positional protocol, as far as the first `count` places: the
    /// value at each place comes in for the field of that place, and the
    /// first place that holds no value, or one that is refused, ends it.
    /// Values past the places asked for are not looked at.
    pub open spec fn positional(
        self,
        values: Seq<ValueView<W>>,
        count: nat,
        expected: Seq<char>,
    ) -> Result<Slots<W>, DecodeErrorView>
        decreases count,
    {
        if count == 0 {
            Ok(self)
        } else {
            match self.positional(values, (count - 1) as nat, expected) {
                Err(error) => Err(error),
                Ok(slots) => if values.len() < count {
                    Err(DecodeErrorView::InvalidLength { len: (count - 1) as usize, expected })
                } else {
                    slots.put(field_at(count - 1), values[count - 1])
                },
            }
        }
    }

    /// The first field, in the fields' order, whose slot is empty.
    pub open spec fn first_missing(self) -> Option<Field> {
        if self.order is None {
            Some(Field::Order)
        } else if self.head is None {
            Some(Field::Head)
        } else if self.bits is None {
            Some(Field::Bits)
        } else if self.data is None {
            Some(Field::Data)
        } else {
            None
        }
    }

    /// The end of either protocol. An empty slot is reported, the first one
    /// in the fields' order; then an ordering that is not named `order`.
    /// Else the three other fields come out.
    pub open spec fn assemble(self, order: Seq<char>, expected: Seq<char>) -> Result<
        PartsView<W>,
        DecodeErrorView,
    > {
        match self.first_missing() {
            Some(field) => Err(DecodeErrorView::MissingField(field)),
            None => if self.order->Some_0 != order {
                Err(DecodeErrorView::InvalidOrder { found: self.order->Some_0, expected })
            } else {
                Ok(
                    PartsView {
                        head: self.head->Some_0,
                        bits: self.bits->Some_0,
                        data: self.data->Some_0,
                    },
                )
            },
        }
    }

    /// The protocol of a whole input, from this state on. `expected` is the
    /// decoder's description of itself, for the report of data that ends too
    /// soon.
    pub open spec fn take_in(self, input: InputView<W>, expected: Seq<char>) -> Result<
        Slots<W>,
        DecodeErrorView,
    > {
        match input {
            InputView::Positional(values) => self.positional(values, 4, expected),
            InputView::Keyed(entries) => self.keyed(entries),
        }
    }

    /// A whole input, from this state on: its protocol, then the assembly,
    /// for a decoder that expects the ordering named `order` and describes
    /// itself as `expected`.
    pub open spec fn visit(self, input: InputView<W>, order: Seq<char>, expected: Seq<char>) -> Result<
        PartsView<W>,
        DecodeErrorView,
    > {
        match self.take_in(input, expected) {
            Err(error) => Err(error),
            Ok(slots) => slots.assemble(order, expected),
        }
    }
}

/// A result with its value and its error as the mathematical values they
/// stand for.
pub open spec fn outcome<A: View>(r: Result<A, DecodeError>) -> Result<A::V, DecodeErrorView> {
    match r {
        Ok(value) => Ok(value@),
        Err(error) => Err(error@),
    }
}

/// The accumulator of one decoding of words of type `T` ordered by `O`,
/// handed over as `D`. It starts empty, takes in values in either protocol,
/// and is used up by the assembly.
pub struct BitSeqVisitor<T: BitStore, O: BitOrder, D> {
    order: Option<String>,
    head: Option<BitIdx>,
    bits: Option<u64>,
    data: Option<D>,
    marker: PhantomData<(T, O)>,
}

impl<T: BitStore, O: BitOrder, D: View> View for BitSeqVisitor<T, O, D> {
    type V = Slots<D::V>;

    closed spec fn view(&self) -> Slots<D::V> {
        Slots {
            order: match self.order {
                Some(order) => Some(order@),
                None => None,
            },
            head: self.head,
            bits: self.bits,
            data: match self.data {
                Some(data) => Some(data@),
                None => None,
            },
        }
    }
}

impl<T: BitStore, O: BitOrder, D: View> BitSeqVisitor<T, O, D> {
    /// What this decoder says that it expects.
    pub open spec fn spec_expecting() -> Seq<char> {
        expecting_text(T::spec_bits(), O::spec_name())
    }

    /// An accumulator with every slot empty.
    pub fn new() -> (visitor: Self)
        ensures
            visitor@ == Slots::<D::V>::empty(),
    {
        BitSeqVisitor { order: None, head: None, bits: None, data: None, marker: PhantomData }
    }

    /// What this decoder says that it expects: a bit slice, with the width of
    /// its words and the name of its ordering.
    pub fn expecting() -> (text: String)
        ensures
            text@ == Self::spec_expecting(),
    {
        proof {
            T::lemma_bits();
        }
        let width = T::bits();
        let digits = if width == 8 {
            "8"
        } else if width == 16 {
            "16"
        } else if width == 32 {
            "32"
        } else {
            "64"
        };
        let mut text = String::from_str("a `BitSlice<u");
        text.append(digits);
        text.append(", ");
        text.append(O::name());
        text.append(">`");
        text
    }

    /// One step: `value` comes in for `field`. On a refusal the accumulator
    /// stays as it was.
    pub fn put(&mut self, field: Field, value: Value<D>) -> (r: Result<(), DecodeError>)
        ensures
            match old(self)@.put(field, value@) {
                Ok(slots) => r is Ok && final(self)@ == slots,
                Err(error) => r matches Err(e) && e@ == error && final(self)@ == old(self)@,
            },
    {
        if !value.fits(field) {
            return Err(DecodeError::InvalidType { field, found: value.unexpected() });
        }
        match value {
            Value::Str(order) => {
                if self.order.is_some() {
                    return Err(DecodeError::DuplicateField(field));
                }
                self.order = Some(order);
            },
            Value::Head(head) => {
                if self.head.is_some() {
                    return Err(DecodeError::DuplicateField(field));
                }
                self.head = Some(head);
            },
            Value::U64(bits) => {
                if self.bits.is_some() {
                    return Err(DecodeError::DuplicateField(field));
                }
                self.bits = Some(bits);
            },
            Value::Words(data) => {
                if self.data.is_some() {
                    return Err(DecodeError::DuplicateField(field));
                }
                self.data = Some(data);
            },
        }
        Ok(())
    }

    /// One step of the keyed protocol: `value` comes in under `key`. On a
    /// refusal the accumulator stays as it was.
    pub fn visit_entry(&mut self, key: &str, value: Value<D>) -> (r: Result<(), DecodeError>)
        ensures
            match old(self)@.entry(key@, value@) {
                Ok(slots) => r is Ok && final(self)@ == slots,
                Err(error) => r matches Err(e) && e@ == error && final(self)@ == old(self)@,
            },
    {
        match Field::from_key(key) {
            None => Err(DecodeError::UnknownField(String::from_str(key))),
            Some(field) => self.put(field, value),
        }
    }

    /// The positional protocol and the assembly: the first four of `values`
    /// are taken for the four fields in their order.
    #[verifier::loop_isolation(false)]
    pub fn visit_seq(self, values: Vec<Value<D>>) -> (r: Result<Parts<D>, DecodeError>)
        ensures
            outcome(r) == self@.visit(
                InputView::Positional(values_view(values@)),
                O::spec_name(),
                Self::spec_expecting(),
            ),
    {
        let ghost start = self@;
        let ghost all = values_view(values@);
        let ghost expected = Self::spec_expecting();
        let mut visitor = self;
        let mut place: usize = 0;
        for value in it: values.into_iter()
            invariant
                values_view(it.seq()) == all,
                place == if it.index() < 4 {
                    it.index()
                } else {
                    4
                },
                start.positional(all, place as nat, expected) == Ok::<
                    Slots<D::V>,
                    DecodeErrorView,
                >(visitor@),
        {
            if place < 4 {
                let field = if place == 0 {
                    Field::Order
                } else if place == 1 {
                    Field::Head
                } else if place == 2 {
                    Field::Bits
                } else {
                    Field::Data
                };
                proof {
                    assert(all[place as int] == value@);
                }
                match visitor.put(field, value) {
                    Ok(()) => {},
                    Err(error) => {
                        proof {
                            lemma_positional_stops(start, all, place as nat + 1, expected);
                        }
                        return Err(error);
                    },
                }
                place = place + 1;
            }
        }
        if place < 4 {
            proof {
                lemma_positional_stops(start, all, place as nat + 1, expected);
            }
            return Err(DecodeError::InvalidLength { len: place, expected: Self::expecting() });
        }
        visitor.assemble()
    }

    /// The keyed protocol and the assembly: the entries are taken in the
    /// order in which they come.
    #[verifier::loop_isolation(false)]
    pub fn visit_map(self, entries: Vec<(String, Value<D>)>) -> (r: Result<Parts<D>, DecodeError>)
        ensures
            outcome(r) == self@.visit(
                InputView::Keyed(entries_view(entries@)),
                O::spec_name(),
                Self::spec_expecting(),
            ),
    {
        let ghost start = self@;
        let ghost all = entries_view(entries@);
        let mut visitor = self;
        for entry in it: entries.into_iter()
            invariant
                entries_view(it.seq()) == all,
                start.keyed(all.take(it.index())) == Ok::<Slots<D::V>, DecodeErrorView>(visitor@),
        {
            let ghost index = it.index();
            let (key, value) = entry;
            proof {
                assert(all.take(index + 1).drop_last() == all.take(index));
                assert(all[index] == (key@, value@));
            }
            match visitor.visit_entry(key.as_str(), value) {
                Ok(()) => {},
                Err(error) => {
                    proof {
                        lemma_keyed_stops(start, all, index + 1);
                    }
                    return Err(error);
                },
            }
        }
        proof {
            assert(all.take(all.len() as int) == all);
        }
        visitor.assemble()
    }

    /// A whole input: its protocol, then the assembly.
    pub fn visit(self, input: Input<D>) -> (r: Result<Parts<D>, DecodeError>)
        ensures
            outcome(r) == self@.visit(input@, O::spec_name(), Self::spec_expecting()),
    {
        match input {
            Input::Positional(values) => self.visit_seq(values),
            Input::Keyed(entries) => self.visit_map(entries),
        }
    }

    /// The end of either protocol: every slot must be filled, and the
    /// ordering must be the one that `O` names.
    pub fn assemble(self) -> (r: Result<Parts<D>, DecodeError>)
        ensures
            outcome(r) == self@.assemble(O::spec_name(), Self::spec_expecting()),
    {
        let BitSeqVisitor { order, head, bits, data, marker: _ } = self;
        let order = match order {
            Some(order) => order,
            None => {
                return Err(DecodeError::MissingField(Field::Order));
            },
        };
        let head = match head {
            Some(head) => head,
            None => {
                return Err(DecodeError::MissingField(Field::Head));
            },
        };
        let bits = match bits {
            Some(bits) => bits,
            None => {
                return Err(DecodeError::MissingField(Field::Bits));
            },
        };
        let data = match data {
            Some(data) => data,
            None => {
                return Err(DecodeError::MissingField(Field::Data));
            },
        };
        if order != String::from_str(O::name()) {
            return Err(DecodeError::InvalidOrder { found: order, expected: Self::expecting() });
        }
        Ok(Parts { head, bits, data })
    }
}

/// Once a prefix of keyed data is refused, the whole is refused the same way.
pub proof fn lemma_keyed_stops<W>(
    start: Slots<W>,
    entries: Seq<(Seq<char>, ValueView<W>)>,
    count: int,
)
    requires
        0 <= count <= entries.len(),
        start.keyed(entries.take(count)) is Err,
    ensures
        start.keyed(entries) == start.keyed(entries.take(count)),
    decreases entries.len() - count,
{
    if count < entries.len() {
        assert(entries.take(count + 1).drop_last() == entries.take(count));
        lemma_keyed_stops(start, entries, count + 1);
    } else {
        assert(entries.take(count) == entries);
    }
}

/// Once positional data is refused at some place, it is refused the same way
/// however many places are asked for after it.
pub proof fn lemma_positional_stops<W>(
    start: Slots<W>,
    values: Seq<ValueView<W>>,
    count: nat,
    expected: Seq<char>,
)
    requires
        count <= 4,
        start.positional(values, count, expected) is Err,
    ensures
        start.positional(values, 4, expected) == start.positional(values, count, expected),
    decreases 4 - count,
{
    if count < 4 {
        lemma_positional_stops(start, values, count + 1, expected);
    }
}

} // verus!
