//! What holds of encoding and decoding, whatever the data.

use vstd::prelude::*;
use crate::index::BitIdx;
use crate::order::BitOrder;
use crate::serdes::error::DecodeErrorView;
use crate::serdes::field::field_names;
use crate::serdes::field::lemma_field_names;
use crate::serdes::field::Field;
use crate::serdes::slice::decode;
use crate::serdes::slice::decoded_bits;
use crate::serdes::slice::encoding;
use crate::serdes::text::unknown_field_text;
use crate::serdes::visitor::expecting_text;
use crate::serdes::visitor::lemma_keyed_stops;
use crate::serdes::visitor::Slots;
use crate::serdes::wire::BitSeqView;
use crate::serdes::wire::InputView;
use crate::serdes::wire::PartsView;
use crate::serdes::wire::ValueView;
use crate::slice::lemma_region_bits_of_domain;
use crate::slice::region_bits;
use crate::slice::BitSlice;
use crate::span::required_words;
use crate::span::MAX_BITS;
use crate::span::BitSpanError;
use crate::store::BitStore;
use crate::vec::BitVec;

verus! {

/// A record, in either protocol, fills the four slots with its four fields.
pub proof fn lemma_record_fills_slots<W>(record: BitSeqView<W>, expected: Seq<char>)
    ensures
        Slots::<W>::empty().take_in(InputView::Positional(record.values()), expected) == Ok::<
            Slots<W>,
            DecodeErrorView,
        >(
            Slots {
                order: Some(record.order),
                head: Some(record.head),
                bits: Some(record.bits),
                data: Some(record.data),
            },
        ),
        Slots::<W>::empty().take_in(InputView::Keyed(record.entries()), expected) == Ok::<
            Slots<W>,
            DecodeErrorView,
        >(
            Slots {
                order: Some(record.order),
                head: Some(record.head),
                bits: Some(record.bits),
                data: Some(record.data),
            },
        ),
{
    let start = Slots::<W>::empty();
    let values = record.values();
    assert(start.positional(values, 0, expected) == Ok::<Slots<W>, DecodeErrorView>(start));
    let one = Slots::<W> { order: Some(record.order), ..start };
    assert(start.positional(values, 1, expected) == Ok::<Slots<W>, DecodeErrorView>(one));
    let two = Slots::<W> { head: Some(record.head), ..one };
    assert(start.positional(values, 2, expected) == Ok::<Slots<W>, DecodeErrorView>(two));
    let three = Slots::<W> { bits: Some(record.bits), ..two };
    assert(start.positional(values, 3, expected) == Ok::<Slots<W>, DecodeErrorView>(three));
    let four = Slots::<W> { data: Some(record.data), ..three };
    assert(start.positional(values, 4, expected) == Ok::<Slots<W>, DecodeErrorView>(four));

    lemma_field_names(Field::Order);
    lemma_field_names(Field::Head);
    lemma_field_names(Field::Bits);
    lemma_field_names(Field::Data);
    let entries = record.entries();
    assert(entries.take(0).len() == 0);
    assert(start.keyed(entries.take(0)) == Ok::<Slots<W>, DecodeErrorView>(start));
    assert(entries.take(1).drop_last() == entries.take(0));
    assert(start.keyed(entries.take(1)) == Ok::<Slots<W>, DecodeErrorView>(one));
    assert(entries.take(2).drop_last() == entries.take(1));
    assert(start.keyed(entries.take(2)) == Ok::<Slots<W>, DecodeErrorView>(two));
    assert(entries.take(3).drop_last() == entries.take(2));
    assert(start.keyed(entries.take(3)) == Ok::<Slots<W>, DecodeErrorView>(three));
    assert(entries.take(4).drop_last() == entries.take(3));
    assert(start.keyed(entries.take(4)) == Ok::<Slots<W>, DecodeErrorView>(four));
    assert(entries.take(4) == entries);
}

/// Decoding gives back what was encoded.
///
/// Whatever the word type, the ordering, the head and the length of a run of
/// bits that lies inside its words: what is written for it, read back in
/// either protocol, is accepted, and comes out with the same head, the same
/// length and the same bits.
pub proof fn lemma_roundtrip<T: BitStore, O: BitOrder>(
    words: Seq<T>,
    base: int,
    head: u8,
    len: usize,
)
    requires
        0 <= base,
        head < T::spec_bits(),
        len <= MAX_BITS,
        base + required_words(head as int, len as int, T::spec_bits() as int) <= words.len(),
    ensures
        ({
            let record = encoding::<T, O>(words, base, head, len);
            let parts = PartsView { head: record.head, bits: record.bits, data: record.data };
            &&& decode::<T, O>(InputView::Positional(record.values())) == Ok::<
                PartsView<Seq<T>>,
                DecodeErrorView,
            >(parts)
            &&& decode::<T, O>(InputView::Keyed(record.entries())) == Ok::<
                PartsView<Seq<T>>,
                DecodeErrorView,
            >(parts)
            &&& parts.head == (BitIdx { width: T::spec_bits(), index: head })
            &&& parts.bits == len
            &&& decoded_bits::<T, O>(parts) == region_bits::<T, O>(
                words,
                base,
                head as int,
                len as int,
            )
        }),
{
    let record = encoding::<T, O>(words, base, head, len);
    lemma_record_fills_slots(record, expecting_text(T::spec_bits(), O::spec_name()));
    lemma_region_bits_of_domain::<T, O>(words, base, head as int, len as int);
}

/// A bit slice comes back from its encoding as it was: the same head, the
/// same length, the same bits, in the words that held them.
pub proof fn lemma_roundtrip_slice<'a, T: BitStore, O: BitOrder>(view: BitSlice<'a, T, O>)
    requires
        view.wf(),
    ensures
        ({
            let record = view.spec_serialize();
            let parts = PartsView { head: record.head, bits: record.bits, data: record.data };
            &&& decode::<T, O>(InputView::Positional(record.values())) == Ok::<
                PartsView<Seq<T>>,
                DecodeErrorView,
            >(parts)
            &&& decode::<T, O>(InputView::Keyed(record.entries())) == Ok::<
                PartsView<Seq<T>>,
                DecodeErrorView,
            >(parts)
            &&& parts.head.index == view.spec_head()
            &&& parts.head.width == T::spec_bits()
            &&& parts.bits == view.spec_len()
            &&& parts.data == view.spec_domain()
            &&& decoded_bits::<T, O>(parts) == view@
        }),
{
    lemma_roundtrip::<T, O>(
        view.spec_words(),
        view.spec_span().spec_base() as int,
        view.spec_head(),
        view.spec_len(),
    );
}

/// A bit vector comes back from its encoding as it was: the same head, the
/// same length, the same bits.
pub proof fn lemma_roundtrip_vec<T: BitStore, O: BitOrder>(bits: BitVec<T, O>)
    requires
        bits.wf(),
    ensures
        ({
            let record = bits.spec_serialize();
            let parts = PartsView { head: record.head, bits: record.bits, data: record.data };
            &&& decode::<T, O>(InputView::Positional(record.values())) == Ok::<
                PartsView<Seq<T>>,
                DecodeErrorView,
            >(parts)
            &&& decode::<T, O>(InputView::Keyed(record.entries())) == Ok::<
                PartsView<Seq<T>>,
                DecodeErrorView,
            >(parts)
            &&& parts.head.index == bits.spec_head()
            &&& parts.head.width == T::spec_bits()
            &&& parts.bits == bits.spec_len()
            &&& decoded_bits::<T, O>(parts) == bits@
        }),
{
    lemma_roundtrip::<T, O>(bits.spec_words(), 0, bits.spec_head(), bits.spec_len());
}

/// Data of another ordering is refused as such.
///
/// Where the protocol fills every slot and the ordering recorded is not the
/// one that `O` names, decoding fails with the name found and the decoder's
/// description of itself, whatever the other fields hold.
pub proof fn lemma_order_enforced<T: BitStore, O: BitOrder>(
    input: InputView<Seq<T>>,
    slots: Slots<Seq<T>>,
)
    requires
        Slots::<Seq<T>>::empty().take_in(input, expecting_text(T::spec_bits(), O::spec_name()))
            == Ok::<Slots<Seq<T>>, DecodeErrorView>(slots),
        slots.first_missing() is None,
        slots.order != Some(O::spec_name()),
    ensures
        decode::<T, O>(input) == Err::<PartsView<Seq<T>>, DecodeErrorView>(
            DecodeErrorView::InvalidOrder {
                found: slots.order->Some_0,
                expected: expecting_text(T::spec_bits(), O::spec_name()),
            },
        ),
{
}

/// What is written under one ordering is refused under any ordering of
/// another name, in either protocol.
pub proof fn lemma_orders_do_not_mix<'a, T: BitStore, P: BitOrder, Q: BitOrder>(
    view: BitSlice<'a, T, P>,
)
    requires
        P::spec_name() != Q::spec_name(),
    ensures
        ({
            let record = view.spec_serialize();
            let error = DecodeErrorView::InvalidOrder {
                found: P::spec_name(),
                expected: expecting_text(T::spec_bits(), Q::spec_name()),
            };
            &&& decode::<T, Q>(InputView::Positional(record.values())) == Err::<
                PartsView<Seq<T>>,
                DecodeErrorView,
            >(error)
            &&& decode::<T, Q>(InputView::Keyed(record.entries())) == Err::<
                PartsView<Seq<T>>,
                DecodeErrorView,
            >(error)
        }),
{
    let record = view.spec_serialize();
    lemma_record_fills_slots(record, expecting_text(T::spec_bits(), Q::spec_name()));
}

/// Whether one of the keys is the name of `field`.
pub open spec fn names_field<W>(entries: Seq<(Seq<char>, ValueView<W>)>, field: Field) -> bool {
    exists|i: int| 0 <= i < entries.len() && (#[trigger] entries[i]).0 == field.spec_name()
}

/// Keyed data that is taken in whole fills the slots of the fields that its
/// keys name, and no others.
pub proof fn lemma_keyed_fills<W>(
    start: Slots<W>,
    entries: Seq<(Seq<char>, ValueView<W>)>,
    field: Field,
)
    requires
        start.keyed(entries) is Ok,
    ensures
        start.keyed(entries)->Ok_0.filled(field) <==> (start.filled(field) || names_field(
            entries,
            field,
        )),
    decreases entries.len(),
{
    lemma_field_names(Field::Order);
    lemma_field_names(Field::Head);
    lemma_field_names(Field::Bits);
    lemma_field_names(Field::Data);
    if entries.len() > 0 {
        let front = entries.drop_last();
        let last = entries.last();
        lemma_keyed_fills(start, front, field);
        let before = start.keyed(front)->Ok_0;
        let named = Field::spec_from_key(last.0)->Some_0;
        assert(last.0 == named.spec_name());
        if names_field(entries, field) {
            let i = choose|i: int|
                0 <= i < entries.len() && (#[trigger] entries[i]).0 == field.spec_name();
            if i < front.len() {
                assert(front[i].0 == field.spec_name());
            } else {
                assert(named == field);
            }
        }
        if before.filled(field) && !start.filled(field) {
            let i = choose|i: int|
                0 <= i < front.len() && (#[trigger] front[i]).0 == field.spec_name();
            assert(entries[i].0 == field.spec_name());
        }
        if named == field {
            assert(entries[entries.len() - 1].0 == field.spec_name());
        }
    }
}

/// A field left out of keyed data is reported, by its name.
///
/// Where nothing else is wrong with the entries, no key is the field's name
/// and every other field's name is a key, decoding fails for want of that
/// field.
pub proof fn lemma_missing_field<W>(
    entries: Seq<(Seq<char>, ValueView<W>)>,
    field: Field,
    order: Seq<char>,
    expected: Seq<char>,
)
    requires
        Slots::<W>::empty().keyed(entries) is Ok,
        !names_field(entries, field),
        forall|other: Field| other != field ==> #[trigger] names_field(entries, other),
    ensures
        Slots::<W>::empty().visit(InputView::Keyed(entries), order, expected) == Err::<
            PartsView<W>,
            DecodeErrorView,
        >(DecodeErrorView::MissingField(field)),
{
    let start = Slots::<W>::empty();
    assert(field == Field::Order || names_field(entries, Field::Order));
    assert(field == Field::Head || names_field(entries, Field::Head));
    assert(field == Field::Bits || names_field(entries, Field::Bits));
    assert(field == Field::Data || names_field(entries, Field::Data));
    lemma_keyed_fills(start, entries, Field::Order);
    lemma_keyed_fills(start, entries, Field::Head);
    lemma_keyed_fills(start, entries, Field::Bits);
    lemma_keyed_fills(start, entries, Field::Data);
}

/// A second value for a field is reported, by the field's name, whatever the
/// two values are.
///
/// Where nothing is wrong with the entries before the second one, and the
/// second value has the field's shape, decoding fails at it.
pub proof fn lemma_duplicate_field<W>(
    entries: Seq<(Seq<char>, ValueView<W>)>,
    first: int,
    second: int,
    field: Field,
    order: Seq<char>,
    expected: Seq<char>,
)
    requires
        0 <= first < second < entries.len(),
        Slots::<W>::empty().keyed(entries.take(second)) is Ok,
        entries[first].0 == field.spec_name(),
        entries[second].0 == field.spec_name(),
        entries[second].1.fits(field),
    ensures
        Slots::<W>::empty().visit(InputView::Keyed(entries), order, expected) == Err::<
            PartsView<W>,
            DecodeErrorView,
        >(DecodeErrorView::DuplicateField(field)),
{
    let start = Slots::<W>::empty();
    let front = entries.take(second);
    lemma_field_names(field);
    lemma_keyed_fills(start, front, field);
    assert(front[first].0 == field.spec_name());
    assert(entries.take(second + 1).drop_last() == front);
    lemma_keyed_stops(start, entries, second + 1);
}

/// A key that names no field is reported, with the names of the four fields.
///
/// Where nothing is wrong with the entries before it, decoding fails at the
/// first such key.
pub proof fn lemma_unknown_field<W>(
    entries: Seq<(Seq<char>, ValueView<W>)>,
    at: int,
    order: Seq<char>,
    expected: Seq<char>,
)
    requires
        0 <= at < entries.len(),
        Slots::<W>::empty().keyed(entries.take(at)) is Ok,
        forall|field: Field| entries[at].0 != field.spec_name(),
    ensures
        Slots::<W>::empty().visit(InputView::Keyed(entries), order, expected) == Err::<
            PartsView<W>,
            DecodeErrorView,
        >(DecodeErrorView::UnknownField(entries[at].0)),
        DecodeErrorView::UnknownField(entries[at].0).text() == unknown_field_text(
            entries[at].0,
            seq!["order"@, "head"@, "bits"@, "data"@],
        ),
{
    let start = Slots::<W>::empty();
    assert(entries[at].0 != Field::Order.spec_name());
    assert(entries[at].0 != Field::Head.spec_name());
    assert(entries[at].0 != Field::Bits.spec_name());
    assert(entries[at].0 != Field::Data.spec_name());
    assert(entries.take(at + 1).drop_last() == entries.take(at));
    lemma_keyed_stops(start, entries, at + 1);
    assert(field_names() == seq!["order"@, "head"@, "bits"@, "data"@]);
}

/// Positional data that ends before the fourth value is reported, with the
/// place of the first value that is not there.
pub proof fn lemma_short_sequence<W>(
    values: Seq<ValueView<W>>,
    order: Seq<char>,
    expected: Seq<char>,
)
    requires
        values.len() < 4,
        forall|i: int| 0 <= i < values.len() ==> (#[trigger] values[i]).fits(crate::serdes::visitor::field_at(i)),
    ensures
        Slots::<W>::empty().visit(InputView::Positional(values), order, expected) == Err::<
            PartsView<W>,
            DecodeErrorView,
        >(DecodeErrorView::InvalidLength { len: values.len() as usize, expected }),
{
    let start = Slots::<W>::empty();
    reveal_with_fuel(Slots::positional, 5);
    if values.len() > 0 {
        assert(values[0].fits(crate::serdes::visitor::field_at(0)));
    }
    if values.len() > 1 {
        assert(values[1].fits(crate::serdes::visitor::field_at(1)));
    }
    if values.len() > 2 {
        assert(values[2].fits(crate::serdes::visitor::field_at(2)));
    }
}

/// Too few words for the bits are reported as such.
///
/// Where the fields come out of the protocol and the assembly, and the head
/// fits the words, a length that needs more words than the data holds makes
/// decoding fail for want of words.
pub proof fn lemma_capacity_enforced<T: BitStore, O: BitOrder>(
    input: InputView<Seq<T>>,
    parts: PartsView<Seq<T>>,
)
    requires
        Slots::<Seq<T>>::empty().visit(
            input,
            O::spec_name(),
            expecting_text(T::spec_bits(), O::spec_name()),
        ) == Ok::<PartsView<Seq<T>>, DecodeErrorView>(parts),
        parts.head.valid_for(T::spec_bits()),
        required_words(parts.head.index as int, parts.bits as int, T::spec_bits() as int)
            > parts.data.len(),
    ensures
        decode::<T, O>(input) == Err::<PartsView<Seq<T>>, DecodeErrorView>(
            DecodeErrorView::Span(
                BitSpanError::InsufficientBuffer {
                    required: required_words(
                        parts.head.index as int,
                        parts.bits as int,
                        T::spec_bits() as int,
                    ) as u64,
                    available: parts.data.len() as usize,
                },
            ),
        ),
{
}

} // verus!
