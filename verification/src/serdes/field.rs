//! The four fields of an encoded bit sequence.

use vstd::prelude::*;

verus! {

/// The name under which a bit sequence is encoded.
pub const NAME: &'static str = "BitSeq";

/// The names of the fields, in the order in which they are written.
pub const FIELDS: [&'static str; 4] = ["order", "head", "bits", "data"];

/// One of the four fields of an encoded bit sequence.
#[derive(Clone, Copy, Debug, PartialEq, Eq, Structural)]
pub enum Field {
    /// The name of the bit ordering.
    Order,
    /// The index of the first bit in the first word.
    Head,
    /// The number of bits.
    Bits,
    /// The words that hold the bits.
    Data,
}

impl Field {
    /// The field's name in keyed data.
    pub open spec fn spec_name(self) -> Seq<char> {
        match self {
            Field::Order => "order"@,
            Field::Head => "head"@,
            Field::Bits => "bits"@,
            Field::Data => "data"@,
        }
    }

    /// The field's place in positional data, from 0.
    pub open spec fn spec_position(self) -> int {
        match self {
            Field::Order => 0,
            Field::Head => 1,
            Field::Bits => 2,
            Field::Data => 3,
        }
    }

    /// The field that keyed data names `key`, if that is a field's name.
    pub open spec fn spec_from_key(key: Seq<char>) -> Option<Field> {
        if key == "order"@ {
            Some(Field::Order)
        } else if key == "head"@ {
            Some(Field::Head)
        } else if key == "bits"@ {
            Some(Field::Bits)
        } else if key == "data"@ {
            Some(Field::Data)
        } else {
            None
        }
    }

    /// What a value of this field is, in the words that a type mismatch is
    /// reported with.
    pub open spec fn spec_expects(self) -> Seq<char> {
        match self {
            Field::Order => "a string"@,
            Field::Head => "struct BitIdx"@,
            Field::Bits => "u64"@,
            Field::Data => "a sequence"@,
        }
    }

    /// The field's name in keyed data.
    pub fn name(self) -> (name: &'static str)
        ensures
            name@ == self.spec_name(),
    {
        match self {
            Field::Order => "order",
            Field::Head => "head",
            Field::Bits => "bits",
            Field::Data => "data",
        }
    }

    /// The field's place in positional data, from 0.
    pub fn position(self) -> (position: usize)
        ensures
            position == self.spec_position(),
    {
        match self {
            Field::Order => 0,
            Field::Head => 1,
            Field::Bits => 2,
            Field::Data => 3,
        }
    }

    /// The field that keyed data names `key`, if that is a field's name.
    pub fn from_key(key: &str) -> (field: Option<Field>)
        ensures
            field == Self::spec_from_key(key@),
    {
        let key = String::from_str(key);
        if key == String::from_str("order") {
            Some(Field::Order)
        } else if key == String::from_str("head") {
            Some(Field::Head)
        } else if key == String::from_str("bits") {
            Some(Field::Bits)
        } else if key == String::from_str("data") {
            Some(Field::Data)
        } else {
            None
        }
    }

    /// What a value of this field is, in the words that a type mismatch is
    /// reported with.
    pub fn expects(self) -> (text: &'static str)
        ensures
            text@ == self.spec_expects(),
    {
        match self {
            Field::Order => "a string",
            Field::Head => "struct BitIdx",
            Field::Bits => "u64",
            Field::Data => "a sequence",
        }
    }
}

/// The names in [`FIELDS`], as the texts they are.
pub open spec fn field_names() -> Seq<Seq<char>> {
    seq![Field::Order.spec_name(), Field::Head.spec_name(), Field::Bits.spec_name(), Field::Data.spec_name()]
}

/// Each field is found again by its name, and [`FIELDS`] lists the four names
/// in the order of the fields' positions.
pub proof fn lemma_field_names(field: Field)
    ensures
        Field::spec_from_key(field.spec_name()) == Some(field),
        FIELDS@.len() == 4,
        FIELDS@[field.spec_position()]@ == field.spec_name(),
        FIELDS@.map_values(|name: &'static str| name@) == field_names(),
{
    reveal_strlit("order");
    reveal_strlit("head");
    reveal_strlit("bits");
    reveal_strlit("data");
    assert("order"@.len() == 5);
    assert("head"@[0] == 'h');
    assert("bits"@[0] == 'b');
    assert("data"@[0] == 'd');
    assert(FIELDS@.map_values(|name: &'static str| name@) =~= field_names());
}

} // verus!
