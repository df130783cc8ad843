//! The ways in which decoding fails.

use vstd::prelude::*;
use crate::serdes::field::field_names;
use crate::serdes::field::lemma_field_names;
use crate::serdes::field::Field;
use crate::serdes::field::FIELDS;
use crate::serdes::text::duplicate_field;
use crate::serdes::text::invalid_length;
use crate::serdes::text::invalid_length_text;
use crate::serdes::text::invalid_type;
use crate::serdes::text::invalid_type_text;
use crate::serdes::text::missing_field;
use crate::serdes::text::unknown_field;
use crate::serdes::text::unknown_field_text;
use crate::serdes::wire::Unexpected;
use crate::serdes::wire::UnexpectedView;
use crate::span::BitSpanError;

verus! {

/// Why no bit sequence came out of the data.
#[derive(Clone, Debug, PartialEq, Eq)]
#[allow(inconsistent_fields)]
pub enum DecodeError {
    /// Positional data ended too soon.
    InvalidLength {
        /// The number of values that were there, which is the position of the
        /// first one that was not.
        len: usize,
        /// What was being decoded.
        expected: String,
    },
    /// Keyed data ended without a value for this field.
    MissingField(Field),
    /// Keyed data held a second value for this field.
    DuplicateField(Field),
    /// Keyed data held a key that names no field.
    UnknownField(String),
    /// The value given for this field has the wrong shape.
    InvalidType {
        /// The field.
        field: Field,
        /// The shape of what was found.
        found: Unexpected,
    },
    /// The bits were written under another ordering than the one asked for.
    InvalidOrder {
        /// The name of the ordering that the data records.
        found: String,
        /// What was being decoded: its word width and its ordering.
        expected: String,
    },
    /// Head, length and words do not go together.
    Span(BitSpanError),
}

/// A [`DecodeError`] as the mathematical value it stands for.
#[allow(inconsistent_fields)]
pub enum DecodeErrorView {
    /// Positional data ended too soon.
    InvalidLength {
        /// The number of values that were there.
        len: usize,
        /// What was being decoded.
        expected: Seq<char>,
    },
    /// Keyed data ended without a value for this field.
    MissingField(Field),
    /// Keyed data held a second value for this field.
    DuplicateField(Field),
    /// Keyed data held a key that names no field.
    UnknownField(Seq<char>),
    /// The value given for this field has the wrong shape.
    InvalidType {
        /// The field.
        field: Field,
        /// The shape of what was found.
        found: UnexpectedView,
    },
    /// The bits were written under another ordering than the one asked for.
    InvalidOrder {
        /// The name of the ordering that the data records.
        found: Seq<char>,
        /// What was being decoded.
        expected: Seq<char>,
    },
    /// Head, length and words do not go together.
    Span(BitSpanError),
}

impl View for DecodeError {
    type V = DecodeErrorView;

    open spec fn view(&self) -> DecodeErrorView {
        match self {
            DecodeError::InvalidLength { len, expected } => DecodeErrorView::InvalidLength {
                len: *len,
                expected: expected@,
            },
            DecodeError::MissingField(field) => DecodeErrorView::MissingField(*field),
            DecodeError::DuplicateField(field) => DecodeErrorView::DuplicateField(*field),
            DecodeError::UnknownField(key) => DecodeErrorView::UnknownField(key@),
            DecodeError::InvalidType { field, found } => DecodeErrorView::InvalidType {
                field: *field,
                found: found@,
            },
            DecodeError::InvalidOrder { found, expected } => DecodeErrorView::InvalidOrder {
                found: found@,
                expected: expected@,
            },
            DecodeError::Span(error) => DecodeErrorView::Span(*error),
        }
    }
}

impl DecodeErrorView {
    /// The error in words.
    pub open spec fn text(self) -> Seq<char> {
        match self {
            DecodeErrorView::InvalidLength { len, expected } => invalid_length_text(len, expected),
            DecodeErrorView::MissingField(field) => "missing field `"@ + field.spec_name() + "`"@,
            DecodeErrorView::DuplicateField(field) => "duplicate field `"@ + field.spec_name()
                + "`"@,
            DecodeErrorView::UnknownField(key) => unknown_field_text(key, field_names()),
            DecodeErrorView::InvalidType { field, found } => invalid_type_text(
                found,
                field.spec_expects(),
            ),
            DecodeErrorView::InvalidOrder { found, expected } => invalid_type_text(
                UnexpectedView::Str(found),
                expected,
            ),
            DecodeErrorView::Span(error) => error.spec_message(),
        }
    }
}

impl DecodeError {
    /// The error in words.
    pub fn message(&self) -> (text: String)
        ensures
            text@ == self@.text(),
    {
        match self {
            DecodeError::InvalidLength { len, expected } => invalid_length(*len, expected.as_str()),
            DecodeError::MissingField(field) => missing_field(field.name()),
            DecodeError::DuplicateField(field) => duplicate_field(field.name()),
            DecodeError::UnknownField(key) => {
                proof {
                    lemma_field_names(Field::Order);
                }
                unknown_field(key.as_str(), &FIELDS)
            },
            DecodeError::InvalidType { field, found } => invalid_type(found, field.expects()),
            DecodeError::InvalidOrder { found, expected } => {
                let found = Unexpected::Str(found.clone());
                invalid_type(&found, expected.as_str())
            },
            DecodeError::Span(error) => String::from_str(error.message()),
        }
    }
}

} // verus!
