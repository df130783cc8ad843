//! The wire form of bit sequences: four fields, written one way and read
//! back with every check that untrusted data calls for.
//!
//! [`wire`] holds the values that travel and [`field`] the names of the four
//! fields. [`visitor`] is the accumulator that takes the fields in, one by
//! one, and [`slice`] the encoding and decoding of the bit sequences
//! themselves. [`error`] lists the failures, [`text`] words them, and
//! [`laws`] states what holds of the whole, whatever the data.

pub mod error;
pub mod field;
pub mod laws;
pub mod slice;
pub mod text;
pub mod visitor;
pub mod wire;
