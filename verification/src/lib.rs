//! Bit-addressable sequences packed into storage words, and their wire form.
//!
//! A run of bits lives in a sequence of words ([`store`]), each bit at the
//! place that an ordering gives it ([`order`]). A span ([`span`]) says where
//! the run starts and how long it is, and is made only by a constructor that
//! checks it against the words at hand. A bit slice ([`slice`]) is a span
//! over borrowed words, a bit vector ([`vec`]) one over owned words.
//!
//! On the wire a run of bits is four fields: the name of its ordering, its
//! head, its length and its words ([`serdes`]). Encoding writes them;
//! decoding takes them in, in either of two protocols, and refuses whatever
//! does not add up, with an error that says what was wrong.

pub mod boxed;
pub mod index;
pub mod order;
pub mod serdes;
pub mod slice;
pub mod span;
pub mod store;
pub mod vec;
