//! Bit-packed binary data: LSB0 bitfields over byte slices, codecs for the values stored in them,
//! endian-aware integers, checked views of repeated fields, and the generators for structs and
//! codecs that are made of them.
use vstd::prelude::*;

pub mod array_codec;
mod bit_lemmas;
pub mod bits;
pub mod byte_repr;
pub mod codec;
pub mod data_type;
pub mod enum_codec;
pub mod laws;
pub mod layout_laws;
pub mod macros;
pub mod number_laws;
pub mod packed;
pub mod prelude;
pub mod traits;
pub mod views;
