//! The traits of stored values and the views of repeated ones.
pub use crate::byte_repr::{ByteLayout, ByteRepr, ByteView, SoundLayout};
pub use crate::codec::{BitCodec, ReadShape, SoundCodec};
pub use crate::views::{
    BitArrayView, BitArrayViewMut, ZeroedOptionBitArrayView, ZeroedOptionBitArrayViewMut,
};
