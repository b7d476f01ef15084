//! What programs that work with packed data need.
pub use crate::bits;
pub use crate::data_type::endian::{
    i16_be, i16_le, i32_be, i32_le, i64_be, i64_le, u16_be, u16_le, u32_be, u32_le, u64_be, u64_le,
    Big, ByteOrder, Little, I16, I32, I64, U16, U32, U64,
};
pub use crate::data_type::small::{
    u1, u10, u11, u12, u13, u14, u15, u17, u18, u19, u2, u20, u21, u22, u23, u24, u25, u26, u27,
    u28, u29, u3, u30, u31, u4, u5, u6, u7, u9,
};
pub use crate::traits::{
    BitArrayView, BitArrayViewMut, BitCodec, ByteLayout, ByteRepr, ByteView, ZeroedOptionBitArrayView,
    ZeroedOptionBitArrayViewMut,
};
