//! Short names for the endian-aware integers.
#![allow(non_camel_case_types)]

use crate::data_type::endian::order::{Big, Little};
use crate::data_type::endian::signed::{I16, I32, I64};
use crate::data_type::endian::unsigned::{U16, U32, U64};
use vstd::prelude::*;

verus! {

pub type u16_le = U16<Little>;

pub type u16_be = U16<Big>;

pub type u32_le = U32<Little>;

pub type u32_be = U32<Big>;

pub type u64_le = U64<Little>;

pub type u64_be = U64<Big>;

pub type i16_le = I16<Little>;

pub type i16_be = I16<Big>;

pub type i32_le = I32<Little>;

pub type i32_be = I32<Big>;

pub type i64_le = I64<Little>;

pub type i64_be = I64<Big>;

} // verus!
