//! Unsigned integers of widths that are not a whole number of bytes.
#![allow(non_camel_case_types)]

use crate::bit_lemmas;
use crate::bits;
use crate::codec::{BitCodec, SoundCodec};
use vstd::arithmetic::power2;
use vstd::prelude::*;

verus! {

/// An unsigned integer of `W` bits, for a width of up to 32.
#[derive(Clone, Copy, Debug)]
pub struct UInt<const W: usize> {
    pub value: u32,
}

impl<const W: usize> PartialEq for UInt<W> {
    fn eq(&self, other: &UInt<W>) -> (r: bool) {
        self.value == other.value
    }
}

impl<const W: usize> vstd::std_specs::cmp::PartialEqSpecImpl for UInt<W> {
    open spec fn obeys_eq_spec() -> bool {
        true
    }

    open spec fn eq_spec(&self, other: &UInt<W>) -> bool {
        self.value == other.value
    }
}

impl<const W: usize> Eq for UInt<W> {

}

impl<const W: usize> UInt<W> {
    /// Whether the width is supported and the value fits it.
    pub open spec fn wf(&self) -> bool {
        0 < W <= 32 && self.value < power2::pow2(W as nat)
    }

    pub fn new(value: u32) -> (r: Self)
        requires
            0 < W <= 32,
            value < power2::pow2(W as nat),
        ensures
            r.wf(),
            r.value == value,
    {
        UInt { value }
    }

    pub fn get(&self) -> (r: u32)
        ensures
            r == self.value,
    {
        self.value
    }

    /// The codec is as wide as the type says and cannot fail.
    pub proof fn codec_width()
        ensures
            <Self as BitCodec<Self>>::BITS == W,
            !<Self as BitCodec<Self>>::IS_FALLIBLE,
    {
    }

    /// Reading yields a value that fits its width.
    pub proof fn decode_fits(bits: Seq<bool>)
        requires
            0 < W <= 32,
            bits.len() == W,
        ensures
            <Self as BitCodec<Self>>::decode(bits) matches Some(v) && v.wf() && v.value
                == bits::bits_value(bits),
    {
        bit_lemmas::value_bound(bits);
        power2::lemma2_to64();
        if W < 32 {
            power2::lemma_pow2_strictly_increases(W as nat, 32);
        }
    }
}

impl<const W: usize> BitCodec<UInt<W>> for UInt<W> {
    const BITS: usize = W;

    const IS_FALLIBLE: bool = false;

    type Read = UInt<W>;

    open spec fn decode(bits: Seq<bool>) -> Option<UInt<W>> {
        Some(UInt { value: bits::bits_value(bits) as u32 })
    }

    open spec fn try_decode(bits: Seq<bool>) -> Option<Result<UInt<W>, UInt<W>>> {
        Some(Ok(UInt { value: bits::bits_value(bits) as u32 }))
    }

    open spec fn read_value(bits: Seq<bool>) -> Option<UInt<W>> {
        Some(UInt { value: bits::bits_value(bits) as u32 })
    }

    open spec fn encode(&self) -> Seq<bool> {
        bits::word_bits(self.value as u64, W as nat)
    }

    open spec fn storable(&self) -> bool {
        self.wf()
    }

    open spec fn reachable(offset: int) -> bool {
        0 < W <= 32
    }

    fn read_bits(src: &[u8], bit_offset: usize) -> UInt<W> {
        UInt { value: bits::read_u64(src, bit_offset, W) as u32 }
    }

    fn try_read_bits(src: &[u8], bit_offset: usize) -> Result<UInt<W>, UInt<W>> {
        Ok(Self::read_bits(src, bit_offset))
    }

    fn read(src: &[u8], bit_offset: usize) -> UInt<W> {
        Self::read_bits(src, bit_offset)
    }

    fn write_bits(&self, dst: &mut [u8], bit_offset: usize) {
        bits::write_u64(dst, bit_offset, W, self.value as u64);
    }
}

impl<const W: usize> SoundCodec<UInt<W>> for UInt<W> {
    proof fn encode_len(&self) {
    }

    proof fn decode_encode(&self) {
        bit_lemmas::power_word(W as u64);
        bit_lemmas::small_word_value(self.value as u64, W as u64);
    }

    proof fn try_decode_agrees(bits: Seq<bool>) {
    }

    open spec fn as_result(read: UInt<W>) -> Result<UInt<W>, UInt<W>> {
        Ok(read)
    }

    proof fn read_agrees(bits: Seq<bool>) {
    }

    proof fn infallible_decodes_all(bits: Seq<bool>) {
    }
}

pub type u1 = UInt<1>;

pub type u2 = UInt<2>;

pub type u3 = UInt<3>;

pub type u4 = UInt<4>;

pub type u5 = UInt<5>;

pub type u6 = UInt<6>;

pub type u7 = UInt<7>;

pub type u9 = UInt<9>;

pub type u10 = UInt<10>;

pub type u11 = UInt<11>;

pub type u12 = UInt<12>;

pub type u13 = UInt<13>;

pub type u14 = UInt<14>;

pub type u15 = UInt<15>;

pub type u17 = UInt<17>;

pub type u18 = UInt<18>;

pub type u19 = UInt<19>;

pub type u20 = UInt<20>;

pub type u21 = UInt<21>;

pub type u22 = UInt<22>;

pub type u23 = UInt<23>;

pub type u24 = UInt<24>;

pub type u25 = UInt<25>;

pub type u26 = UInt<26>;

pub type u27 = UInt<27>;

pub type u28 = UInt<28>;

pub type u29 = UInt<29>;

pub type u30 = UInt<30>;

pub type u31 = UInt<31>;

} // verus!
