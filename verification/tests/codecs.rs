use zorua::codec::{BitCodec, ReadShape};
use zorua::data_type::endian::{i32_be, i64_le, u16_be, u16_le, u64_be};
use zorua::data_type::small::{u1, u20, u31, u4, u7, u9};

#[test]
fn test_big_endian_bitcodec_uses_storage_bytes() {
    let value = u16_be::new(0x1234);
    let mut bytes = [0u8; 2];
    value.write_bits(&mut bytes, 0);
    assert_eq!(bytes, [0x12, 0x34]);
    assert_eq!(<u16 as BitCodec<u16>>::read_bits(&bytes, 0), 0x3412);
    assert_eq!(<u16 as BitCodec<u16_be>>::read_bits(&bytes, 0), 0x1234);
}

#[test]
fn booleans_take_one_bit() {
    let mut buf = [0u8; 2];
    true.write_bits(&mut buf, 9);
    assert_eq!(buf, [0, 2]);
    assert!(bool::read_bits(&buf, 9));
    assert!(!bool::read(&buf, 8));
    assert_eq!(bool::try_read_bits(&buf, 9), Ok(true));
    false.write_bits(&mut buf, 9);
    assert_eq!(buf, [0, 0]);
}

#[test]
fn native_integers_round_trip_at_any_offset() {
    for offset in 0..9 {
        let mut buf = [0u8; 10];
        <u8 as BitCodec<u8>>::write_bits(&0xA5, &mut buf, offset);
        assert_eq!(<u8 as BitCodec<u8>>::read_bits(&buf, offset), 0xA5);
        <u16 as BitCodec<u16>>::write_bits(&0xBEEF, &mut buf, offset);
        assert_eq!(<u16 as BitCodec<u16>>::read_bits(&buf, offset), 0xBEEF);
        <u32 as BitCodec<u32>>::write_bits(&0xDEAD_BEEF, &mut buf, offset);
        assert_eq!(<u32 as BitCodec<u32>>::read_bits(&buf, offset), 0xDEAD_BEEF);
        <u64 as BitCodec<u64>>::write_bits(&u64::MAX, &mut buf, offset);
        assert_eq!(<u64 as BitCodec<u64>>::read_bits(&buf, offset), u64::MAX);
        <i8 as BitCodec<i8>>::write_bits(&-3, &mut buf, offset);
        assert_eq!(<i8 as BitCodec<i8>>::read_bits(&buf, offset), -3);
        <i16 as BitCodec<i16>>::write_bits(&i16::MIN, &mut buf, offset);
        assert_eq!(<i16 as BitCodec<i16>>::read_bits(&buf, offset), i16::MIN);
        <i32 as BitCodec<i32>>::write_bits(&-77, &mut buf, offset);
        assert_eq!(<i32 as BitCodec<i32>>::read_bits(&buf, offset), -77);
        <i64 as BitCodec<i64>>::write_bits(&i64::MIN, &mut buf, offset);
        assert_eq!(<i64 as BitCodec<i64>>::read_bits(&buf, offset), i64::MIN);
    }
}

#[test]
fn widths_and_fallibility_are_known() {
    assert_eq!(<bool as BitCodec<bool>>::BITS, 1);
    assert_eq!(<i32 as BitCodec<i32>>::BITS, 32);
    assert_eq!(<u9 as BitCodec<u9>>::BITS, 9);
    assert_eq!(<u64 as BitCodec<u64_be>>::BITS, 64);
    assert_eq!(<[u4; 5] as BitCodec<[u4; 5]>>::BITS, 20);
    assert!(!<u16 as BitCodec<u16_le>>::IS_FALLIBLE);
}

#[test]
fn little_endian_storage_reads_like_native() {
    let mut stored = [0u8; 4];
    let mut native = [0u8; 4];
    <u16 as BitCodec<u16_le>>::write_bits(&0xCAFE, &mut stored, 5);
    <u16 as BitCodec<u16>>::write_bits(&0xCAFE, &mut native, 5);
    assert_eq!(stored, native);
    assert_eq!(<u16 as BitCodec<u16_le>>::read_bits(&native, 5), 0xCAFE);
}

#[test]
fn signed_values_in_a_byte_order_round_trip() {
    let mut buf = [0u8; 13];
    <i32 as BitCodec<i32_be>>::write_bits(&-123456, &mut buf, 3);
    assert_eq!(<i32 as BitCodec<i32_be>>::read_bits(&buf, 3), -123456);
    <i64 as BitCodec<i64_le>>::write_bits(&-1, &mut buf, 7);
    assert_eq!(<i64 as BitCodec<i64_le>>::try_read_bits(&buf, 7).ok(), Some(-1));
}

#[test]
fn small_integers_keep_to_their_width() {
    let mut buf = [0u8; 8];
    u7::new(0x55).write_bits(&mut buf, 6);
    u20::new(0xABCDE).write_bits(&mut buf, 13);
    u31::new(0x7FFF_FFFF).write_bits(&mut buf, 33);
    u1::new(1).write_bits(&mut buf, 5);
    assert_eq!(u7::read_bits(&buf, 6), u7::new(0x55));
    assert_eq!(u20::read(&buf, 13).get(), 0xABCDE);
    assert_eq!(u31::try_read_bits(&buf, 33), Ok(u31::new(0x7FFF_FFFF)));
    assert_eq!(u1::read_bits(&buf, 5).get(), 1);
    assert_eq!(u4::read_bits(&buf, 0).get(), 0);
}

#[test]
fn arrays_follow_each_other_without_gaps() {
    let mut buf = [0u8; 3];
    let nibbles = [u4::new(1), u4::new(2), u4::new(3), u4::new(4)];
    nibbles.write_bits(&mut buf, 4);
    assert_eq!(buf, [0x10, 0x32, 0x04]);
    assert_eq!(<[u4; 4] as BitCodec<[u4; 4]>>::read_bits(&buf, 4), nibbles);
    assert_eq!(<[u4; 4] as BitCodec<[u4; 4]>>::read(&buf, 4)[3].get(), 4);
    assert!(<[u4; 4] as BitCodec<[u4; 4]>>::try_read_bits(&buf, 4) == Ok(nibbles));
}

/// A digit, stored in four bits.
#[derive(Clone, Copy, Debug, PartialEq, Eq)]
struct Digit(u4);

impl BitCodec<Digit> for Digit {
    const BITS: usize = 4;
    const IS_FALLIBLE: bool = true;
    type Read = Result<Digit, Digit>;

    fn read_bits(src: &[u8], bit_offset: usize) -> Self {
        Self::try_read_bits(src, bit_offset).expect("a digit")
    }

    fn try_read_bits(src: &[u8], bit_offset: usize) -> Result<Self, Digit> {
        let raw = u4::read_bits(src, bit_offset);
        if raw.get() < 10 {
            Ok(Digit(raw))
        } else {
            Err(Digit(raw))
        }
    }

    fn read(src: &[u8], bit_offset: usize) -> Self::Read {
        Self::try_read_bits(src, bit_offset)
    }

    fn write_bits(&self, dst: &mut [u8], bit_offset: usize) {
        self.0.write_bits(dst, bit_offset);
    }
}

#[test]
fn arrays_of_fallible_elements_are_checked() {
    let digit = |n: u32| Digit(u4::new(n));
    assert!(<[Digit; 2] as BitCodec<[Digit; 2]>>::IS_FALLIBLE);
    assert_eq!(<[Digit; 2]>::read(&[0x93], 0), Ok([digit(3), digit(9)]));
    assert_eq!(<[Digit; 2]>::try_read_bits(&[0x93], 0), Ok([digit(3), digit(9)]));
    assert_eq!(<[Digit; 2]>::read(&[0xA3], 0), Err([digit(3), digit(10)]));
    assert_eq!(<[Digit; 2]>::try_read_bits(&[0x3F], 0), Err([digit(15), digit(3)]));
    assert_eq!(<[u4; 2]>::read(&[0xA3], 0), [u4::new(3), u4::new(10)]);
    assert_eq!(<[[Digit; 1]; 2]>::read(&[0xA3], 0), Err([[digit(3)], [digit(10)]]));
}

/// What a derived codec of a newtype looks like.
#[derive(Clone, Copy, Debug, PartialEq, Eq)]
struct Wrapped<T>(T);

impl<T> BitCodec<u8> for Wrapped<T>
where
    T: BitCodec<u8>,
    <T as BitCodec<u8>>::Read: ReadShape<T, u8, Self, u8>,
{
    const BITS: usize = <T as BitCodec<u8>>::BITS;
    const IS_FALLIBLE: bool = <T as BitCodec<u8>>::IS_FALLIBLE;
    type Read = <<T as BitCodec<u8>>::Read as ReadShape<T, u8, Self, u8>>::Read;

    fn read_bits(src: &[u8], bit_offset: usize) -> Self {
        Wrapped(<T as BitCodec<u8>>::read_bits(src, bit_offset))
    }

    fn try_read_bits(src: &[u8], bit_offset: usize) -> Result<Self, u8> {
        <T as BitCodec<u8>>::try_read_bits(src, bit_offset).map(Wrapped)
    }

    fn write_bits(&self, dst: &mut [u8], bit_offset: usize) {
        <T as BitCodec<u8>>::write_bits(&self.0, dst, bit_offset);
    }

    fn read(src: &[u8], bit_offset: usize) -> Self::Read {
        <<T as BitCodec<u8>>::Read as ReadShape<T, u8, Self, u8>>::shape(
            <Self as BitCodec<u8>>::try_read_bits(src, bit_offset),
        )
    }
}

/// A byte below ten.
#[derive(Clone, Copy, Debug, PartialEq, Eq)]
struct Small(u8);

impl BitCodec<u8> for Small {
    const BITS: usize = 8;
    const IS_FALLIBLE: bool = true;
    type Read = Result<Small, u8>;

    fn read_bits(src: &[u8], bit_offset: usize) -> Self {
        Self::try_read_bits(src, bit_offset).expect("a small byte")
    }

    fn try_read_bits(src: &[u8], bit_offset: usize) -> Result<Self, u8> {
        let raw = <u8 as BitCodec<u8>>::read_bits(src, bit_offset);
        if raw < 10 {
            Ok(Small(raw))
        } else {
            Err(raw)
        }
    }

    fn read(src: &[u8], bit_offset: usize) -> Self::Read {
        Self::try_read_bits(src, bit_offset)
    }

    fn write_bits(&self, dst: &mut [u8], bit_offset: usize) {
        <u8 as BitCodec<u8>>::write_bits(&self.0, dst, bit_offset);
    }
}

#[test]
fn newtypes_are_read_in_the_shape_of_what_they_wrap() {
    let plain: Wrapped<u8> = Wrapped::<u8>::read(&[7], 0);
    assert_eq!(plain, Wrapped(7));
    let checked: Result<Wrapped<Small>, u8> = Wrapped::<Small>::read(&[7], 0);
    assert_eq!(checked, Ok(Wrapped(Small(7))));
    assert_eq!(Wrapped::<Small>::read(&[70], 0), Err(70));
    assert!(<Wrapped<Small> as BitCodec<u8>>::IS_FALLIBLE);
}

#[test]
fn setting_a_packed_field_keeps_the_others() {
    // `a: u4`, `b: bool`, three unused bits, `c: u9`, `d: u7` in three bytes.
    let mut data = [0u8; 3];
    u4::new(9).write_bits(&mut data, 0);
    true.write_bits(&mut data, 4);
    u9::new(300).write_bits(&mut data, 8);
    u7::new(77).write_bits(&mut data, 17);
    data[0] |= 0b1010_0000;
    u9::new(129).write_bits(&mut data, 8);
    assert_eq!(u9::read(&data, 8), u9::new(129));
    assert_eq!(u4::read(&data, 0), u4::new(9));
    assert!(bool::read(&data, 4));
    assert_eq!(u7::read(&data, 17), u7::new(77));
    assert_eq!(data[0] >> 5, 0b101);
}
