use zorua::byte_repr::{ByteLayout, ByteRepr};
use zorua::codec::BitCodec;
use zorua::data_type::endian::{i64_be, u16_be, u16_le, u32_be};
use zorua::packed::{read_packed, write_packed, Packed};

#[test]
fn values_are_read_from_bytes_of_their_size() {
    let bytes = [1u8, 2, 3, 4];
    assert_eq!(<[u8; 4]>::read_ref(&bytes), Some(&[1, 2, 3, 4]));
    assert_eq!(<[u8; 3]>::read_ref(&bytes), None);
    assert_eq!(<[u8; 4]>::read_owned(&bytes), Some([1, 2, 3, 4]));
    assert_eq!(<[u8; 5]>::read_owned(&bytes), None);
    assert_eq!(u8::read_ref(&bytes[2..3]), Some(&3));
    assert_eq!(u8::read_ref(&bytes), None);
}

#[test]
fn values_are_written_through() {
    let mut bytes = [1u8, 2, 3, 4];
    <[u8; 4]>::read_mut(&mut bytes).unwrap()[1] = 9;
    assert_eq!(bytes, [1, 9, 3, 4]);
    assert!(<[u8; 2]>::read_mut(&mut bytes).is_none());
    *u8::read_mut(&mut bytes[3..]).unwrap() = 7;
    assert_eq!(bytes, [1, 9, 3, 7]);
}

#[test]
fn prefixes_are_read_and_written() {
    let mut bytes = [1u8, 2, 3, 4];
    let (head, rest) = <[u8; 3]>::read_prefix(&bytes).unwrap();
    assert_eq!((head, rest), (&[1, 2, 3], &[4u8][..]));
    assert!(<[u8; 5]>::read_prefix(&bytes).is_none());
    let (head, rest) = u8::read_prefix_mut(&mut bytes).unwrap();
    *head = 8;
    rest[0] = 9;
    assert_eq!(bytes, [8, 9, 3, 4]);
    let (head, rest) = <[u8; 1]>::read_prefix_mut(&mut bytes).unwrap();
    head[0] = 5;
    rest[2] = 6;
    assert_eq!(bytes, [5, 9, 3, 6]);
    assert!(<[u8; 5]>::read_prefix_mut(&mut bytes).is_none());
    assert_eq!(u8::read_prefix(&bytes).unwrap().0, &5);
}

#[test]
fn bytes_can_be_viewed_as_another_type() {
    let mut value = [7u8];
    assert_eq!(value.view_as::<u8>(), Some(&7));
    assert_eq!(value.view_as::<[u8; 2]>(), None);
    *value.view_as_mut::<u8>().unwrap() = 8;
    assert!(value.view_as_mut::<[u8; 2]>().is_none());
    assert_eq!(value, [8]);
    assert_eq!(value.clone_as::<u8>(), Some(8));
    assert_eq!(value.clone_as::<[u8; 0]>(), None);
    assert_eq!(5u8.view_as::<[u8; 1]>(), Some(&[5]));
}

#[test]
fn values_split_into_two_that_fill_them() {
    let mut value = [1u8, 2, 3];
    assert_eq!(value.split_ref::<u8, [u8; 2]>(), Some((&1, &[2, 3])));
    assert!(value.split_ref::<u8, u8>().is_none());
    assert!(value.split_ref::<[u8; 4], u8>().is_none());
    {
        let (a, b) = value.split_mut::<[u8; 2], u8>().unwrap();
        a[0] = 4;
        *b = 5;
    }
    assert_eq!(value, [4, 2, 5]);
    assert!(value.split_mut::<u8, u8>().is_none());
    assert!(value.split_mut::<[u8; 4], u8>().is_none());
}

#[test]
fn endian_integers_are_bytes() {
    assert_eq!(u16_be::read_owned(&[0x12, 0x34]).unwrap().get(), 0x1234);
    assert_eq!(u16_le::read_owned(&[0x12, 0x34]).unwrap().get(), 0x3412);
    assert!(u16_be::read_owned(&[0x12]).is_none());
    assert_eq!(i64_be::read_owned(&[0xFF; 8]), Some(i64_be::new(-1)));
    let mut value = u32_be::new(0x01020304);
    assert_eq!(value.view_as::<[u8; 4]>(), Some(&[1, 2, 3, 4]));
    assert_eq!(value.split_ref::<u8, [u8; 3]>(), Some((&1, &[2, 3, 4])));
    value.view_as_mut::<[u8; 4]>().unwrap()[3] = 9;
    assert_eq!(value, u32_be::new(0x01020309));
    assert_eq!([1u8, 2].clone_as::<u16_be>(), Some(u16_be::new(0x0102)));
    assert_eq!(u16_be::new_zeroed(), u16_be::new(0));
    assert_eq!(<u32_be as ByteLayout>::size_of(), 4);
}

#[test]
fn zeroed_values_have_zero_bytes() {
    assert_eq!(<[u8; 3]>::new_zeroed(), [0, 0, 0]);
    assert_eq!(u8::new_zeroed(), 0);
    assert_eq!(<[u8; 3] as ByteLayout>::size_of(), 3);
    assert_eq!(<u8 as ByteLayout>::size_of(), 1);
}

#[test]
fn packed_values_are_read_back() {
    let value = [0xCDu8, 0x0B];
    let mut dst = [0xFFu8; 4];
    write_packed(&value, &mut dst, 7, 12);
    assert_eq!(dst, [0xFF, 0xE6, 0xFD, 0xFF]);
    assert_eq!(read_packed::<[u8; 2]>(&dst, 7, 12), value);
    assert_eq!(read_packed::<u8>(&dst, 7, 5), 0x0D);
}

#[test]
fn packed_bytes_keep_to_their_width() {
    let value = Packed::<2, 12> { bytes: [0xCD, 0x0B] };
    let mut dst = [0u8; 3];
    value.write_bits(&mut dst, 4);
    assert_eq!(dst, [0xD0, 0xBC, 0x00]);
    assert_eq!(Packed::<2, 12>::read_bits(&dst, 4).bytes, [0xCD, 0x0B]);
    assert_eq!(Packed::<2, 12>::read(&[0xFF; 3], 4).bytes, [0xFF, 0x0F]);
    assert_eq!(Packed::<2, 12>::try_read_bits(&[0xFF; 3], 4).unwrap().bytes, [0xFF, 0x0F]);
    assert_eq!(<Packed<2, 12> as BitCodec<Packed<2, 12>>>::BITS, 12);
}
