use zorua::data_type::endian::{
    i16_be, i16_le, i32_be, i32_le, i64_be, i64_le, u16_be, u16_le, u32_be, u32_le, u64_be, u64_le,
};

#[test]
fn test_u32_endian() {
    let big_endian_value = u32_be::new(0x12345678);
    assert_eq!(big_endian_value.get(), 0x12345678);

    let little_endian_value = u32_le::new(0x12345678);
    assert_eq!(little_endian_value.get(), 0x12345678);
}

#[test]
fn test_endian_behavior() {
    let big_val = u16_be::new(0x1234);
    let little_val = u16_le::new(0x1234);

    assert_eq!(big_val.get(), 0x1234);
    assert_eq!(little_val.get(), 0x1234);
    assert_eq!(big_val.as_bytes(), &[0x12, 0x34]);
    assert_eq!(little_val.as_bytes(), &[0x34, 0x12]);
}

#[test]
fn test_basic_integer_types() {
    let u16_val = u16_le::new(65535);
    assert_eq!(u16_val.get(), 65535);

    let u64_val = u64_be::new(0xFFFFFFFFFFFFFFFF);
    assert_eq!(u64_val.get(), 0xFFFFFFFFFFFFFFFF);

    let i16_val = i16_be::new(-32768);
    assert_eq!(i16_val.get(), -32768);

    let i32_val = i32_le::new(-2147483648);
    assert_eq!(i32_val.get(), -2147483648);

    let i64_val = i64_be::new(-9223372036854775808);
    assert_eq!(i64_val.get(), -9223372036854775808);
}

#[test]
fn big_endian_bytes_are_as_written() {
    let value = u32_be::new(0x12345678);
    assert_eq!(value.get(), 0x12345678);
    assert_eq!(value.as_bytes(), &[0x12, 0x34, 0x56, 0x78]);
}

#[test]
fn unsigned_integers_store_their_bytes_in_order() {
    assert_eq!(u16_be::new(0x0102).to_bytes(), [1, 2]);
    assert_eq!(u16_le::new(0x0102).to_bytes(), [2, 1]);
    assert_eq!(u32_be::new(0x0102_0304).to_bytes(), [1, 2, 3, 4]);
    assert_eq!(u32_le::new(0x0102_0304).to_bytes(), [4, 3, 2, 1]);
    assert_eq!(u64_be::new(0x0102_0304_0506_0708).to_bytes(), [1, 2, 3, 4, 5, 6, 7, 8]);
    assert_eq!(u64_le::new(0x0102_0304_0506_0708).to_bytes(), [8, 7, 6, 5, 4, 3, 2, 1]);
}

#[test]
fn signed_integers_store_two_s_complement() {
    assert_eq!(i16_be::new(-2).to_bytes(), [0xFF, 0xFE]);
    assert_eq!(i16_le::new(-2).to_bytes(), [0xFE, 0xFF]);
    assert_eq!(i32_be::new(-2).to_bytes(), [0xFF, 0xFF, 0xFF, 0xFE]);
    assert_eq!(i32_le::new(-2).to_bytes(), [0xFE, 0xFF, 0xFF, 0xFF]);
    assert_eq!(i64_be::new(-2).to_bytes(), [0xFF, 0xFF, 0xFF, 0xFF, 0xFF, 0xFF, 0xFF, 0xFE]);
    assert_eq!(i64_le::new(-2).to_bytes(), [0xFE, 0xFF, 0xFF, 0xFF, 0xFF, 0xFF, 0xFF, 0xFF]);
}

#[test]
fn stored_bytes_are_read_in_order() {
    assert_eq!(u16_be::from_bytes([0x80, 0x01]).get(), 0x8001);
    assert_eq!(u16_le::from_bytes([0x80, 0x01]).get(), 0x0180);
    assert_eq!(u32_be::from_bytes([0x80, 0, 0, 1]).get(), 0x8000_0001);
    assert_eq!(u32_le::from_bytes([0x80, 0, 0, 1]).get(), 0x0100_0080);
    assert_eq!(u64_be::from_bytes([0x80, 0, 0, 0, 0, 0, 0, 1]).get(), 0x8000_0000_0000_0001);
    assert_eq!(u64_le::from_bytes([0x80, 0, 0, 0, 0, 0, 0, 1]).get(), 0x0100_0000_0000_0080);
    assert_eq!(i16_be::from_bytes([0x80, 0x00]).get(), -32768);
    assert_eq!(i16_le::from_bytes([0x80, 0x00]).get(), 128);
    assert_eq!(i32_be::from_bytes([0x80, 0, 0, 0]).get(), -2147483648);
    assert_eq!(i32_le::from_bytes([0x80, 0, 0, 0]).get(), 128);
    assert_eq!(i64_be::from_bytes([0x80, 0, 0, 0, 0, 0, 0, 0]).get(), i64::MIN);
    assert_eq!(i64_le::from_bytes([0x80, 0, 0, 0, 0, 0, 0, 0]).get(), 128);
}

#[test]
fn bytes_can_be_changed_in_place() {
    let mut value = u16_be::new(0x1234);
    value.as_mut_bytes()[1] = 0xFF;
    assert_eq!(value.get(), 0x12FF);
}
