use zorua::bits::{are_zero, copy, read_u64, write_u64, zero};

#[test]
fn test_read_write_u64_aligned() {
    let mut buf = [0u8; 8];
    write_u64(&mut buf, 0, 8, 0xAB);
    assert_eq!(read_u64(&buf, 0, 8), 0xAB);
    assert_eq!(buf[0], 0xAB);
}

#[test]
fn test_read_write_u64_unaligned() {
    let mut buf = [0u8; 4];
    // Write 7 bits at offset 3
    write_u64(&mut buf, 3, 7, 0x5A);
    assert_eq!(read_u64(&buf, 3, 7), 0x5A);
    // The bits in front are kept
    assert_eq!(read_u64(&buf, 0, 3), 0);
}

#[test]
fn test_read_write_bool() {
    let mut buf = [0u8; 1];
    write_u64(&mut buf, 3, 1, 1);
    assert_eq!(read_u64(&buf, 3, 1), 1);
    assert_eq!(read_u64(&buf, 2, 1), 0);
    assert_eq!(buf[0], 0x08);
}

#[test]
fn test_are_zero() {
    let buf = [0u8; 8];
    assert!(are_zero(&buf, 0, 64));

    let mut buf2 = [0u8; 8];
    buf2[3] = 1;
    assert!(!are_zero(&buf2, 0, 64));
    assert!(are_zero(&buf2, 0, 24));
}

#[test]
fn test_copy_aligned() {
    let src = [0xAB, 0xCD, 0xEF, 0x12];
    let mut dst = [0u8; 4];
    copy(&src, 0, &mut dst, 0, 32);
    assert_eq!(dst, src);
}

#[test]
fn test_copy_unaligned() {
    let src = [0xFF, 0x00];
    let mut dst = [0u8; 2];
    // Copy 4 bits from src offset 2 to dst offset 4
    copy(&src, 2, &mut dst, 4, 4);
    // src bits 2..6 = 0b1111 (from 0xFF)
    // Written to dst bits 4..8
    assert_eq!(read_u64(&dst, 4, 4), 0xF);
}

#[test]
fn test_copy_wide() {
    // Test copying >64 bits
    let src = [0xAA; 16];
    let mut dst = [0u8; 16];
    copy(&src, 0, &mut dst, 0, 128);
    assert_eq!(dst, src);
}

#[test]
fn test_read_write_u64_unaligned_full() {
    // Test the 9th byte edge case: 64 bits at non-byte-aligned offset
    let mut buf = [0u8; 10];
    let val: u64 = 0xDEAD_BEEF_CAFE_BABE;
    write_u64(&mut buf, 3, 64, val);
    assert_eq!(read_u64(&buf, 3, 64), val);
    // Verify surrounding bits are preserved
    assert_eq!(read_u64(&buf, 0, 3), 0);
}

#[test]
fn test_copy_unaligned_wide() {
    // Test copying >64 bits at non-byte-aligned offset (triggers 9th byte path)
    // Simulate: 10 bytes at bit offset 19 (byte 2 bit 3) within a container
    let expected = *b"TestPkmn\0\0";
    let mut container = [0u8; 20];
    copy(&expected, 0, &mut container, 19, 80);
    let mut result = [0u8; 10];
    copy(&container, 19, &mut result, 0, 80);
    assert_eq!(result, expected);
}

#[test]
fn test_zero() {
    let mut buf = [0xFFu8; 8];
    zero(&mut buf, 4, 16);
    assert_eq!(read_u64(&buf, 4, 16), 0);
    // Surrounding bits preserved
    assert_eq!(read_u64(&buf, 0, 4), 0xF);
    assert_eq!(read_u64(&buf, 20, 4), 0xF);
}

#[test]
fn test_zero_wide() {
    let mut buf = [0xFFu8; 20];
    zero(&mut buf, 8, 128);
    assert!(are_zero(&buf, 8, 128));
    assert_eq!(buf[0], 0xFF); // preserved
    assert_eq!(buf[17], 0xFF); // preserved
}

#[test]
fn test_20bit_moveslot_packing() {
    // Simulate MoveSlot: 4 flag bits + 9-bit ID + 7-bit PP = 20 bits
    let mut data = [0u8; 40]; // enough for 4 moves at 20-bit stride

    // Move 0 at offset 0: flags=0b0101, id=100, pp=25
    let move0 = 0b0101u64 | (100u64 << 4) | (25u64 << 13);
    write_u64(&mut data, 0, 20, move0);

    // Move 1 at offset 20
    let move1 = 0b0011u64 | (200u64 << 4) | (30u64 << 13);
    write_u64(&mut data, 20, 20, move1);

    // Read back
    assert_eq!(read_u64(&data, 0, 4), 0b0101); // flags
    assert_eq!(read_u64(&data, 4, 9), 100); // id
    assert_eq!(read_u64(&data, 13, 7), 25); // pp

    assert_eq!(read_u64(&data, 20, 4), 0b0011);
    assert_eq!(read_u64(&data, 24, 9), 200);
    assert_eq!(read_u64(&data, 33, 7), 30);
}

#[test]
fn reading_no_bits_is_allowed_anywhere() {
    assert_eq!(read_u64(&[], 100, 0), 0);
    let mut empty = [0u8; 0];
    write_u64(&mut empty, 100, 0, 5);
    assert!(are_zero(&[], 3, 0));
}

#[test]
fn written_value_is_cut_to_its_width() {
    let mut buf = [0xFFu8; 2];
    write_u64(&mut buf, 4, 5, 0x1_23);
    assert_eq!(read_u64(&buf, 4, 5), 0x03);
    assert_eq!(buf, [0x3F, 0xFE]);
}

#[test]
fn a_write_keeps_all_other_bits() {
    let before = [0xA5u8, 0x5A, 0xC3, 0x3C, 0x96, 0x69, 0xF0, 0x0F, 0x11, 0x22];
    for offset in 0..16 {
        for count in 0..=64 {
            let mut buf = before;
            write_u64(&mut buf, offset, count, 0x0123_4567_89AB_CDEF);
            for bit in 0..80 {
                if bit < offset || bit >= offset + count {
                    assert_eq!(read_u64(&buf, bit, 1), read_u64(&before, bit, 1));
                }
            }
            let mask = if count == 64 { u64::MAX } else { (1u64 << count) - 1 };
            assert_eq!(read_u64(&buf, offset, count), 0x0123_4567_89AB_CDEF & mask);
        }
    }
}

#[test]
fn disjoint_writes_can_be_swapped() {
    let mut a = [0u8; 4];
    write_u64(&mut a, 3, 9, 0x155);
    write_u64(&mut a, 12, 11, 0x5A5);
    let mut b = [0u8; 4];
    write_u64(&mut b, 12, 11, 0x5A5);
    write_u64(&mut b, 3, 9, 0x155);
    assert_eq!(a, b);
}

#[test]
fn of_two_writes_the_later_one_counts() {
    let mut a = [0x77u8; 3];
    write_u64(&mut a, 5, 10, 0x2AA);
    write_u64(&mut a, 5, 10, 0x155);
    let mut b = [0x77u8; 3];
    write_u64(&mut b, 5, 10, 0x155);
    assert_eq!(a, b);
}

#[test]
fn writing_what_was_read_changes_nothing() {
    let mut buf = [0x12u8, 0x34, 0x56, 0x78, 0x9A];
    let stored = read_u64(&buf, 7, 29);
    write_u64(&mut buf, 7, 29, stored);
    assert_eq!(buf, [0x12, 0x34, 0x56, 0x78, 0x9A]);
}

#[test]
fn copying_out_and_back_restores() {
    let before = [0xDEu8, 0xAD, 0xBE, 0xEF, 0x01, 0x23, 0x45, 0x67, 0x89, 0xAB, 0xCD, 0xEF];
    let mut buf = before;
    let mut saved = [0u8; 12];
    copy(&buf, 5, &mut saved, 9, 70);
    zero(&mut buf, 5, 70);
    assert!(are_zero(&buf, 5, 70));
    assert_ne!(buf, before);
    copy(&saved, 9, &mut buf, 5, 70);
    assert_eq!(buf, before);
}

#[test]
fn copying_everything_makes_buffers_equal() {
    let src: Vec<u8> = (0..37).map(|i| (i * 7 + 3) as u8).collect();
    let mut dst = vec![0xFFu8; 37];
    copy(&src, 0, &mut dst, 0, 37 * 8);
    assert_eq!(dst, src);
}

#[test]
fn adjacent_fields_are_one_number() {
    let mut buf = [0u8; 3];
    write_u64(&mut buf, 0, 13, 0x0ABC);
    write_u64(&mut buf, 13, 7, 0x55);
    assert_eq!(read_u64(&buf, 0, 20), 0x0ABC + (0x55 << 13));
}

#[test]
fn a_set_bit_ends_the_search_for_zeros() {
    let mut buf = [0u8; 9];
    buf[0] = 1;
    assert!(!are_zero(&buf, 0, 1000));
}
