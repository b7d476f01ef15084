use zorua::codec::BitCodec;
use zorua::data_type::endian::{u16_be, u32_be, u32_le, u64_be};
use zorua::data_type::small::{u1, u2, u4};
use zorua::views::BitArrayView;
use zorua::enum_codec::{read_variant, try_read_variant, write_variant, DiscriminantStorage};

#[derive(Clone, Copy, Debug, PartialEq, Eq)]
enum Language {
    Japanese,
    English,
    French,
}

const LANGUAGES: [Language; 3] = [Language::Japanese, Language::English, Language::French];
const NUMBERS: [u32; 3] = [1, 2, 3];

impl BitCodec<u4> for Language {
    const BITS: usize = 4;
    const IS_FALLIBLE: bool = true;
    type Read = Result<Language, u4>;

    fn read_bits(src: &[u8], bit_offset: usize) -> Self {
        LANGUAGES[read_variant::<u4>(src, bit_offset, &NUMBERS).expect("Invalid discriminant")]
    }

    fn try_read_bits(src: &[u8], bit_offset: usize) -> Result<Self, u4> {
        try_read_variant::<u4>(src, bit_offset, &NUMBERS).map(|i| LANGUAGES[i])
    }

    fn write_bits(&self, dst: &mut [u8], bit_offset: usize) {
        let index = LANGUAGES.iter().position(|language| language == self);
        write_variant::<u4>(dst, bit_offset, NUMBERS[index.unwrap()]);
    }

    fn read(src: &[u8], bit_offset: usize) -> Self::Read {
        <Self as BitCodec<u4>>::try_read_bits(src, bit_offset)
    }
}

#[test]
fn variants_are_read_back() {
    let mut buf = [0u8; 2];
    for language in LANGUAGES {
        language.write_bits(&mut buf, 6);
        assert_eq!(Language::read(&buf, 6), Ok(language));
        assert_eq!(Language::read_bits(&buf, 6), language);
    }
    assert_eq!(buf, [0xC0, 0x00]);
}

#[test]
fn other_numbers_are_given_back_raw() {
    let buf = [0x5F];
    assert_eq!(Language::try_read_bits(&buf, 0), Err(u4::new(15)));
    assert_eq!(Language::try_read_bits(&buf, 4), Err(u4::new(5)));
    assert_eq!(Language::try_read_bits(&[0], 0), Err(u4::new(0)));
}

#[test]
fn views_show_fallible_elements() {
    let data = [0x21u8, 0xF3];
    let view: BitArrayView<'_, Language, u4> = BitArrayView::new(&data, 0, 4, 4);
    assert_eq!(view.get(1), Some(Ok(Language::English)));
    assert_eq!(view.try_get(3), Some(Err(u4::new(15))));
}

#[test]
fn the_whole_stored_number_counts() {
    assert_eq!(try_read_variant::<u32>(&[0x01, 0x01, 0, 0], 0, &NUMBERS), Err(0x101));
    assert_eq!(read_variant::<u16>(&[0x02, 0x01], 0, &NUMBERS), None);
    assert_eq!(read_variant::<u16>(&[0x02, 0x01], 0, &[7, 0x0102]), Some(1));
    let wide = [0x03, 0, 0, 0, 1, 0, 0, 0];
    assert_eq!(try_read_variant::<u64>(&wide, 0, &NUMBERS), Err(0x1_0000_0003));
    assert_eq!(try_read_variant::<u8>(&[3], 0, &NUMBERS), Ok(2));
}

#[test]
fn the_bytes_are_in_the_order_of_the_storage() {
    let mut buf = [0u8; 4];
    write_variant::<u32_be>(&mut buf, 0, 2);
    assert_eq!(buf, [0, 0, 0, 2]);
    assert_eq!(buf, u32_be::new(2).to_bytes());
    assert_eq!(read_variant::<u32_be>(&buf, 0, &NUMBERS), Some(1));
    assert_eq!(read_variant::<u32_le>(&buf, 0, &NUMBERS), None);
    write_variant::<u32_le>(&mut buf, 0, 3);
    assert_eq!(buf, [3, 0, 0, 0]);
    let mut long = [0xFFu8; 8];
    write_variant::<u64_be>(&mut long, 0, 0x0102);
    assert_eq!(long, [0, 0, 0, 0, 0, 0, 1, 2]);
    assert_eq!(read_variant::<u64_be>(&long, 0, &[1, 0x0102]), Some(1));
    match try_read_variant::<u16_be>(&[0x12, 0x34], 0, &NUMBERS) {
        Ok(_) => panic!("no such variant"),
        Err(raw) => assert_eq!(raw.get(), 0x1234),
    }
}

#[test]
fn discriminants_are_cut_to_the_storage() {
    let mut buf = [0u8; 2];
    write_variant::<u2>(&mut buf, 3, 7);
    assert_eq!(buf, [0b11000, 0]);
    write_variant::<u8>(&mut buf, 4, 0x1AB);
    assert_eq!(buf, [0b1011_1000, 0b1010]);
    assert_eq!(u16_be::from_low_bits(0x5_1234).get(), 0x1234);
    assert_eq!(u4::from_low_bits(0x5F).to_number(), 15);
}

#[test]
fn an_enum_with_a_variant_for_each_number_reads_everything() {
    let all = [3, 1, 0, 2];
    for byte in 0..=255u8 {
        for offset in 0..7 {
            let stored = u2::read_bits(&[byte], offset).get();
            let found = read_variant::<u2>(&[byte], offset, &all);
            assert_eq!(found.map(|i| all[i]), Some(stored));
        }
    }
    assert_eq!(try_read_variant::<u1>(&[1], 0, &[1, 5]), Ok(0));
    assert_eq!(try_read_variant::<u1>(&[0], 0, &[1, 5]), Err(u1::new(0)));
}
