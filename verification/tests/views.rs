use zorua::bits;
use zorua::byte_repr::ByteLayout;
use zorua::codec::BitCodec;
use zorua::data_type::endian::u16_le;
use zorua::data_type::small::{u4, u7, u9};
use zorua::views::{
    read_zeroed_option, write_zeroed_option, BitArrayView, BitArrayViewMut,
    ZeroedOptionBitArrayView, ZeroedOptionBitArrayViewMut,
};

#[derive(Clone, Copy, Debug, PartialEq, Eq)]
struct Slot {
    data: [u8; 2],
}

impl Slot {
    fn new_zeroed() -> Self {
        Slot { data: ByteLayout::new_zeroed() }
    }

    fn id(&self) -> u9 {
        <u9 as BitCodec<u9>>::read(self.data.as_bytes(), 0)
    }

    fn set_id(&mut self, value: u9) {
        <u9 as BitCodec<u9>>::write_bits(&value, self.data.as_mut_bytes(), 0);
    }

    fn level(&self) -> u7 {
        <u7 as BitCodec<u7>>::read(self.data.as_bytes(), 9)
    }

    fn set_level(&mut self, value: u7) {
        <u7 as BitCodec<u7>>::write_bits(&value, self.data.as_mut_bytes(), 9);
    }
}

impl BitCodec<Slot> for Slot {
    const BITS: usize = 16;
    const IS_FALLIBLE: bool = false;
    type Read = Self;

    fn read_bits(src: &[u8], bit_offset: usize) -> Self {
        let mut slot = Slot::new_zeroed();
        bits::copy(src, bit_offset, slot.data.as_mut_bytes(), 0, Self::BITS);
        slot
    }

    fn try_read_bits(src: &[u8], bit_offset: usize) -> Result<Self, Slot> {
        Ok(Self::read_bits(src, bit_offset))
    }

    fn write_bits(&self, dst: &mut [u8], bit_offset: usize) {
        bits::copy(self.data.as_bytes(), 0, dst, bit_offset, Self::BITS);
    }

    fn read(src: &[u8], bit_offset: usize) -> Self::Read {
        Self::read_bits(src, bit_offset)
    }
}

struct Container {
    data: [u8; 16],
}

impl Container {
    fn slots(&self) -> ZeroedOptionBitArrayView<'_, Slot> {
        ZeroedOptionBitArrayView::new(&self.data, 8, 4, 16, 16)
    }

    fn slots_mut(&mut self) -> ZeroedOptionBitArrayViewMut<'_, Slot> {
        ZeroedOptionBitArrayViewMut::new(&mut self.data, 8, 4, 16, 16)
    }
}

#[test]
fn test_zeroedoption_array_subfield() {
    let mut c = Container { data: [0u8; 16] };

    assert!(c.slots().get(0).unwrap().is_none());
    assert!(c.slots().get(1).unwrap().is_none());

    let mut slot = Slot::new_zeroed();
    slot.set_id(u9::new(42));
    slot.set_level(u7::new(5));
    assert!(c.slots_mut().set(0, Some(slot)));

    let slot = c.slots().get(0).unwrap().unwrap();
    assert_eq!(slot.id(), u9::new(42));
    assert_eq!(slot.level(), u7::new(5));
    assert!(c.slots().get(1).unwrap().is_none());

    assert!(c.slots_mut().set(0, None));
    assert!(c.slots().get(0).unwrap().is_none());
}

#[test]
fn options_past_the_end_are_refused() {
    let mut c = Container { data: [0u8; 16] };
    assert!(c.slots().get(4).is_none());
    assert!(!c.slots_mut().set(4, Some(Slot { data: [1, 2] })));
    assert!(!c.slots_mut().set(4, None));
    assert_eq!(c.data, [0u8; 16]);
    assert_eq!(c.slots().len(), 4);
    assert!(!c.slots().is_empty());
}

#[test]
fn options_are_listed_in_order() {
    let mut c = Container { data: [0u8; 16] };
    assert!(c.slots_mut().set(2, Some(Slot { data: [0x34, 0x12] })));
    assert_eq!(c.slots().iter(), vec![None, None, Some(Slot { data: [0x34, 0x12] }), None]);
    assert_eq!(c.data[5..7], [0x34, 0x12]);
    let view = c.slots_mut();
    assert_eq!(view.get(2), Some(Some(Slot { data: [0x34, 0x12] })));
    assert_eq!(view.get(4), None);
    assert_eq!(view.len(), 4);
    assert!(!view.is_empty());
}

#[test]
fn repeated_flags_are_checked() {
    let mut data = <[u8; 4]>::new_zeroed();
    {
        let view: BitArrayView<'_, bool> = BitArrayView::new(data.as_bytes(), 0, 32, 1);
        assert_eq!(view.len(), 32);
        assert_eq!(view.get(0), Some(false));
    }
    {
        let mut view: BitArrayViewMut<'_, bool> =
            BitArrayViewMut::new(data.as_mut_bytes(), 0, 32, 1);
        assert!(view.set(0, true));
        assert!(!view.set(32, true));
    }
    let view: BitArrayView<'_, bool> = BitArrayView::new(&data, 0, 32, 1);
    assert_eq!(view.get(0), Some(true));
    assert_eq!(view.get(1), Some(false));
    assert_eq!(view.get(32), None);
    assert_eq!(data, [1, 0, 0, 0]);
}

#[test]
fn an_element_that_was_set_is_found_and_others_stay() {
    let mut data = [0xFFu8; 8];
    let mut view: BitArrayViewMut<'_, u4> = BitArrayViewMut::new(&mut data, 3, 8, 7);
    assert!(view.set(3, u4::new(6)));
    assert_eq!(view.get(3), Some(u4::new(6)));
    for i in 0..8 {
        if i != 3 {
            assert_eq!(view.get(i), Some(u4::new(15)));
        }
    }
    assert_eq!(view.try_get(3), Some(Ok(u4::new(6))));
    assert_eq!(view.try_get(8), None);
    assert_eq!(view.len(), 8);
    assert!(!view.is_empty());
}

#[test]
fn elements_are_listed_in_order() {
    let data = [0x21u8, 0x43];
    let view: BitArrayView<'_, u4> = BitArrayView::new(&data, 0, 4, 4);
    let listed: Vec<u32> = view.iter().iter().map(|v| v.get()).collect();
    assert_eq!(listed, vec![1, 2, 3, 4]);
    assert_eq!(view.try_get(1), Some(Ok(u4::new(2))));
    assert_eq!(view.try_get(4), None);
    assert!(!view.is_empty());
    let empty: BitArrayView<'_, u4> = BitArrayView::new(&data, 0, 0, 4);
    assert!(empty.is_empty());
    assert!(empty.iter().is_empty());
}

#[test]
fn elements_have_a_storage_type() {
    let mut data = [0u8; 4];
    let mut view: BitArrayViewMut<'_, u16, u16_le> = BitArrayViewMut::new(&mut data, 0, 2, 16);
    assert!(view.set(1, 0x1234));
    assert_eq!(view.get(1), Some(0x1234));
    assert_eq!(data, [0, 0, 0x34, 0x12]);
}

#[test]
fn a_single_option_is_stored_and_cleared() {
    let mut data = [0xF0u8, 0x0F];
    write_zeroed_option::<u9, u9>(&mut data, 3, None);
    assert_eq!(data, [0x00, 0x00]);
    assert_eq!(read_zeroed_option::<u9, u9>(&data, 3, 9), None);
    write_zeroed_option::<u9, u9>(&mut data, 3, Some(u9::new(0x101)));
    assert_eq!(read_zeroed_option::<u9, u9>(&data, 3, 9), Some(u9::new(0x101)));
}

#[test]
fn a_stored_zero_is_no_value() {
    let mut data = [0u8; 2];
    write_zeroed_option::<u9, u9>(&mut data, 3, Some(u9::new(0)));
    assert_eq!(read_zeroed_option::<u9, u9>(&data, 3, 9), None);
}

#[test]
fn checked_reads_of_infallible_elements_agree() {
    let data = [0x21u8, 0x43];
    let view: BitArrayView<'_, u4> = BitArrayView::new(&data, 0, 4, 4);
    for index in 0..6 {
        assert_eq!(view.try_get(index), view.get(index).map(Ok));
    }
    assert_eq!(view.get(3), Some(u4::new(4)));
    assert_eq!(view.get(4), None);
}
