use chip8::common::{BinOps, BinOpsBCD, BinOpsBCDMut, BinOpsMut};

#[test]
fn bits_count_from_the_least_significant() {
    assert_eq!(0b0000_0101u8.get_bit(0), 1);
    assert_eq!(0b0000_0101u8.get_bit(1), 0);
    assert_eq!(0b0000_0101u8.get_bit(2), 1);
    assert_eq!(0x80u8.get_bit(7), 1);
    assert_eq!(0x8000u16.get_bit(15), 1);
    assert_eq!(0x8000u16.get_bit(14), 0);
    assert_eq!(0x8000_0000u32.get_bit(31), 1);
    assert_eq!(0x8000_0000_0000_0000u64.get_bit(63), 1);
    assert_eq!(1usize.get_bit(0), 1);
    assert_eq!(usize::MAX.get_bit(usize::BITS - 1), 1);
}

#[test]
fn nibbles_count_from_the_most_significant() {
    assert_eq!(0xABu8.get_nibble(0), 0xA);
    assert_eq!(0xABu8.get_nibble(1), 0xB);
    assert_eq!(0xABCDu16.get_nibble(0), 0xA);
    assert_eq!(0xABCDu16.get_nibble(1), 0xB);
    assert_eq!(0xABCDu16.get_nibble(2), 0xC);
    assert_eq!(0xABCDu16.get_nibble(3), 0xD);
    assert_eq!(0x1234_5678u32.get_nibble(0), 0x1);
    assert_eq!(0x1234_5678u32.get_nibble(7), 0x8);
    assert_eq!(0x0123_4567_89AB_CDEFu64.get_nibble(0), 0x0);
    assert_eq!(0x0123_4567_89AB_CDEFu64.get_nibble(10), 0xA);
    assert_eq!(0x0123_4567_89AB_CDEFu64.get_nibble(15), 0xF);
    assert_eq!(0xCusize.get_nibble((usize::BITS / 4 - 1) as u8), 0xC);
    assert_eq!(usize::MAX.get_nibble(0), 0xF);
}

#[test]
fn bytes_count_from_the_least_significant() {
    assert_eq!(0xABu8.get_byte(0), 0xAB);
    assert_eq!(0xABCDu16.get_byte(0), 0xCD);
    assert_eq!(0xABCDu16.get_byte(1), 0xAB);
    assert_eq!(0x1234_5678u32.get_byte(0), 0x78);
    assert_eq!(0x1234_5678u32.get_byte(3), 0x12);
    assert_eq!(0x0123_4567_89AB_CDEFu64.get_byte(7), 0x01);
    assert_eq!(0x0123_4567_89AB_CDEFu64.get_byte(2), 0xAB);
    assert_eq!(0xFE00usize.get_byte(1), 0xFE);
}

#[test]
fn set_bit_replaces_one_bit() {
    let mut byte = 0b1010_1010u8;
    byte.set_bit(0, 1);
    assert_eq!(byte, 0b1010_1011);
    byte.set_bit(7, 0);
    assert_eq!(byte, 0b0010_1011);
    byte.set_bit(1, 1);
    assert_eq!(byte, 0b0010_1011);
    let mut word = 0u16;
    word.set_bit(15, 1);
    assert_eq!(word, 0x8000);
    let mut wide = u64::MAX;
    wide.set_bit(63, 0);
    assert_eq!(wide, 0x7FFF_FFFF_FFFF_FFFF);
    let mut dword = 0u32;
    dword.set_bit(31, 1);
    assert_eq!(dword, 0x8000_0000);
    let mut size = 0usize;
    size.set_bit(3, 1);
    assert_eq!(size, 8);
}

#[test]
fn set_nibble_replaces_one_nibble() {
    let mut byte = 0xABu8;
    byte.set_nibble(0, 0xC);
    assert_eq!(byte, 0xCB);
    byte.set_nibble(1, 0x0);
    assert_eq!(byte, 0xC0);
    let mut word = 0x1234u16;
    word.set_nibble(0, 0xF);
    assert_eq!(word, 0xF234);
    word.set_nibble(3, 0xE);
    assert_eq!(word, 0xF23E);
    word.set_nibble(2, 0x0);
    assert_eq!(word, 0xF20E);
    let mut dword = 0xFFFF_FFFFu32;
    dword.set_nibble(7, 0x1);
    assert_eq!(dword, 0xFFFF_FFF1);
    let mut wide = 0u64;
    wide.set_nibble(0, 0x9);
    assert_eq!(wide, 0x9000_0000_0000_0000);
    let mut size = 0usize;
    size.set_nibble((usize::BITS / 4 - 1) as u8, 0x7);
    assert_eq!(size, 7);
}

#[test]
fn set_byte_replaces_one_byte() {
    let mut byte = 0xABu8;
    byte.set_byte(0, 0x12);
    assert_eq!(byte, 0x12);
    let mut word = 0x1234u16;
    word.set_byte(1, 0xAB);
    assert_eq!(word, 0xAB34);
    word.set_byte(0, 0xCD);
    assert_eq!(word, 0xABCD);
    let mut dword = 0x1122_3344u32;
    dword.set_byte(2, 0x00);
    assert_eq!(dword, 0x1100_3344);
    let mut wide = 0u64;
    wide.set_byte(7, 0xFF);
    assert_eq!(wide, 0xFF00_0000_0000_0000);
    let mut size = 0xFFFFusize;
    size.set_byte(0, 0x00);
    assert_eq!(size, 0xFF00);
}

#[test]
fn get_reads_back_what_set_stored() {
    let mut word = 0x5A5Au16;
    let mut nibble = 0;
    while nibble < 4 {
        word.set_nibble(nibble, nibble + 1);
        assert_eq!(word.get_nibble(nibble), nibble + 1);
        nibble += 1;
    }
    assert_eq!(word, 0x1234);
    let mut bit = 0;
    while bit < 16 {
        word.set_bit(bit, 1);
        assert_eq!(word.get_bit(bit), 1);
        bit += 1;
    }
    assert_eq!(word, 0xFFFF);
}

#[test]
fn bcd_reads_a_byte_as_two_digits() {
    assert_eq!(0u8.get_bcd(), 0);
    assert_eq!(42u8.get_bcd(), 42);
    assert_eq!(99u8.get_bcd(), 99);
    assert_eq!(100u8.get_bcd(), 0);
    assert_eq!(127u8.get_bcd(), 27);
    assert_eq!(128u8.get_bcd(), -128);
    assert_eq!(255u8.get_bcd(), -1);
}

#[test]
fn bcd_stores_negative_numbers_a_hundred_higher() {
    let mut byte = 0u8;
    byte.set_bcd(42);
    assert_eq!(byte, 42);
    byte.set_bcd(0);
    assert_eq!(byte, 0);
    byte.set_bcd(-1);
    assert_eq!(byte, 99);
    byte.set_bcd(-100);
    assert_eq!(byte, 0);
    byte.set_bcd(-101);
    assert_eq!(byte, 255);
    byte.set_bcd(-128);
    assert_eq!(byte, 228);
    byte.set_bcd(127);
    assert_eq!(byte, 127);
}
