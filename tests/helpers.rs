use bitutils::{extract_bit, extract_bits, sign_extend32, BfPos};

#[test]
fn sign_extend_five_bit_negative() {
    assert_eq!(sign_extend32(0b11110, 5), -2);
}

#[test]
fn sign_extend_five_bit_positive() {
    assert_eq!(sign_extend32(0b01110, 5), 14);
}

#[test]
fn sign_extend_ignores_bits_above_size() {
    assert_eq!(sign_extend32(0xFFFF_FF01, 4), 1);
}

#[test]
fn sign_extend_edges() {
    assert_eq!(sign_extend32(1, 1), -1);
    assert_eq!(sign_extend32(0, 1), 0);
    assert_eq!(sign_extend32(0xFFFF_FFFF, 32), -1);
    assert_eq!(sign_extend32(0x8000_0000, 32), i32::MIN);
    assert_eq!(sign_extend32(0x7FFF_FFFF, 32), i32::MAX);
}

#[test]
fn extract_bits_scenario() {
    assert_eq!(extract_bits(0b0101000u8, 3, 5), 0b101);
}

#[test]
fn extract_bit_scenario() {
    assert_eq!(extract_bit(0b01000u8, 3), 1);
    assert_eq!(extract_bit(0b01000u8, 2), 0);
    assert_eq!(extract_bit(0x8000_0000_0000_0000u64, 63), 1);
}

#[test]
fn full_width_extract_is_identity() {
    assert_eq!(extract_bits(0xA5u8, 0, 7), 0xA5);
    assert_eq!(extract_bits(0xBEEFu16, 0, 15), 0xBEEF);
    assert_eq!(extract_bits(0xDEAD_BEEFu32, 0, 31), 0xDEAD_BEEF);
    assert_eq!(extract_bits(u64::MAX, 0, 63), u64::MAX);
    assert_eq!(extract_bits(0x0123_4567_89AB_CDEFu64, 0, 63), 0x0123_4567_89AB_CDEF);
}

#[test]
fn full_width_place_replaces_everything() {
    assert_eq!(BfPos::<u8>::new((0, 7)).place(0x12, 0xEF), 0xEF);
    assert_eq!(BfPos::<u16>::new((0, 15)).place(0x1234, 0xFEDC), 0xFEDC);
    assert_eq!(BfPos::<u32>::new((0, 31)).place(0, u32::MAX), u32::MAX);
    assert_eq!(BfPos::<u64>::new((0, 63)).place(u64::MAX, 7), 7);
}

#[test]
fn place_truncates_new_value() {
    let pos = BfPos::<u8>::new((2, 4));
    let placed = pos.place(0, 0xFF);
    assert_eq!(placed, 0b0001_1100);
    assert_eq!(pos.extract(placed), 0xFF % 8);
}

#[test]
fn place_keeps_other_bits() {
    let pos = BfPos::<u8>::new((2, 4));
    assert_eq!(pos.place(0b1110_0011, 0b101), 0b1111_0111);
    assert_eq!(pos.place(0xFF, 0), 0b1110_0011);
}

#[test]
fn wider_containers() {
    assert_eq!(BfPos::<u16>::new((4, 11)).extract(0xABCD), 0xBC);
    assert_eq!(BfPos::<u32>::new((8, 23)).extract(0x1234_5678), 0x3456);
    assert_eq!(BfPos::<u64>::new((32, 63)).extract(0xDEAD_BEEF_0000_0000), 0xDEAD_BEEF);
    assert_eq!(BfPos::<u64>::new((60, 63)).place(0, 0x1F), 0xF000_0000_0000_0000);
    assert_eq!(BfPos::<u32>::new((31, 31)).place(0, 1), 0x8000_0000);
}

#[test]
fn extracted_field_fits_its_width() {
    let pos = BfPos::<u32>::new((3, 9));
    for x in [0u32, 1, 0x3FF, 0xFFFF_FFFF, 0x1234_5678] {
        assert!(pos.extract(x) < (1 << 7));
    }
}

#[test]
fn round_trip_reduces_modulo_width() {
    let pos = BfPos::<u16>::new((5, 9));
    for v in [0u16, 1, 31, 32, 33, 0xFFFF] {
        assert_eq!(pos.extract(pos.place(0xA5A5, v)), v % 32);
    }
}
