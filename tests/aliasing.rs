use bitutils::{BfPos, Bitfield};

#[test]
fn mutable_alias_sets_top() {
    let top = BfPos::<u8>::new((6, 7));
    let mut raw: u8 = 0b10100000;
    Bitfield::alias_mut(&mut raw).set(&top, 0b11);
    assert_eq!(raw, 0b11100000);
}

#[test]
fn shared_alias_reads_every_field() {
    let raw: u16 = 0xBEEF;
    let view = Bitfield::alias(&raw);
    assert_eq!(view.raw(), 0xBEEF);
    assert_eq!(view.get(&BfPos::<u16>::new((0, 3))), 0xF);
    assert_eq!(view.get(&BfPos::<u16>::new((4, 11))), 0xEE);
    assert_eq!(view.get(&BfPos::<u16>::new((12, 15))), 0xB);
}

#[test]
fn mutable_alias_update_writes_back() {
    let mid = BfPos::<u32>::new((8, 15));
    let mut raw: u32 = 0x1122_3344;
    {
        let mut view = Bitfield::alias_mut(&mut raw);
        assert_eq!(view.get(&mid), 0x33);
        view.update(&mid, |x| x + 1);
        assert_eq!(view.raw(), 0x1122_3444);
    }
    assert_eq!(raw, 0x1122_3444);
}

#[test]
fn update_matches_place_of_function_result() {
    let pos = BfPos::<u8>::new((1, 4));
    let start = 0b1010_1100u8;
    let mut view = Bitfield::new(start);
    view.update(&pos, |x| x * 3);
    let expected = pos.place(start, pos.extract(start) * 3);
    assert_eq!(view.raw(), expected);
    assert_eq!(view.raw(), 0b1010_0100);
}

#[test]
fn set_raw_replaces_value() {
    let mut view = Bitfield::new(1u64);
    view.set_raw(0xFFFF);
    assert_eq!(view.raw(), 0xFFFF);
    assert_eq!(view.get(&BfPos::<u64>::new((8, 15))), 0xFF);
}
