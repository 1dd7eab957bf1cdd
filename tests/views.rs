use bitutils::{BfPos, Bitfield, Schema};

fn top() -> BfPos<u8> {
    BfPos::<u8>::new((6, 7))
}

fn takes_copy<T: Copy>(_t: T) {}

#[test]
fn bitfield() {
    let field = Bitfield::new(0b10100000u8);
    assert_eq!(field.get(&top()), 0b10);
}

#[test]
fn set_bitfield() {
    let mut bf = Bitfield::new(0u8);
    bf.set(&top(), 0b11);
    assert_eq!(bf.val, 0b11000000);
}

#[test]
fn upd_bitfield() {
    let mut bf = Bitfield::new(0u8);
    bf.update(&top(), |x| x + 1);
    assert_eq!(bf.val, 0b01000000);
}

#[test]
fn bitfield_alias() {
    let mut val: u8 = 0b10100000;
    {
        let bf = Bitfield::alias(&val);
        assert_eq!(bf.get(&top()), 0b10);
    }
    let mut bf = Bitfield::alias_mut(&mut val);
    bf.set(&top(), 0b11);
    assert_eq!(bf.raw(), 0b11100000);
}

#[test]
fn bitfield_copyable() {
    takes_copy(Bitfield::new(0u8));
}

#[test]
fn bitfield_formattable() {
    let schema = Schema::<u8>::new(
        "TestField".to_string(),
        vec![("bottom".to_string(), 0, 5), ("top".to_string(), 6, 7)],
    )
    .unwrap();
    let out = schema.format_view(&Bitfield::new(!0u8));
    assert_eq!(out, "TestField { bottom: 3f, top: 3 }");
}
