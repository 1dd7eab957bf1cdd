use bitutils::{BfPos, Bitfield};

struct TFParent {
    tf: Bitfield<u8>,
}

#[test]
fn bitfield_get() {
    let top = BfPos::<u8>::new((6, 7));
    let test_field = Bitfield::new(0b10100000u8);
    assert_eq!(test_field.get(&top), 0b10);
}

#[test]
fn bitfield_set() {
    let top = BfPos::<u8>::new((6, 7));
    let mut test_field = Bitfield::new(0u8);
    test_field.set(&top, 0b11);
    assert_eq!(test_field.raw(), 0b11000000);
}

#[test]
fn bitfield_mod_recursive() {
    let top = BfPos::<u8>::new((6, 7));
    let mut tf_parent = TFParent { tf: Bitfield::new(0u8) };
    tf_parent.tf.set(&top, 0b11);
    assert_eq!(tf_parent.tf.raw(), 0b11000000);
}
