use bitutils::BfPos;

const MAGIC: u8 = 0b10101010;

fn bottom() -> BfPos<u8> {
    BfPos::<u8>::new((0, 5))
}

#[test]
fn bfdesc_extract() {
    assert_eq!(bottom().extract(MAGIC), 0b101010);
}

#[test]
fn bfdesc_place() {
    let mut magic = MAGIC;
    magic = bottom().place(magic, 0b110111);
    assert_eq!(magic, 0b10110111);
}

#[test]
fn bfdesc_as() {
    assert_eq!(bottom().place(MAGIC, 0b110111), 0b10110111);
}
