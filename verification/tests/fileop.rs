use reprozip::FileOp;

#[test]
fn each_flag_has_its_own_bit() {
    assert_eq!(FileOp::read().bits(), 0b00001);
    assert_eq!(FileOp::write().bits(), 0b00010);
    assert_eq!(FileOp::wdir().bits(), 0b00100);
    assert_eq!(FileOp::stat().bits(), 0b01000);
    assert_eq!(FileOp::link().bits(), 0b10000);
}

#[test]
fn empty_set_has_no_bit() {
    assert_eq!(FileOp::empty().bits(), 0);
    assert!(FileOp::empty().is_empty());
    assert!(!FileOp::wdir().is_empty());
}

#[test]
fn union_sets_the_bits_of_both() {
    let both = FileOp::read().union(FileOp::write());
    assert_eq!(both.bits(), 0b00011);
    assert!(both.contains(FileOp::read()));
    assert!(both.contains(FileOp::write()));
    assert!(!both.contains(FileOp::stat()));
    assert_eq!(both.union(FileOp::empty()), both);
    assert_eq!(FileOp::link().union(FileOp::link()), FileOp::link());
}

#[test]
fn every_set_contains_the_empty_set() {
    assert!(FileOp::empty().contains(FileOp::empty()));
    assert!(FileOp::stat().contains(FileOp::empty()));
    assert!(!FileOp::empty().contains(FileOp::stat()));
}

#[test]
fn from_bits_takes_the_five_flags_only() {
    assert_eq!(FileOp::from_bits(0), Some(FileOp::empty()));
    assert_eq!(FileOp::from_bits(0b00100), Some(FileOp::wdir()));
    assert_eq!(
        FileOp::from_bits(0b11111).map(|set| set.bits()),
        Some(0b11111)
    );
    assert_eq!(FileOp::from_bits(0b100000), None);
    assert_eq!(FileOp::from_bits(0b100001), None);
    assert_eq!(FileOp::from_bits(u32::MAX), None);
}

#[test]
fn bits_and_from_bits_are_inverse() {
    for bits in 0..32u32 {
        let set = FileOp::from_bits(bits).unwrap();
        assert_eq!(set.bits(), bits);
        assert_eq!(FileOp::from_bits(set.bits()), Some(set));
    }
}
