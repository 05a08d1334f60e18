use rnemu::memory::Memory;

#[test]
fn memory_starts_empty() {
    let mem = Memory::default();
    assert!(!mem.validate_address(0));
}

#[test]
fn validate_address_checks_word_count() {
    let mem = Memory::new(4);
    assert!(mem.validate_address(0));
    assert!(mem.validate_address(3));
    assert!(!mem.validate_address(4));
}

#[test]
fn byte_roundtrip() {
    let mut mem = Memory::new(2);
    mem.write_byte(0, 0xab);
    mem.write_byte(9, 0xcd);
    assert_eq!(mem.read_byte(0), 0xab);
    assert_eq!(mem.read_byte(1), 0x00);
    assert_eq!(mem.read_byte(9), 0xcd);
}

#[test]
fn halfword_roundtrip_aligned_and_not() {
    let mut mem = Memory::new(2);
    mem.write_halfword(6, 0xbeef);
    assert_eq!(mem.read_halfword(6), 0xbeef);
    assert_eq!(mem.read_byte(6), 0xef);
    assert_eq!(mem.read_byte(7), 0xbe);
    mem.write_halfword(7, 0x1234);
    assert_eq!(mem.read_halfword(7), 0x1234);
    assert_eq!(mem.read_byte(7), 0x34);
    assert_eq!(mem.read_byte(8), 0x12);
}

#[test]
fn word_roundtrip_aligned_and_not() {
    let mut mem = Memory::new(2);
    mem.write_word(4, 0xdead_beef);
    assert_eq!(mem.read_word(4), 0xdead_beef);
    mem.write_word(5, 0x0102_0304);
    assert_eq!(mem.read_word(5), 0x0102_0304);
    assert_eq!(mem.read_byte(4), 0xef);
}

#[test]
fn doubleword_roundtrip_all_alignments() {
    let mut mem = Memory::new(4);
    mem.write_doubleword(0, 0x1122_3344_5566_7788);
    assert_eq!(mem.read_doubleworld(0), 0x1122_3344_5566_7788);
    mem.write_doubleword(12, 0xa0b0_c0d0_e0f0_0102);
    assert_eq!(mem.read_doubleworld(12), 0xa0b0_c0d0_e0f0_0102);
    mem.write_doubleword(17, 0x0807_0605_0403_0201);
    assert_eq!(mem.read_doubleworld(17), 0x0807_0605_0403_0201);
}

#[test]
fn write_leaves_neighbours_alone() {
    let mut mem = Memory::new(2);
    mem.write_doubleword(0, 0xffff_ffff_ffff_ffff);
    mem.write_byte(3, 0x00);
    assert_eq!(mem.read_doubleworld(0), 0xffff_ffff_00ff_ffff);
}

#[test]
fn read_bytes_assembles_little_endian() {
    let mut mem = Memory::new(2);
    mem.write_bytes(5, 0x0000_0000_00aa_bbcc, 3);
    assert_eq!(mem.read_bytes(5, 3), 0x00aa_bbcc);
    assert_eq!(mem.read_byte(5), 0xcc);
    assert_eq!(mem.read_byte(6), 0xbb);
    assert_eq!(mem.read_byte(7), 0xaa);
}
