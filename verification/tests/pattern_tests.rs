use rnemu::common::{signext, EmuError};
use rnemu::decode::{pattern_decode, PatternError};
use rnemu::executer::{Decoder, Effect};
use rnemu::memory::MemoryBank;
use rnemu::operand::OperandType;

#[test]
fn compile_instruction_pattern() {
    // The 25 leading wildcards stay out of the mask; the 7 literal opcode
    // bits make the key and mask; no wildcard trails the pattern, so
    // nothing is shifted out.
    let (key, mask, shift) = pattern_decode("??????? ????? ????? ??? ????? 00101 11").unwrap();
    assert_eq!(key, 0b0010111);
    assert_eq!(mask, 0b1111111);
    assert_eq!(shift, 0);
}

#[test]
fn non_trailing_wildcard_outside_mask() {
    // In "1?0" the middle wildcard never takes part in the comparison:
    // matching words agree at both literal positions, whatever bit 1 is.
    let (key, mask, shift) = pattern_decode("1?0").unwrap();
    assert_eq!((key, mask, shift), (0b100, 0b101, 0));
    for word in [0b100u64, 0b110u64] {
        assert_eq!(((word >> shift) & mask), key);
    }
    for word in [0b000u64, 0b101u64, 0b001u64] {
        assert_ne!(((word >> shift) & mask), key);
    }
}

#[test]
fn trailing_wildcards_shift_out() {
    let (key, mask, shift) = pattern_decode("10 1??").unwrap();
    assert_eq!((key, mask, shift), (0b101, 0b111, 2));
    // Words 0b10100 through 0b10111 all match; flipping a literal breaks it.
    assert_eq!(((0b10110u64 >> shift) & mask), key);
    assert_ne!(((0b00110u64 >> shift) & mask), key);
}

#[test]
fn pattern_rejects_bad_character() {
    let err = pattern_decode("01x").unwrap_err();
    assert_eq!(err, PatternError { position: 2, character: 'x' });
    let spaced = pattern_decode("0 1 ?z").unwrap_err();
    assert_eq!(spaced.position, 5);
    assert_eq!(spaced.character, 'z');
}

#[test]
fn decoder_rejects_bad_pattern() {
    assert!(Decoder::new("01x", OperandType::N, Effect::Trap).is_none());
}

#[test]
fn signext_values() {
    assert_eq!(signext(0x80, 8), 0xffff_ff80);
    assert_eq!(signext(0x7f, 8), 0x7f);
    assert_eq!(signext(0xfff, 12), 0xffff_ffff);
    assert_eq!(signext(0x800, 12), 0xffff_f800);
}

#[test]
fn fetch_at_window_boundary() {
    // A fetch of the last in-window word succeeds; one byte further must
    // be flagged, never silently answered.
    let bank = MemoryBank::new(&[]);
    let mut pc: u32 = 0x8000_0000 + 0x800_0000 - 4;
    assert_eq!(bank.inst_fetch(&mut pc, 4), Ok(0));
    assert_eq!(pc, 0x8800_0000);
    let mut past: u32 = 0x8000_0000 + 0x800_0000 - 3;
    assert_eq!(
        bank.inst_fetch(&mut past, 4),
        Err(EmuError::OutOfBoundAccess(0x87ff_fffd))
    );
    assert_eq!(past, 0x87ff_fffd);
    let mut below: u32 = 0x7fff_ffff;
    assert_eq!(
        bank.inst_fetch(&mut below, 4),
        Err(EmuError::OutOfBoundAccess(0x7fff_ffff))
    );
}

#[test]
fn image_loads_at_reset_vector() {
    let bank = MemoryBank::new(&[0xaa, 0xbb]);
    let mut pc: u32 = 0x8000_0000;
    assert_eq!(bank.inst_fetch(&mut pc, 4), Ok(0x0000_bbaa));
}
