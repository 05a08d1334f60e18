//! Per-format operand extraction: one pure decoder for each instruction
//! format of the RV32 encoding, reading fixed field positions
//! (`rs1 = bits[19:15]`, `rs2 = bits[24:20]`, `rd = bits[11:7]`) and
//! assembling each format's sign-extended immediate.

use vstd::prelude::*;

use crate::common::{bits, signext, spec_bits, spec_signext, Word};
use crate::riscv32::Riscv32;

verus! {

/// The instruction format an operand decoder serves.
#[derive(Clone, Copy, PartialEq, Eq, Structural, Debug)]
pub enum OperandType {
    I,
    U,
    S,
    J,
    R,
    B,
    N,
}

/// The decoded operands handed to an instruction's effect.
#[derive(Clone, Copy, PartialEq, Eq, Structural, Debug)]
pub struct Args {
    pub rd: usize,
    pub src1: Word,
    pub src2: Word,
    pub imm: Word,
}

impl Args {
    /// Packs the four decoded operand fields.
    pub fn new(rd: usize, src1: Word, src2: Word, imm: Word) -> (r: Self)
        ensures
            r == (Args { rd, src1, src2, imm }),
    {
        Args { rd, src1, src2, imm }
    }
}

/// The first source register field.
pub open spec fn spec_rs1(inst: Word) -> Word {
    spec_bits(inst, 19, 15)
}

/// The second source register field.
pub open spec fn spec_rs2(inst: Word) -> Word {
    spec_bits(inst, 24, 20)
}

/// The destination register field.
pub open spec fn spec_rd(inst: Word) -> Word {
    spec_bits(inst, 11, 7)
}

/// A five-bit field always names one of the 32 registers.
pub proof fn lemma_reg_field_bound(x: Word, hi: u32, lo: u32)
    requires
        hi == lo + 4,
        hi < 32,
    ensures
        spec_bits(x, hi, lo) < 32,
{
    let xx = x as u64;
    let l = lo as u64;
    assert(((hi - lo + 1) as u64) == 5);
    assert(l < 32 ==> ((xx >> l) & (((1u64 << 5u64) - 1) as u64)) < 32) by (bit_vector);
}

/// The I-format immediate: bits 31..20, sign-extended from 12 bits.
pub open spec fn spec_i_imm(inst: Word) -> Word {
    spec_signext(spec_bits(inst, 31, 20) as u64, 12)
}

/// The S-format immediate: bits 31..25 sign-extended from 7 bits and
/// shifted up by 5, joined with bits 11..7.
pub open spec fn spec_s_imm(inst: Word) -> Word {
    (spec_signext(spec_bits(inst, 31, 25) as u64, 7) << 5u32) | spec_bits(inst, 11, 7)
}

/// The B- and J-format immediate: the sign from bit 31, bits 30..21 at
/// position 1, bit 20 at position 11 and bits 19..12 at position 12,
/// sign-extended as a 21-bit field.
pub open spec fn spec_bj_imm(inst: Word) -> Word {
    (spec_signext(spec_bits(inst, 31, 31) as u64, 1) << 20u32) | (spec_bits(inst, 30, 21) << 1u32)
        | (spec_bits(inst, 20, 20) << 11u32) | (spec_bits(inst, 19, 12) << 12u32)
}

/// The U-format immediate: bits 31..12, sign-extended and shifted up by 12.
pub open spec fn spec_u_imm(inst: Word) -> Word {
    spec_signext(spec_bits(inst, 31, 12) as u64, 20) << 12u32
}

/// R-format operands: both sources read from the registers, no immediate.
pub open spec fn spec_r_args(inst: Word, gpr: Seq<Word>) -> Args {
    Args {
        rd: spec_rd(inst) as usize,
        src1: gpr[spec_rs1(inst) as int],
        src2: gpr[spec_rs2(inst) as int],
        imm: 0,
    }
}

/// I-format operands: one source register and the I immediate.
pub open spec fn spec_i_args(inst: Word, gpr: Seq<Word>) -> Args {
    Args { rd: spec_rd(inst) as usize, src1: gpr[spec_rs1(inst) as int], src2: 0, imm: spec_i_imm(inst) }
}

/// S-format operands: both source registers and the S immediate.
pub open spec fn spec_s_args(inst: Word, gpr: Seq<Word>) -> Args {
    Args {
        rd: spec_rd(inst) as usize,
        src1: gpr[spec_rs1(inst) as int],
        src2: gpr[spec_rs2(inst) as int],
        imm: spec_s_imm(inst),
    }
}

/// B-format operands: both source registers and the branch immediate.
pub open spec fn spec_b_args(inst: Word, gpr: Seq<Word>) -> Args {
    Args {
        rd: spec_rd(inst) as usize,
        src1: gpr[spec_rs1(inst) as int],
        src2: gpr[spec_rs2(inst) as int],
        imm: spec_bj_imm(inst),
    }
}

/// U-format operands: the destination register and the U immediate; no
/// register reads.
pub open spec fn spec_u_args(inst: Word, gpr: Seq<Word>) -> Args {
    Args { rd: spec_rd(inst) as usize, src1: 0, src2: 0, imm: spec_u_imm(inst) }
}

/// J-format operands: the destination register and the jump immediate; no
/// register reads.
pub open spec fn spec_j_args(inst: Word, gpr: Seq<Word>) -> Args {
    Args { rd: spec_rd(inst) as usize, src1: 0, src2: 0, imm: spec_bj_imm(inst) }
}

/// N-format operands: every field zero.
pub open spec fn spec_n_args(inst: Word, gpr: Seq<Word>) -> Args {
    Args { rd: 0, src1: 0, src2: 0, imm: 0 }
}

/// The operands a given format extracts from a word and the registers.
pub open spec fn spec_decode_args(typ: OperandType, inst: Word, gpr: Seq<Word>) -> Args {
    match typ {
        OperandType::R => spec_r_args(inst, gpr),
        OperandType::I => spec_i_args(inst, gpr),
        OperandType::S => spec_s_args(inst, gpr),
        OperandType::B => spec_b_args(inst, gpr),
        OperandType::U => spec_u_args(inst, gpr),
        OperandType::J => spec_j_args(inst, gpr),
        OperandType::N => spec_n_args(inst, gpr),
    }
}

/// One pure operand extractor per instruction format.
pub trait OperandHelper {
    /// What the extractor reads from the word and the registers.
    spec fn spec_decode(&self, inst: Word, gpr: Seq<Word>) -> Args;

    /// Extracts the operands of `inst` against the current registers.
    fn decode_operand(&self, inst: Word, isa: &Riscv32) -> (r: Args)
        requires
            isa.wf(),
        ensures
            r == self.spec_decode(inst, isa.spec_gpr()),
    ;
}

/// The R-format extractor.
pub struct ROperand;

/// The B-format extractor.
pub struct BOperand;

/// The U-format extractor.
pub struct UOperand;

/// The J-format extractor.
pub struct JOperand;

/// The S-format extractor.
pub struct SOperand;

/// The N-format extractor.
pub struct NOperand;

/// The I-format extractor.
pub struct IOperand;

impl OperandHelper for ROperand {
    open spec fn spec_decode(&self, inst: Word, gpr: Seq<Word>) -> Args {
        spec_r_args(inst, gpr)
    }

    fn decode_operand(&self, inst: Word, isa: &Riscv32) -> (r: Args) {
        proof {
            lemma_reg_field_bound(inst, 19, 15);
            lemma_reg_field_bound(inst, 24, 20);
            lemma_reg_field_bound(inst, 11, 7);
        }
        let rs1 = bits(inst, 19, 15) as usize;
        let rs2 = bits(inst, 24, 20) as usize;
        let rd = bits(inst, 11, 7) as usize;
        let src1 = isa.reg(rs1);
        let src2 = isa.reg(rs2);
        Args::new(rd, src1, src2, 0)
    }
}

impl OperandHelper for BOperand {
    open spec fn spec_decode(&self, inst: Word, gpr: Seq<Word>) -> Args {
        spec_b_args(inst, gpr)
    }

    fn decode_operand(&self, inst: Word, isa: &Riscv32) -> (r: Args) {
        proof {
            lemma_reg_field_bound(inst, 19, 15);
            lemma_reg_field_bound(inst, 24, 20);
            lemma_reg_field_bound(inst, 11, 7);
        }
        let rs1 = bits(inst, 19, 15) as usize;
        let rs2 = bits(inst, 24, 20) as usize;
        let rd = bits(inst, 11, 7) as usize;
        let src1 = isa.reg(rs1);
        let src2 = isa.reg(rs2);
        let imm = (signext(bits(inst, 31, 31) as u64, 1) << 20) | (bits(inst, 30, 21) << 1) | (bits(
            inst,
            20,
            20,
        ) << 11) | (bits(inst, 19, 12) << 12);
        Args::new(rd, src1, src2, imm)
    }
}

impl OperandHelper for UOperand {
    open spec fn spec_decode(&self, inst: Word, gpr: Seq<Word>) -> Args {
        spec_u_args(inst, gpr)
    }

    fn decode_operand(&self, inst: Word, isa: &Riscv32) -> (r: Args) {
        proof {
            lemma_reg_field_bound(inst, 11, 7);
        }
        let rd = bits(inst, 11, 7) as usize;
        let imm = signext(bits(inst, 31, 12) as u64, 20) << 12;
        Args::new(rd, 0, 0, imm)
    }
}

impl OperandHelper for JOperand {
    open spec fn spec_decode(&self, inst: Word, gpr: Seq<Word>) -> Args {
        spec_j_args(inst, gpr)
    }

    fn decode_operand(&self, inst: Word, isa: &Riscv32) -> (r: Args) {
        proof {
            lemma_reg_field_bound(inst, 11, 7);
        }
        let rd = bits(inst, 11, 7) as usize;
        let imm = (signext(bits(inst, 31, 31) as u64, 1) << 20) | (bits(inst, 30, 21) << 1) | (bits(
            inst,
            20,
            20,
        ) << 11) | (bits(inst, 19, 12) << 12);
        Args::new(rd, 0, 0, imm)
    }
}

impl OperandHelper for SOperand {
    open spec fn spec_decode(&self, inst: Word, gpr: Seq<Word>) -> Args {
        spec_s_args(inst, gpr)
    }

    fn decode_operand(&self, inst: Word, isa: &Riscv32) -> (r: Args) {
        proof {
            lemma_reg_field_bound(inst, 19, 15);
            lemma_reg_field_bound(inst, 24, 20);
            lemma_reg_field_bound(inst, 11, 7);
        }
        let rs1 = bits(inst, 19, 15) as usize;
        let rs2 = bits(inst, 24, 20) as usize;
        let rd = bits(inst, 11, 7) as usize;
        let src1 = isa.reg(rs1);
        let src2 = isa.reg(rs2);
        let imm = (signext(bits(inst, 31, 25) as u64, 7) << 5) | bits(inst, 11, 7);
        Args::new(rd, src1, src2, imm)
    }
}

impl OperandHelper for NOperand {
    open spec fn spec_decode(&self, inst: Word, gpr: Seq<Word>) -> Args {
        spec_n_args(inst, gpr)
    }

    fn decode_operand(&self, inst: Word, isa: &Riscv32) -> (r: Args) {
        Args::new(0, 0, 0, 0)
    }
}

impl OperandHelper for IOperand {
    open spec fn spec_decode(&self, inst: Word, gpr: Seq<Word>) -> Args {
        spec_i_args(inst, gpr)
    }

    fn decode_operand(&self, inst: Word, isa: &Riscv32) -> (r: Args) {
        proof {
            lemma_reg_field_bound(inst, 19, 15);
            lemma_reg_field_bound(inst, 11, 7);
        }
        let rs1 = bits(inst, 19, 15) as usize;
        let rd = bits(inst, 11, 7) as usize;
        let src1 = isa.reg(rs1);
        let imm = signext(bits(inst, 31, 20) as u64, 12);
        Args::new(rd, src1, 0, imm)
    }
}

/// Extracts the operands of `inst` through the extractor of the given
/// format.
pub fn decode_args(typ: OperandType, inst: Word, isa: &Riscv32) -> (r: Args)
    requires
        isa.wf(),
    ensures
        r == spec_decode_args(typ, inst, isa.spec_gpr()),
{
    match typ {
        OperandType::R => ROperand.decode_operand(inst, isa),
        OperandType::I => IOperand.decode_operand(inst, isa),
        OperandType::S => SOperand.decode_operand(inst, isa),
        OperandType::B => BOperand.decode_operand(inst, isa),
        OperandType::U => UOperand.decode_operand(inst, isa),
        OperandType::J => JOperand.decode_operand(inst, isa),
        OperandType::N => NOperand.decode_operand(inst, isa),
    }
}

} // verus!
