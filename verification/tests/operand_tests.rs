use rnemu::operand::{decode_args, Args, IOperand, OperandHelper, OperandType};
use rnemu::riscv32::Riscv32;

fn cpu_with(values: &[(usize, u32)]) -> Riscv32 {
    let mut cpu = Riscv32::new(0x8000_0000);
    for (idx, val) in values {
        cpu.set_reg(*idx, *val);
    }
    cpu
}

#[test]
fn i_format_sign_extends_imm() {
    // lbu a0, -1(x0): the 12-bit immediate 0xfff extends to all ones.
    let cpu = cpu_with(&[]);
    let args = decode_args(OperandType::I, 0xfff0_4503, &cpu);
    assert_eq!(args, Args { rd: 10, src1: 0, src2: 0, imm: 0xffff_ffff });
}

#[test]
fn i_format_reads_rs1() {
    let cpu = cpu_with(&[(5, 0x1234)]);
    // lbu a0, 16(t0): src1 comes from x5.
    let args = decode_args(OperandType::I, 0x0102_c503, &cpu);
    assert_eq!(args, Args { rd: 10, src1: 0x1234, src2: 0, imm: 16 });
}

#[test]
fn s_format_splits_imm() {
    // sb x0, 16(t0): the immediate joins bits 31..25 shifted up by 5 with
    // bits 11..7.
    let cpu = cpu_with(&[(5, 0x8000_0000)]);
    let args = decode_args(OperandType::S, 0x0002_8823, &cpu);
    assert_eq!(args.src1, 0x8000_0000);
    assert_eq!(args.src2, 0);
    assert_eq!(args.imm, 16);
}

#[test]
fn u_format_keeps_high_bits() {
    let cpu = cpu_with(&[]);
    let args = decode_args(OperandType::U, 0x1234_5297, &cpu);
    assert_eq!(args, Args { rd: 5, src1: 0, src2: 0, imm: 0x1234_5000 });
    let negative = decode_args(OperandType::U, 0x8000_0297, &cpu);
    assert_eq!(negative.imm, 0x8000_0000);
}

#[test]
fn j_format_assembles_imm() {
    // jal ra, 8: bits 30..21 carry 4, shifted up once.
    let cpu = cpu_with(&[]);
    let args = decode_args(OperandType::J, 0x0080_00ef, &cpu);
    assert_eq!(args, Args { rd: 1, src1: 0, src2: 0, imm: 8 });
}

#[test]
fn b_format_reads_both_sources() {
    let cpu = cpu_with(&[(8, 7)]);
    let args = decode_args(OperandType::B, 0x0080_00ef, &cpu);
    assert_eq!(args.rd, 1);
    assert_eq!(args.src1, 0);
    assert_eq!(args.src2, 7);
    assert_eq!(args.imm, 8);
}

#[test]
fn r_format_has_no_imm() {
    // add a0, a0, a1 reads both sources from the registers.
    let cpu = cpu_with(&[(10, 3), (11, 4)]);
    let args = decode_args(OperandType::R, 0x00b5_0533, &cpu);
    assert_eq!(args, Args { rd: 10, src1: 3, src2: 4, imm: 0 });
}

#[test]
fn n_format_is_all_zero() {
    let cpu = cpu_with(&[(10, 3)]);
    let args = decode_args(OperandType::N, 0x0010_0073, &cpu);
    assert_eq!(args, Args { rd: 0, src1: 0, src2: 0, imm: 0 });
}

#[test]
fn extractor_called_directly() {
    let cpu = cpu_with(&[(5, 0x1234)]);
    let args = IOperand.decode_operand(0x0102_c503, &cpu);
    assert_eq!(args, Args { rd: 10, src1: 0x1234, src2: 0, imm: 16 });
}
