use rnemu::common::EmuError;
use rnemu::riscv32::Riscv32;
use rnemu::session::{nemu_exec, sim_frequency, Nemu, NemuState};

fn words_to_bytes(words: &[u32]) -> Vec<u8> {
    let mut v = Vec::new();
    for w in words {
        v.extend_from_slice(&w.to_le_bytes());
    }
    v
}

const AUIPC_T0: u32 = 0x00000297;
const AUIPC_X0: u32 = 0x00000017;
const SB_ZERO_16_T0: u32 = 0x00028823;
const LBU_A0_16_T0: u32 = 0x0102c503;
const EBREAK: u32 = 0x00100073;
const JAL_RA_8: u32 = 0x008000ef;
const LBU_A0_M1_X0: u32 = 0xfff04503;

#[test]
fn u_type_worked_example() {
    // The word 0x00000297 decodes as U-format at the reset address:
    // imm = 0, rd = x5, so x5 reads pc + imm afterwards.
    let img = words_to_bytes(&[AUIPC_T0]);
    let mut nemu = Nemu::new(&img);
    nemu_exec(&mut nemu, 1);
    assert_eq!(nemu.read_register(5), 0x8000_0000);
    assert_eq!(nemu.state, NemuState::Stop);
}

#[test]
fn end_to_end_default_image() {
    // The built-in five-word image halts at its fourth word with a zero
    // return code: the stored byte reads back as zero into a0.
    let img = Riscv32::default_img();
    let mut nemu = Nemu::new(&img);
    let err = nemu_exec(&mut nemu, u64::MAX);
    assert_eq!(err, None);
    assert_eq!(nemu.state, NemuState::End);
    assert_eq!(nemu.halt_pc, 0x8000_000c);
    assert_eq!(nemu.halt_ret, 0);
    assert_eq!(nemu.read_register(10), 0);
    assert_eq!(nemu.nr_guest_inst, 4);
}

#[test]
fn illegal_opcode_aborts() {
    // A word matching no registered pattern drives Running to Abort with
    // the failing pc and the sentinel return code.
    let img = words_to_bytes(&[0x0000_0000]);
    let mut nemu = Nemu::new(&img);
    let err = nemu_exec(&mut nemu, u64::MAX);
    assert_eq!(err, Some(EmuError::InvalidInstruction(0x8000_0000)));
    assert_eq!(nemu.state, NemuState::Abort);
    assert_eq!(nemu.halt_pc, 0x8000_0000);
    assert_eq!(nemu.halt_ret, u32::MAX);
}

#[test]
fn register_zero_stays_zero() {
    // An instruction whose destination is x0 leaves x0 reading zero.
    let img = words_to_bytes(&[AUIPC_X0, EBREAK]);
    let mut nemu = Nemu::new(&img);
    nemu_exec(&mut nemu, 1);
    assert_eq!(nemu.read_register(0), 0);
    assert_eq!(nemu.read_pc(), 0x8000_0004);
}

#[test]
fn determinism_across_runs() {
    // Identical image and initial state, run for the same count, give
    // identical architectural state.
    let img = words_to_bytes(&[AUIPC_T0, SB_ZERO_16_T0, LBU_A0_16_T0, EBREAK]);
    let mut first = Nemu::new(&img);
    let mut second = Nemu::new(&img);
    nemu_exec(&mut first, 3);
    nemu_exec(&mut second, 3);
    for idx in 0..32 {
        assert_eq!(first.read_register(idx), second.read_register(idx));
    }
    assert_eq!(first.read_pc(), second.read_pc());
    assert_eq!(first.state, second.state);
    assert_eq!(first.nr_guest_inst, second.nr_guest_inst);
}

#[test]
fn jump_overrides_next_pc() {
    // The jump writes the sequential next pc to its link register and
    // steers execution past the illegal word to the trap.
    let img = words_to_bytes(&[JAL_RA_8, 0x0000_0000, EBREAK]);
    let mut nemu = Nemu::new(&img);
    let err = nemu_exec(&mut nemu, u64::MAX);
    assert_eq!(err, None);
    assert_eq!(nemu.read_register(1), 0x8000_0004);
    assert_eq!(nemu.state, NemuState::End);
    assert_eq!(nemu.halt_pc, 0x8000_0008);
}

#[test]
fn load_outside_window_aborts() {
    // A byte load at the wrapped address 0xffff_ffff leaves the window:
    // the step fails, nothing is committed, and the session aborts.
    let img = words_to_bytes(&[LBU_A0_M1_X0]);
    let mut nemu = Nemu::new(&img);
    let err = nemu_exec(&mut nemu, u64::MAX);
    assert_eq!(err, Some(EmuError::OutOfBoundAccess(0xffff_ffff)));
    assert_eq!(nemu.state, NemuState::Abort);
    assert_eq!(nemu.halt_pc, 0x8000_0000);
    assert_eq!(nemu.halt_ret, u32::MAX);
    assert_eq!(nemu.read_pc(), 0x8000_0000);
}

#[test]
fn run_refused_after_end() {
    // A session that has ended refuses to execute further.
    let img = words_to_bytes(&[EBREAK]);
    let mut nemu = Nemu::new(&img);
    nemu_exec(&mut nemu, u64::MAX);
    assert_eq!(nemu.state, NemuState::End);
    let counted = nemu.nr_guest_inst;
    nemu_exec(&mut nemu, u64::MAX);
    assert_eq!(nemu.state, NemuState::End);
    assert_eq!(nemu.nr_guest_inst, counted);
}

#[test]
fn step_budget_returns_to_stop() {
    // Exhausting the step count with neither halt nor failure returns
    // the session to Stop.
    let img = Riscv32::default_img();
    let mut nemu = Nemu::new(&img);
    let err = nemu_exec(&mut nemu, 2);
    assert_eq!(err, None);
    assert_eq!(nemu.state, NemuState::Stop);
    assert_eq!(nemu.nr_guest_inst, 2);
    assert_eq!(nemu.read_pc(), 0x8000_0008);
}

#[test]
fn introspection_reads_memory() {
    let img = words_to_bytes(&[AUIPC_T0, EBREAK]);
    let nemu = Nemu::new(&img);
    let bytes = nemu.read_memory(0x8000_0000, 4).unwrap();
    assert_eq!(bytes, vec![0x97, 0x02, 0x00, 0x00]);
    assert_eq!(nemu.read_memory(0x7fff_ffff, 4), None);
    let (first, second) = nemu.fetch_window(0x8000_0000);
    assert_eq!(first, Some(AUIPC_T0));
    assert_eq!(second, Some(EBREAK));
}

#[test]
fn sim_frequency_guards_zero_time() {
    assert_eq!(sim_frequency(100, 0), None);
    assert_eq!(sim_frequency(1000, 10), Some(100_000_000));
    assert_eq!(sim_frequency(0, 5), Some(0));
    assert_eq!(sim_frequency(u64::MAX, 1), None);
}
