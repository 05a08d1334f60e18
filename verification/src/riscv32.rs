//! The guest CPU's architectural register state: 32 general registers and
//! the program counter, with the register-0-reads-zero discipline enforced
//! by the step protocol.

use vstd::prelude::*;

use crate::common::{Vaddr, Word};

verus! {

/// The name of the guest ISA this core simulates.
pub fn guest_isa() -> &'static str {
    "riscv32"
}

/// The banner naming the guest ISA.
pub fn isa_logo() -> &'static str {
    "       _                         __  __                         _ \n      (_)                       |  \\/  |                       | |\n  _ __ _ ___  ___ ________   __ | \\  / | __ _ _ __  _   _  __ _| |\n | '__| / __|/ __|______\\ \\ / / | |\\/| |/ _` | '_ \\| | | |/ _` | |\n | |  | \\__ \\ (__        \\ V /  | |  | | (_| | | | | |_| | (_| | |\n |_|  |_|___/\\___|        \\_/   |_|  |_|\\__,_|_| |_|\\__,_|\\__,_|_|\n"
}

/// The raw architectural register state: 32 general registers and the
/// program counter.
pub struct Riscv32CpuState {
    pub gpr: Vec<Word>,
    pub pc: Vaddr,
}

/// The per-instruction decode information: the raw fetched encoding.
#[derive(Clone, Copy, PartialEq, Eq, Structural, Debug)]
pub struct Riscv32ISADecodeInfo {
    pub inst: u32,
}

/// The guest CPU: its architectural state behind well-formedness.
pub struct Riscv32 {
    pub state: Riscv32CpuState,
}

impl Riscv32 {
    /// A well-formed CPU holds exactly 32 general registers.
    pub open spec fn wf(&self) -> bool {
        self.state.gpr@.len() == 32
    }

    /// The register file as a sequence of 32 words.
    pub open spec fn spec_gpr(&self) -> Seq<Word> {
        self.state.gpr@
    }

    /// The current program counter.
    pub open spec fn spec_pc(&self) -> Vaddr {
        self.state.pc
    }

    /// A fresh CPU: every register zero, the program counter at `pc`.
    pub fn new(pc: Vaddr) -> (r: Self)
        ensures
            r.wf(),
            r.spec_pc() == pc,
            forall|i: int| 0 <= i < 32 ==> r.spec_gpr()[i] == 0u32,
    {
        let mut gpr: Vec<Word> = Vec::new();
        let mut i: usize = 0;
        while i < 32
            invariant
                gpr@.len() == i,
                i <= 32,
                forall|j: int| 0 <= j < i ==> gpr@[j] == 0u32,
            decreases 32 - i,
        {
            gpr.push(0);
            i = i + 1;
        }
        Riscv32 { state: Riscv32CpuState { gpr, pc } }
    }

    /// Reads the current program counter.
    pub fn pc(&self) -> (r: Vaddr)
        ensures
            r == self.spec_pc(),
    {
        self.state.pc
    }

    /// Sets the program counter, leaving the registers unchanged.
    pub fn set_pc(&mut self, next: Vaddr)
        ensures
            final(self).wf() == old(self).wf(),
            final(self).spec_pc() == next,
            final(self).spec_gpr() == old(self).spec_gpr(),
    {
        self.state.pc = next;
    }

    /// Reads register `idx`.
    pub fn reg(&self, idx: usize) -> (r: Word)
        requires
            self.wf(),
            idx < 32,
        ensures
            r == self.spec_gpr()[idx as int],
    {
        self.state.gpr[idx]
    }

    /// The built-in test image: an upper-immediate add, a byte store, a
    /// byte load, the halt trap, and one word of plain data, as
    /// little-endian bytes.
    pub fn default_img() -> (r: Vec<u8>)
        ensures
            r@ == seq![
                0x97u8, 0x02u8, 0x00u8, 0x00u8, 0x23u8, 0x88u8, 0x02u8, 0x00u8, 0x03u8, 0xc5u8,
                0x02u8, 0x01u8, 0x73u8, 0x00u8, 0x10u8, 0x00u8, 0xefu8, 0xbeu8, 0xadu8, 0xdeu8,
            ],
    {
        let mut v: Vec<u8> = Vec::new();
        v.push(0x97);
        v.push(0x02);
        v.push(0x00);
        v.push(0x00);
        v.push(0x23);
        v.push(0x88);
        v.push(0x02);
        v.push(0x00);
        v.push(0x03);
        v.push(0xc5);
        v.push(0x02);
        v.push(0x01);
        v.push(0x73);
        v.push(0x00);
        v.push(0x10);
        v.push(0x00);
        v.push(0xef);
        v.push(0xbe);
        v.push(0xad);
        v.push(0xde);
        proof {
            assert(v@ =~= seq![
                0x97u8, 0x02u8, 0x00u8, 0x00u8, 0x23u8, 0x88u8, 0x02u8, 0x00u8, 0x03u8, 0xc5u8,
                0x02u8, 0x01u8, 0x73u8, 0x00u8, 0x10u8, 0x00u8, 0xefu8, 0xbeu8, 0xadu8, 0xdeu8,
            ]);
        }
        v
    }

    /// Writes `val` to register `idx`, leaving the others and the program
    /// counter unchanged.
    pub fn set_reg(&mut self, idx: usize, val: Word)
        requires
            old(self).wf(),
            idx < 32,
        ensures
            final(self).wf(),
            final(self).spec_gpr() == old(self).spec_gpr().update(idx as int, val),
            final(self).spec_pc() == old(self).spec_pc(),
    {
        self.state.gpr[idx] = val;
    }
}

} // verus!
