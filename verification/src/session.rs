//! The emulation session: the state machine over Stop, Running, Abort,
//! End and Quit that drives repeated executer steps, counts retired
//! instructions, and records where and why a run halted.

use vstd::prelude::*;

use crate::common::{EmuError, Vaddr, Word};
use crate::executer::{
    spec_standard_decoders, spec_step, Executer, StepOutcome,
};
use crate::memory::{access_ok, spec_word_at, MemoryBank, MBASE, MSIZE, RESET_VECTOR};
use crate::riscv32::Riscv32;

verus! {

/// The session states: `Stop` between runs, `Running` inside one,
/// `Abort`, `End` and `Quit` terminal.
#[derive(Clone, Copy, PartialEq, Eq, Structural, Debug)]
pub enum NemuState {
    Running,
    Stop,
    Quit,
    Abort,
    End,
}

/// The whole architectural and session state as one mathematical value.
pub struct SessionView {
    pub state: NemuState,
    pub halt_pc: Vaddr,
    pub halt_ret: u32,
    pub gpr: Seq<Word>,
    pub pc: Vaddr,
    pub nr_guest_inst: u64,
    pub mem: Seq<u8>,
}

/// A run's outcome: the state it leaves behind and the failure that ended
/// it, if one did.
pub struct RunResult {
    pub s: SessionView,
    pub err: Option<EmuError>,
}

/// One session step: attempt one instruction, count it, and map the
/// outcome onto the state machine.  A failing step leaves registers and
/// memory as they were, does not commit the pc, and turns the session to
/// `Abort` with the failing instruction's address and the sentinel return
/// code; a halt commits the pc and turns the session to `End` with the
/// trap's address and its signalled code.
pub open spec fn spec_session_step(s: SessionView) -> RunResult {
    let st = spec_step(spec_standard_decoders(), s.pc, s.gpr, s.mem);
    let counted = vstd::wrapping::u64_specs::wrapping_add(s.nr_guest_inst, 1);
    match st.result {
        Result::Err(e) => RunResult {
            s: SessionView {
                state: NemuState::Abort,
                halt_pc: s.pc,
                halt_ret: u32::MAX,
                nr_guest_inst: counted,
                ..s
            },
            err: Some(e),
        },
        Result::Ok(StepOutcome::Continue) => RunResult {
            s: SessionView { gpr: st.gpr, mem: st.mem, pc: st.dnpc, nr_guest_inst: counted, ..s },
            err: None,
        },
        Result::Ok(StepOutcome::Halt { code }) => RunResult {
            s: SessionView {
                state: NemuState::End,
                halt_pc: s.pc,
                halt_ret: code,
                gpr: st.gpr,
                mem: st.mem,
                pc: st.dnpc,
                nr_guest_inst: counted,
                ..s
            },
            err: None,
        },
    }
}

/// Up to `n` session steps, stopping early as soon as the session leaves
/// `Running`.
pub open spec fn spec_run_loop(s: SessionView, n: u64) -> RunResult
    decreases n,
{
    if n == 0 {
        RunResult { s, err: None }
    } else {
        let r1 = spec_session_step(s);
        if r1.s.state != NemuState::Running {
            r1
        } else {
            spec_run_loop(r1.s, ((n - 1) as u64))
        }
    }
}

/// A whole run: a session already ended refuses to execute; otherwise it
/// runs up to `n` steps and, when neither a halt nor a failure ended them,
/// returns to `Stop`.
pub open spec fn spec_run(s: SessionView, n: u64) -> RunResult {
    if s.state == NemuState::End || s.state == NemuState::Abort || s.state == NemuState::Quit {
        RunResult { s, err: None }
    } else {
        let r = spec_run_loop(SessionView { state: NemuState::Running, ..s }, n);
        if r.s.state == NemuState::Running {
            RunResult { s: SessionView { state: NemuState::Stop, ..r.s }, err: r.err }
        } else {
            r
        }
    }
}

/// The pc of each step a run loop attempts, in order.
pub open spec fn spec_loop_trace(s: SessionView, n: u64) -> Seq<Vaddr>
    decreases n,
{
    if n == 0 {
        Seq::empty()
    } else {
        let r1 = spec_session_step(s);
        if r1.s.state != NemuState::Running {
            seq![s.pc]
        } else {
            seq![s.pc] + spec_loop_trace(r1.s, ((n - 1) as u64))
        }
    }
}

/// The pc trajectory of a whole run: empty where the run is refused.
pub open spec fn spec_run_trace(s: SessionView, n: u64) -> Seq<Vaddr> {
    if s.state == NemuState::End || s.state == NemuState::Abort || s.state == NemuState::Quit {
        Seq::empty()
    } else {
        spec_loop_trace(SessionView { state: NemuState::Running, ..s }, n)
    }
}

/// The session a fresh image boots into: stopped, counters clear, every
/// register zero, the pc at the reset vector, and the image's bytes at the
/// base of the zero-filled window.
pub open spec fn spec_init(img: Seq<u8>) -> SessionView {
    SessionView {
        state: NemuState::Stop,
        halt_pc: 0,
        halt_ret: 0,
        gpr: Seq::new(32, |i: int| 0u32),
        pc: (RESET_VECTOR as Vaddr),
        nr_guest_inst: 0,
        mem: Seq::new(MSIZE as nat, |i: int| if i < img.len() { img[i] } else { 0u8 }),
    }
}

/// The emulation session: the state machine, its halt record, the guest
/// CPU and memory it owns, and the retired-instruction counter.
pub struct Nemu {
    pub state: NemuState,
    pub halt_pc: Vaddr,
    pub halt_ret: u32,
    pub cpu: Riscv32,
    pub nr_guest_inst: u64,
    pub mem: MemoryBank,
}

impl View for Nemu {
    type V = SessionView;

    open spec fn view(&self) -> SessionView {
        SessionView {
            state: self.state,
            halt_pc: self.halt_pc,
            halt_ret: self.halt_ret,
            gpr: self.cpu.spec_gpr(),
            pc: self.cpu.spec_pc(),
            nr_guest_inst: self.nr_guest_inst,
            mem: self.mem.spec_mem(),
        }
    }
}

impl Nemu {
    /// A well-formed session owns a well-formed CPU and memory window.
    pub open spec fn wf(&self) -> bool {
        self.cpu.wf() && self.mem.wf()
    }

    /// Boots a session from a guest image: allocates the window,
    /// zero-fills it, and copies the image at the reset address.
    pub fn new(img: &[u8]) -> (r: Self)
        requires
            img@.len() <= MSIZE,
        ensures
            r.wf(),
            r@ == spec_init(img@),
    {
        let cpu = Riscv32::new(RESET_VECTOR as Vaddr);
        let mem = MemoryBank::new(img);
        let r = Nemu { state: NemuState::Stop, halt_pc: 0, halt_ret: 0, cpu, nr_guest_inst: 0, mem };
        proof {
            assert(r@.gpr =~= spec_init(img@).gpr);
            assert(r@.mem =~= spec_init(img@).mem);
        }
        r
    }

    /// Moves the session to a state, recording where and why it halted.
    fn set_state(&mut self, state: NemuState, halt_pc: Vaddr, halt_ret: u32)
        ensures
            final(self)@ == (SessionView { state, halt_pc, halt_ret, ..old(self)@ }),
            final(self).wf() == old(self).wf(),
    {
        self.state = state;
        self.halt_pc = halt_pc;
        self.halt_ret = halt_ret;
    }

    /// Records an aborted step: the failing instruction's address and the
    /// sentinel return code.
    fn invalid(&mut self, this_pc: Vaddr)
        ensures
            final(self)@ == (SessionView {
                state: NemuState::Abort,
                halt_pc: this_pc,
                halt_ret: u32::MAX,
                ..old(self)@
            }),
            final(self).wf() == old(self).wf(),
    {
        self.set_state(NemuState::Abort, this_pc, u32::MAX);
    }

    /// Runs up to `n` steps from a running session, committing each
    /// step's candidate next pc and stopping at the first halt or
    /// failure.
    fn execute(&mut self, n: u64) -> (r: Option<EmuError>)
        requires
            old(self).wf(),
            old(self)@.state == NemuState::Running,
        ensures
            final(self).wf(),
            final(self)@ == spec_run_loop(old(self)@, n).s,
            r == spec_run_loop(old(self)@, n).err,
    {
        let mut executer = Executer::new();
        let mut i: u64 = 0;
        while i < n
            invariant
                self.wf(),
                i <= n,
                self@.state == NemuState::Running,
                executer.wf(),
                executer.decoders@ == spec_standard_decoders(),
                spec_run_loop(old(self)@, n) == spec_run_loop(self@, ((n - i) as u64)),
            decreases n - i,
        {
            let ghost pre = self@;
            self.nr_guest_inst = self.nr_guest_inst.wrapping_add(1);
            let pc = self.cpu.pc();
            executer.set_pc(pc);
            executer.set_snpc(pc);
            let step = executer.exec_once(&mut self.cpu, &mut self.mem);
            match step {
                Result::Err(e) => {
                    self.invalid(pc);
                    proof {
                        assert(self@ == spec_session_step(pre).s);
                        assert(spec_run_loop(pre, ((n - i) as u64)) == spec_session_step(pre));
                    }
                    return Some(e);
                },
                Result::Ok(StepOutcome::Continue) => {
                    self.cpu.set_pc(executer.dnpc());
                    proof {
                        assert(self@ == spec_session_step(pre).s);
                    }
                },
                Result::Ok(StepOutcome::Halt { code }) => {
                    self.cpu.set_pc(executer.dnpc());
                    self.set_state(NemuState::End, pc, code);
                    proof {
                        assert(self@ == spec_session_step(pre).s);
                        assert(spec_run_loop(pre, ((n - i) as u64)) == spec_session_step(pre));
                    }
                    return None;
                },
            }
            i = i + 1;
        }
        None
    }

    /// Reads a general register, for the debugger's introspection.
    pub fn read_register(&self, idx: usize) -> (r: Word)
        requires
            self.wf(),
            idx < 32,
        ensures
            r == self@.gpr[idx as int],
    {
        self.cpu.reg(idx)
    }

    /// Reads the program counter, for the debugger's introspection.
    pub fn read_pc(&self) -> (r: Vaddr)
        ensures
            r == self@.pc,
    {
        self.cpu.pc()
    }

    /// Copies `len` bytes at `addr` out of the window, or refuses an
    /// access that leaves it.
    pub fn read_memory(&self, addr: Vaddr, len: usize) -> (r: Option<Vec<u8>>)
        requires
            self.wf(),
        ensures
            access_ok(addr, len as int) ==> (r matches Some(v) && v@ == self@.mem.subrange(
                addr - MBASE,
                addr - MBASE + len,
            )),
            !access_ok(addr, len as int) ==> r is None,
    {
        let base = MBASE;
        let a = addr as usize;
        if a >= base && len <= MSIZE && a - base <= MSIZE - len {
            let mut v: Vec<u8> = Vec::new();
            let off = a - base;
            let mut i: usize = 0;
            while i < len
                invariant
                    self.wf(),
                    i <= len,
                    off + len <= MSIZE,
                    off == addr - MBASE,
                    v@.len() == i,
                    forall|j: int| 0 <= j < i ==> v@[j] == self@.mem[off + j],
                decreases len - i,
            {
                v.push(self.mem.data[off + i]);
                i = i + 1;
            }
            proof {
                assert(v@ =~= self@.mem.subrange(addr - MBASE, addr - MBASE + len));
            }
            Some(v)
        } else {
            None
        }
    }

    /// The two words at and after an address, for the illegal-opcode
    /// diagnostic; a word past the window reads as `None`.
    pub fn fetch_window(&self, addr: Vaddr) -> (r: (Option<Word>, Option<Word>))
        requires
            self.wf(),
        ensures
            r.0 == (if access_ok(addr, 4) {
                Some(spec_word_at(self@.mem, addr - MBASE))
            } else {
                Option::<Word>::None
            }),
            r.1 == (if addr + 4 <= u32::MAX && access_ok(((addr + 4) as Vaddr), 4) {
                Some(spec_word_at(self@.mem, addr + 4 - MBASE))
            } else {
                Option::<Word>::None
            }),
    {
        let mut pc = addr;
        let first = match self.mem.inst_fetch(&mut pc, 4) {
            Ok(w) => Some(w),
            Err(_) => None,
        };
        let second = if addr <= u32::MAX - 4 {
            let mut pc2 = addr + 4;
            match self.mem.inst_fetch(&mut pc2, 4) {
                Ok(w) => Some(w),
                Err(_) => None,
            }
        } else {
            None
        };
        (first, second)
    }
}

/// Executes up to `n` guest instructions against the session: a session
/// already ended refuses; otherwise the run proceeds as the state machine
/// says, and the failure that aborted it, if any, is handed back.
pub fn nemu_exec(nemu: &mut Nemu, n: u64) -> (r: Option<EmuError>)
    requires
        old(nemu).wf(),
    ensures
        final(nemu).wf(),
        final(nemu)@ == spec_run(old(nemu)@, n).s,
        r == spec_run(old(nemu)@, n).err,
{
    match nemu.state {
        NemuState::End | NemuState::Abort | NemuState::Quit => {
            return None;
        },
        _ => {
            nemu.state = NemuState::Running;
        },
    }
    let r = nemu.execute(n);
    if nemu.state == NemuState::Running {
        nemu.state = NemuState::Stop;
    }
    r
}

/// The simulation frequency in instructions per second, or `None` where
/// the elapsed time rounds to zero microseconds or the quotient leaves
/// the counter's width.
pub fn sim_frequency(nr_inst: u64, micros: u64) -> (r: Option<u64>)
    ensures
        micros == 0 ==> r is None,
        micros > 0 ==> r == (if (nr_inst * 1000000) as int / micros as int <= u64::MAX {
            Some(((nr_inst * 1000000) as int / micros as int) as u64)
        } else {
            Option::<u64>::None
        }),
{
    if micros == 0 {
        None
    } else {
        let q = (nr_inst as u128) * 1000000u128 / (micros as u128);
        if q <= u64::MAX as u128 {
            Some(q as u64)
        } else {
            None
        }
    }
}

/// Determinism: one session state, run for one step count, has exactly
/// one outcome — equal states give equal final states, equal reported
/// failures and equal pc trajectories, however often the run is repeated.
pub proof fn lemma_run_deterministic(s1: SessionView, s2: SessionView, n: u64)
    requires
        s1 == s2,
    ensures
        spec_run(s1, n) == spec_run(s2, n),
        spec_run_trace(s1, n) == spec_run_trace(s2, n),
{
}

/// An instruction word matching no registry entry drives a running
/// session to `Abort`, recording the word's address and the sentinel
/// return code, and leaves registers and memory untouched.
pub proof fn lemma_illegal_opcode_aborts(s: SessionView)
    requires
        s.state == NemuState::Running,
        access_ok(s.pc, 4),
        crate::executer::spec_resolve(
            spec_standard_decoders(),
            spec_word_at(s.mem, s.pc - MBASE),
        ) is None,
    ensures
        spec_session_step(s).s.state == NemuState::Abort,
        spec_session_step(s).s.halt_pc == s.pc,
        spec_session_step(s).s.halt_ret == u32::MAX,
        spec_session_step(s).s.gpr == s.gpr,
        spec_session_step(s).s.mem == s.mem,
        spec_session_step(s).err == Some(EmuError::InvalidInstruction(s.pc)),
{
}

} // verus!
