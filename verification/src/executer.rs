//! The fetch-decode-execute step: an ordered registry of pattern entries,
//! a tagged set of instruction effects, and the `Executer` that drives one
//! instruction from fetch to commit with the `pc`/`snpc`/`dnpc` protocol.

use vstd::prelude::*;

use crate::common::{EmuError, Vaddr, Word};
use crate::decode::{pattern_decode, pattern_matches, pattern_ok, spec_compile};
use crate::memory::{access_ok, spec_word_at, MemoryBank, MBASE};
use crate::operand::{decode_args, lemma_reg_field_bound, spec_decode_args, Args, OperandType};
use crate::riscv32::{Riscv32, Riscv32ISADecodeInfo};

verus! {

/// Addition that wraps at the register width, as guest arithmetic does.
pub open spec fn wrap_add(x: Word, y: Word) -> Word {
    vstd::wrapping::u32_specs::wrapping_add(x, y)
}

/// What a matched instruction does to the architectural state.
#[derive(Clone, Copy, PartialEq, Eq, Structural, Debug)]
pub enum Effect {
    /// Writes `pc + imm` to `rd`.
    AddUpperImmPc,
    /// Stores the low byte of `src2` at `src1 + imm`.
    StoreByte,
    /// Loads the byte at `src1 + imm` into `rd`, zero-extended.
    LoadByteUnsigned,
    /// Writes the sequential next pc to `rd` and sets the next pc to
    /// `pc + imm`.
    JumpAndLink,
    /// Ends the simulation, signalling the code held in register 10.
    Trap,
}

/// How one step ended: the run goes on, or the guest signalled a halt with
/// a return code.
#[derive(Clone, Copy, PartialEq, Eq, Structural, Debug)]
pub enum StepOutcome {
    Continue,
    Halt { code: u32 },
}

/// One registry entry: a compiled pattern rule, the operand format it
/// decodes with, and the effect it applies.
#[derive(Clone, Copy, PartialEq, Eq, Structural, Debug)]
pub struct Decoder {
    pub key: u64,
    pub mask: u64,
    pub shift: u64,
    pub typ: OperandType,
    pub effect: Effect,
}

impl Decoder {
    /// An entry's shift always admits the word-sized match rule.
    pub open spec fn wf(&self) -> bool {
        self.shift < 64
    }

    /// The entry's match rule applied to a word.
    pub open spec fn spec_matches(&self, word: Word) -> bool {
        pattern_matches(self.key, self.mask, self.shift, word as u64)
    }

    /// Compiles `pattern` into a registry entry; a malformed pattern, or
    /// one whose trailing wildcards exceed the rule width, gives `None`.
    pub fn new(pattern: &str, typ: OperandType, effect: Effect) -> (r: Option<Decoder>)
        ensures
            r == spec_entry(pattern@, typ, effect),
            r matches Some(d) ==> d.wf(),
    {
        match pattern_decode(pattern) {
            Ok((key, mask, shift)) => {
                if shift < 64 {
                    Some(Decoder { key, mask, shift, typ, effect })
                } else {
                    None
                }
            },
            Err(_) => None,
        }
    }

    /// Tests the entry's rule against a fetched word.
    pub fn matches(&self, word: Word) -> (r: bool)
        requires
            self.wf(),
        ensures
            r == self.spec_matches(word),
    {
        ((word as u64) >> self.shift) & self.mask == self.key
    }
}

/// The entry a pattern compiles to, or `None` where the pattern is
/// malformed or its trailing wildcards exceed the rule width.
pub open spec fn spec_entry(p: Seq<char>, typ: OperandType, effect: Effect) -> Option<Decoder> {
    if pattern_ok(p) && spec_compile(p).2 < 64 {
        Some(
            Decoder {
                key: spec_compile(p).0,
                mask: spec_compile(p).1,
                shift: spec_compile(p).2,
                typ,
                effect,
            },
        )
    } else {
        None
    }
}

/// The first registry entry whose rule matches the word; registration
/// order is match priority.
pub open spec fn spec_resolve(table: Seq<Decoder>, word: Word) -> Option<Decoder>
    decreases table.len(),
{
    if table.len() == 0 {
        None
    } else if table.first().spec_matches(word) {
        Some(table.first())
    } else {
        spec_resolve(table.drop_first(), word)
    }
}

/// What applying an effect leaves behind: the registers, the memory, the
/// candidate next pc, and how the step ended.
pub struct SpecStep {
    pub gpr: Seq<Word>,
    pub mem: Seq<u8>,
    pub dnpc: Vaddr,
    pub result: Result<StepOutcome, EmuError>,
}

/// One effect applied to the architectural state: `dnpc` starts at the
/// sequential next pc and only a jump overrides it; a store or load
/// outside the window fails and changes nothing.
pub open spec fn spec_apply(
    effect: Effect,
    args: Args,
    pc: Vaddr,
    snpc: Vaddr,
    gpr: Seq<Word>,
    mem: Seq<u8>,
) -> SpecStep {
    match effect {
        Effect::AddUpperImmPc => SpecStep {
            gpr: gpr.update(args.rd as int, wrap_add(pc, args.imm)),
            mem,
            dnpc: snpc,
            result: Ok(StepOutcome::Continue),
        },
        Effect::StoreByte => {
            let addr = wrap_add(args.src1, args.imm);
            if access_ok(addr, 1) {
                SpecStep {
                    gpr,
                    mem: mem.update(addr - MBASE, ((args.src2 & 0xff) as u8)),
                    dnpc: snpc,
                    result: Ok(StepOutcome::Continue),
                }
            } else {
                SpecStep { gpr, mem, dnpc: snpc, result: Err(EmuError::OutOfBoundAccess(addr)) }
            }
        },
        Effect::LoadByteUnsigned => {
            let addr = wrap_add(args.src1, args.imm);
            if access_ok(addr, 1) {
                SpecStep {
                    gpr: gpr.update(args.rd as int, (mem[addr - MBASE] as u32)),
                    mem,
                    dnpc: snpc,
                    result: Ok(StepOutcome::Continue),
                }
            } else {
                SpecStep { gpr, mem, dnpc: snpc, result: Err(EmuError::OutOfBoundAccess(addr)) }
            }
        },
        Effect::JumpAndLink => SpecStep {
            gpr: gpr.update(args.rd as int, snpc),
            mem,
            dnpc: wrap_add(pc, args.imm),
            result: Ok(StepOutcome::Continue),
        },
        Effect::Trap => SpecStep {
            gpr,
            mem,
            dnpc: snpc,
            result: Ok(StepOutcome::Halt { code: gpr[10] }),
        },
    }
}

/// One whole step from the state seen at entry: fetch the word at `pc`,
/// resolve it against the registry, decode its operands, apply its effect,
/// and force register 0 back to zero.  A fetch outside the window or an
/// unmatched word fails and leaves registers and memory unchanged.
pub open spec fn spec_step(table: Seq<Decoder>, pc: Vaddr, gpr: Seq<Word>, mem: Seq<u8>) -> SpecStep {
    if !access_ok(pc, 4) {
        SpecStep { gpr, mem, dnpc: pc, result: Err(EmuError::OutOfBoundAccess(pc)) }
    } else {
        let snpc = ((pc + 4) as Vaddr);
        let inst = spec_word_at(mem, pc - MBASE);
        match spec_resolve(table, inst) {
            None => SpecStep { gpr, mem, dnpc: snpc, result: Err(EmuError::InvalidInstruction(pc)) },
            Some(d) => {
                let args = spec_decode_args(d.typ, inst, gpr);
                let post = spec_apply(d.effect, args, pc, snpc, gpr, mem);
                if post.result is Err {
                    post
                } else {
                    SpecStep {
                        gpr: post.gpr.update(0, 0),
                        mem: post.mem,
                        dnpc: post.dnpc,
                        result: post.result,
                    }
                }
            },
        }
    }
}

/// A registry entry compiled from a pattern recognises exactly the words
/// that agree with the pattern's literal bits: wildcard positions, trailing
/// or not, never take part in the comparison, so the resolution of a word
/// depends only on the literals of each entry's pattern.
pub proof fn lemma_entry_matches_characterization(
    p: Seq<char>,
    typ: OperandType,
    effect: Effect,
    word: Word,
)
    requires
        spec_entry(p, typ, effect) is Some,
        crate::decode::syms(p).len() <= 64,
    ensures
        spec_entry(p, typ, effect).unwrap().spec_matches(word) <==> crate::decode::literals_agree(
            crate::decode::syms(p),
            word as u64,
        ),
{
    crate::decode::lemma_pattern_match_characterization(p, word as u64);
}

/// Register 0 reads zero after any step that executed, whatever the
/// resolved action attempted to write to it: the step's final move forces
/// it back.
pub proof fn lemma_reg0_zero_after_step(
    table: Seq<Decoder>,
    pc: Vaddr,
    gpr: Seq<Word>,
    mem: Seq<u8>,
)
    requires
        gpr.len() == 32,
        spec_step(table, pc, gpr, mem).result is Ok,
    ensures
        spec_step(table, pc, gpr, mem).gpr[0] == 0,
{
    let st = spec_step(table, pc, gpr, mem);
    assert(access_ok(pc, 4));
    let inst = spec_word_at(mem, pc - MBASE);
    match spec_resolve(table, inst) {
        None => {
            assert(st.result is Err);
        },
        Some(d) => {
            let args = spec_decode_args(d.typ, inst, gpr);
            lemma_reg_field_bound(inst, 11, 7);
            assert(args.rd < 32);
            let post = spec_apply(d.effect, args, pc, ((pc + 4) as Vaddr), gpr, mem);
            assert(post.gpr.len() == 32);
            assert(st.gpr == post.gpr.update(0, 0));
        },
    }
}

/// The standard registry: ordered entries for the upper-immediate add, the
/// byte store, the unsigned byte load, the jump-and-link, and the halt
/// trap.  Appending one entry extends the instruction set; entries for
/// legal encodings never overlap.
pub open spec fn spec_standard_decoders() -> Seq<Decoder> {
    opt_seq(spec_entry("??????? ????? ????? ??? ????? 00101 11"@, OperandType::U, Effect::AddUpperImmPc))
        + opt_seq(spec_entry("??????? ????? ????? 000 ????? 01000 11"@, OperandType::S, Effect::StoreByte))
        + opt_seq(spec_entry("??????? ????? ????? 100 ????? 00000 11"@, OperandType::I, Effect::LoadByteUnsigned))
        + opt_seq(spec_entry("??????? ????? ????? ??? ????? 11011 11"@, OperandType::J, Effect::JumpAndLink))
        + opt_seq(spec_entry("0000000 00001 00000 000 00000 11100 11"@, OperandType::N, Effect::Trap))
}

/// An optional entry as a sequence: the entry alone, or nothing.
pub open spec fn opt_seq(d: Option<Decoder>) -> Seq<Decoder> {
    match d {
        Some(e) => seq![e],
        None => Seq::empty(),
    }
}

/// The step engine: the three program counters of the protocol, the word
/// being decoded, and the registry resolved against.
pub struct Executer {
    pub pc: Vaddr,
    pub snpc: Vaddr,
    pub dnpc: Vaddr,
    pub isa: Riscv32ISADecodeInfo,
    pub decoders: Vec<Decoder>,
}

impl Executer {
    /// Every registry entry admits the match rule.
    pub open spec fn wf(&self) -> bool {
        forall|i: int| 0 <= i < self.decoders@.len() ==> (#[trigger] self.decoders@[i]).wf()
    }

    /// A fresh engine over the standard registry.
    pub fn new() -> (r: Self)
        ensures
            r.wf(),
            r.decoders@ == spec_standard_decoders(),
            r.pc == 0 && r.snpc == 0 && r.dnpc == 0 && r.isa.inst == 0,
    {
        let mut decoders: Vec<Decoder> = Vec::new();
        if let Some(d) = Decoder::new(
            "??????? ????? ????? ??? ????? 00101 11",
            OperandType::U,
            Effect::AddUpperImmPc,
        ) {
            decoders.push(d);
        }
        if let Some(d) = Decoder::new(
            "??????? ????? ????? 000 ????? 01000 11",
            OperandType::S,
            Effect::StoreByte,
        ) {
            decoders.push(d);
        }
        if let Some(d) = Decoder::new(
            "??????? ????? ????? 100 ????? 00000 11",
            OperandType::I,
            Effect::LoadByteUnsigned,
        ) {
            decoders.push(d);
        }
        if let Some(d) = Decoder::new(
            "??????? ????? ????? ??? ????? 11011 11",
            OperandType::J,
            Effect::JumpAndLink,
        ) {
            decoders.push(d);
        }
        if let Some(d) = Decoder::new(
            "0000000 00001 00000 000 00000 11100 11",
            OperandType::N,
            Effect::Trap,
        ) {
            decoders.push(d);
        }
        proof {
            assert(decoders@ =~= spec_standard_decoders());
        }
        Executer { pc: 0, snpc: 0, dnpc: 0, isa: Riscv32ISADecodeInfo { inst: 0 }, decoders }
    }

    /// Sets the pc of the instruction about to be decoded.
    pub fn set_pc(&mut self, pc: Vaddr)
        ensures
            *final(self) == (Executer { pc, ..*old(self) }),
    {
        self.pc = pc;
    }

    /// Sets the fetch cursor.
    pub fn set_snpc(&mut self, snpc: Vaddr)
        ensures
            *final(self) == (Executer { snpc, ..*old(self) }),
    {
        self.snpc = snpc;
    }

    /// Reads the committed candidate next pc.
    pub fn dnpc(&self) -> (r: Vaddr)
        ensures
            r == self.dnpc,
    {
        self.dnpc
    }

    /// Finds the first registry entry matching `word`.
    fn resolve(&self, word: Word) -> (r: Option<Decoder>)
        requires
            self.wf(),
        ensures
            r == spec_resolve(self.decoders@, word),
    {
        let n = self.decoders.len();
        let mut i: usize = 0;
        proof {
            assert(self.decoders@.skip(0) =~= self.decoders@);
        }
        while i < n
            invariant
                n == self.decoders@.len(),
                i <= n,
                self.wf(),
                spec_resolve(self.decoders@, word) == spec_resolve(
                    self.decoders@.skip(i as int),
                    word,
                ),
            decreases n - i,
        {
            let ghost rest = self.decoders@.skip(i as int);
            proof {
                assert(rest.len() > 0);
                assert(rest.first() == self.decoders@[i as int]);
                assert(rest.drop_first() =~= self.decoders@.skip(i + 1));
            }
            let d = self.decoders[i];
            if d.matches(word) {
                return Some(d);
            }
            i = i + 1;
        }
        proof {
            assert(self.decoders@.skip(n as int).len() == 0);
        }
        None
    }

    /// Runs one instruction: fetch at the cursor, resolve, decode
    /// operands, apply the effect, restore register 0, and leave the
    /// candidate next pc ready to commit.  Failures name the failing
    /// address and leave registers and memory untouched.
    pub fn exec_once(&mut self, cpu: &mut Riscv32, mem: &mut MemoryBank) -> (r: Result<
        StepOutcome,
        EmuError,
    >)
        requires
            old(self).wf(),
            old(cpu).wf(),
            old(mem).wf(),
            old(self).snpc == old(self).pc,
        ensures
            ({
                let st = spec_step(
                    old(self).decoders@,
                    old(self).pc,
                    old(cpu).spec_gpr(),
                    old(mem).spec_mem(),
                );
                &&& final(self).wf()
                &&& final(cpu).wf()
                &&& final(mem).wf()
                &&& final(self).pc == old(self).pc
                &&& final(self).decoders@ == old(self).decoders@
                &&& final(cpu).spec_pc() == old(cpu).spec_pc()
                &&& r == st.result
                &&& final(cpu).spec_gpr() == st.gpr
                &&& final(mem).spec_mem() == st.mem
                &&& access_ok(old(self).pc, 4) ==> {
                    &&& final(self).dnpc == st.dnpc
                    &&& final(self).snpc == old(self).pc + 4
                    &&& final(self).isa.inst == spec_word_at(
                        old(mem).spec_mem(),
                        old(self).pc - MBASE,
                    )
                }
                &&& !access_ok(old(self).pc, 4) ==> *final(self) == *old(self)
            }),
    {
        let word = match mem.inst_fetch(&mut self.snpc, 4) {
            Ok(w) => w,
            Err(e) => {
                return Err(e);
            },
        };
        self.isa = Riscv32ISADecodeInfo { inst: word };
        self.dnpc = self.snpc;
        let resolved = self.resolve(word);
        match resolved {
            None => Err(EmuError::InvalidInstruction(self.pc)),
            Some(d) => {
                let args = decode_args(d.typ, word, cpu);
                proof {
                    lemma_reg_field_bound(word, 19, 15);
                    lemma_reg_field_bound(word, 24, 20);
                    lemma_reg_field_bound(word, 11, 7);
                }
                match d.effect {
                    Effect::AddUpperImmPc => {
                        cpu.set_reg(args.rd, self.pc.wrapping_add(args.imm));
                    },
                    Effect::StoreByte => {
                        let addr = args.src1.wrapping_add(args.imm);
                        match mem.write_u8(addr, (args.src2 & 0xff) as u8) {
                            Ok(()) => {},
                            Err(e) => {
                                return Err(e);
                            },
                        }
                    },
                    Effect::LoadByteUnsigned => {
                        let addr = args.src1.wrapping_add(args.imm);
                        match mem.read_u8(addr) {
                            Ok(b) => {
                                cpu.set_reg(args.rd, b as u32);
                            },
                            Err(e) => {
                                return Err(e);
                            },
                        }
                    },
                    Effect::JumpAndLink => {
                        cpu.set_reg(args.rd, self.snpc);
                        self.dnpc = self.pc.wrapping_add(args.imm);
                    },
                    Effect::Trap => {
                        let code = cpu.reg(10);
                        cpu.set_reg(0, 0);
                        return Ok(StepOutcome::Halt { code });
                    },
                }
                cpu.set_reg(0, 0);
                Ok(StepOutcome::Continue)
            },
        }
    }
}

} // verus!
