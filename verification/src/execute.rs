use std::collections::HashMap;
use vstd::prelude::*;

use crate::calc::{
    as_signed, se_6, se_8, spec_add16, spec_se_6, spec_se_8, spec_sha, spec_shl, spec_sub16, Reg,
};
use crate::isa::{Instruction, RegLabel};
use crate::memory::{spec_get_byte, spec_get_word, spec_insert_word, MemAddr, Memory};
use crate::Instructions;

verus! {

broadcast use vstd::std_specs::hash::group_hash_axioms, vstd::array::group_array_axioms;

/// Maximum allowed number of instructions to be run, to avoid generating
/// unbounded output from non-halting programs.
pub const MAX_INSTRUCTION_RUN_SIZE: usize = 10000;

/// The program counter: the address of the next instruction to execute.
/// It advances by 2 per step, since instructions sit at even addresses only,
/// and may be overwritten by branch instructions.
#[derive(Clone, Copy, PartialEq, Eq, Structural, Debug)]
pub struct ProgCounter(pub u16);

/// A full 16-bit value, as held by an IO port.
#[derive(Clone, Copy, PartialEq, Eq, Structural, Debug)]
pub struct Value16Bit(pub u16);

impl ProgCounter {
    /// Advance the address by 2: instructions are a word long and sit at the
    /// even addresses only.
    pub fn advance(&mut self)
        ensures
            final(self).0 == spec_add16(old(self).0, 2),
    {
        self.0 = self.0.wrapping_add(2);
    }
}

/// The eight registers of the register file.
#[derive(Debug)]
pub struct Registers(pub [Reg; 8]);

impl View for Registers {
    type V = Seq<u16>;

    open spec fn view(&self) -> Seq<u16> {
        Seq::new(8, |i: int| self.0[i].0)
    }
}

impl Registers {
    /// Read one register.
    pub fn get(&self, l: RegLabel) -> (r: Reg)
        requires
            l.wf(),
        ensures
            r.0 == self@[l.0 as int],
    {
        self.0[l.0 as usize]
    }

    /// Overwrite one register.
    pub fn set(&mut self, l: RegLabel, v: Reg)
        requires
            l.wf(),
        ensures
            final(self)@ == old(self)@.update(l.0 as int, v.0),
    {
        self.0[l.0 as usize] = v;
        proof {
            assert(self@ =~= old(self)@.update(l.0 as int, v.0));
        }
    }
}

impl Default for Registers {
    /// All eight registers start at zero.
    fn default() -> (r: Registers)
        ensures
            r@.len() == 8,
            forall|i: int| 0 <= i < 8 ==> r@[i] == 0u16,
    {
        Registers([Reg(0);8])
    }
}

/// The currently held values of the INPUT system, one 16-bit value per port
/// address. The output side is an observable print event, not a memory write.
#[derive(Debug)]
pub struct IOSystem(pub HashMap<u16, Value16Bit>);

impl View for IOSystem {
    type V = Map<u16, Value16Bit>;

    open spec fn view(&self) -> Map<u16, Value16Bit> {
        self.0@
    }
}

impl IOSystem {
    /// Read one port, if it is defined.
    pub fn get(&self, index: &MemAddr) -> (r: Option<Value16Bit>)
        ensures
            r == (if self@.contains_key(index.0) {
                Some(self@[index.0])
            } else {
                None::<Value16Bit>
            }),
    {
        match self.0.get(&index.0) {
            Some(v) => Some(*v),
            None => None,
        }
    }
}

/// How many instructions of each kind have been executed: memory
/// instructions are the slow path, all others the fast path.
#[derive(Clone, Copy, PartialEq, Eq, Structural, Debug)]
pub struct NumInstruccions {
    /// Instructions that did not touch memory.
    pub fast: u64,
    /// Instructions that went through the memory subsystem.
    pub slow: u64,
}

/// One observable OUT print: the port address and the value sent to it.
#[derive(Clone, Copy, PartialEq, Eq, Structural, Debug)]
pub struct OutEvent {
    /// The port address the value was printed on.
    pub addr: u16,
    /// The 16-bit value printed.
    pub value: u16,
}

/// A runtime access fault: the fetch-free errors an instruction can raise.
#[derive(Clone, Copy, PartialEq, Eq, Structural, Debug)]
pub enum ExecError {
    /// A word load found either byte of the pair uninitialized.
    UninitializedWord {
        /// The effective address of the failed load.
        addr: u16,
    },
    /// A byte load found the address uninitialized.
    UninitializedByte {
        /// The effective address of the failed load.
        addr: u16,
    },
    /// An IN instruction read a port that was never defined.
    UndefinedIo {
        /// The port address of the failed read.
        addr: u16,
    },
}

/// What one fetch step observed: either there was no instruction at the
/// program counter (the run ends cleanly) or one instruction ran.
#[derive(Clone, Copy, PartialEq, Eq, Structural, Debug)]
pub enum StepOutcome {
    /// No instruction at the program counter: clean termination.
    Halted,
    /// One instruction ran, with its OUT print if it made one.
    Ran(Option<OutEvent>),
}

/// The mathematical state of the machine: register contents, byte memory,
/// IO ports, program counter and the two instruction counters.
#[verifier::ext_equal]
pub struct MachineView {
    /// The eight register values.
    pub regs: Seq<u16>,
    /// The byte store.
    pub mem: Map<u16, u8>,
    /// The IO port values.
    pub io: Map<u16, Value16Bit>,
    /// The program counter.
    pub pc: u16,
    /// Count of executed non-memory instructions.
    pub fast: u64,
    /// Count of executed memory instructions.
    pub slow: u64,
}

/// The full abstract state of a processor: machine state plus the immutable
/// instruction store.
#[verifier::ext_equal]
pub struct ProcView {
    /// The mutable machine state.
    pub st: MachineView,
    /// The instruction store, read-only once built.
    pub instrs: Map<u16, Instruction>,
}

/// What one instruction leaves behind: the next machine state, the OUT print
/// if one was made, and the fault if one was raised. On a fault only the
/// instruction counters have moved.
pub struct StepSpec {
    /// The machine state after the instruction.
    pub st: MachineView,
    /// The OUT print, if the instruction made one.
    pub out: Option<OutEvent>,
    /// The fault, if the instruction raised one.
    pub err: Option<ExecError>,
}

/// Saturating increment of an execution counter.
pub open spec fn sat_inc(c: u64) -> u64 {
    if c < u64::MAX {
        (c + 1) as u64
    } else {
        c
    }
}

/// Charge the instruction to the fast or the slow counter.
pub open spec fn bump_counts(s: MachineView, inst: Instruction) -> MachineView {
    if inst.spec_is_mem() {
        MachineView { slow: sat_inc(s.slow), ..s }
    } else {
        MachineView { fast: sat_inc(s.fast), ..s }
    }
}

/// The value of one register.
pub open spec fn rv(s: MachineView, a: RegLabel) -> u16 {
    s.regs[a.0 as int]
}

/// The state with one register overwritten.
pub open spec fn with_reg(s: MachineView, d: RegLabel, v: u16) -> MachineView {
    MachineView { regs: s.regs.update(d.0 as int, v), ..s }
}

/// Wrapping multiplication of a 16-bit branch displacement by 2.
pub open spec fn spec_mul2(x: u16) -> u16 {
    vstd::wrapping::u16_specs::wrapping_mul(x, 2)
}

/// A successful step without an OUT print.
pub open spec fn step_ok(st: MachineView) -> StepSpec {
    StepSpec { st, out: None, err: None }
}

/// A successful step with an OUT print.
pub open spec fn step_out(st: MachineView, ev: OutEvent) -> StepSpec {
    StepSpec { st, out: Some(ev), err: None }
}

/// A faulted step: only the counters have moved.
pub open spec fn step_fail(st: MachineView, e: ExecError) -> StepSpec {
    StepSpec { st, out: None, err: Some(e) }
}

/// 1 for a comparison that holds, 0 for one that does not.
pub open spec fn cmp_val(b: bool) -> u16 {
    if b {
        1u16
    } else {
        0u16
    }
}

/// The semantics of one instruction applied to a machine state: the engine's
/// decode-dispatch table in mathematical form. Branch targets are relative to
/// the program counter as it stands after the fetch advanced it.
pub open spec fn step_spec(s: MachineView, inst: Instruction) -> StepSpec {
    let s1 = bump_counts(s, inst);
    match inst {
        Instruction::AND { a, b, d } => step_ok(with_reg(s1, d, rv(s1, a) & rv(s1, b))),
        Instruction::OR { a, b, d } => step_ok(with_reg(s1, d, rv(s1, a) | rv(s1, b))),
        Instruction::XOR { a, b, d } => step_ok(with_reg(s1, d, rv(s1, a) ^ rv(s1, b))),
        Instruction::NOT { a, d } => step_ok(with_reg(s1, d, !rv(s1, a))),
        Instruction::ADD { a, b, d } => step_ok(
            with_reg(s1, d, spec_add16(rv(s1, a), rv(s1, b))),
        ),
        Instruction::SUB { a, b, d } => step_ok(
            with_reg(s1, d, spec_sub16(rv(s1, a), rv(s1, b))),
        ),
        Instruction::SHA { a, b, d } => step_ok(with_reg(s1, d, spec_sha(rv(s1, a), rv(s1, b)))),
        Instruction::SHL { a, b, d } => step_ok(with_reg(s1, d, spec_shl(rv(s1, a), rv(s1, b)))),
        Instruction::CMPLT { a, b, d } => step_ok(
            with_reg(s1, d, cmp_val(as_signed(rv(s1, a)) < as_signed(rv(s1, b)))),
        ),
        Instruction::CMPLE { a, b, d } => step_ok(
            with_reg(s1, d, cmp_val(as_signed(rv(s1, a)) <= as_signed(rv(s1, b)))),
        ),
        Instruction::CMPEQ { a, b, d } => step_ok(
            with_reg(s1, d, cmp_val(rv(s1, a) == rv(s1, b))),
        ),
        Instruction::CMPLTU { a, b, d } => step_ok(
            with_reg(s1, d, cmp_val(rv(s1, a) < rv(s1, b))),
        ),
        Instruction::CMPLEU { a, b, d } => step_ok(
            with_reg(s1, d, cmp_val(rv(s1, a) <= rv(s1, b))),
        ),
        Instruction::ADDI { a, b, d } => step_ok(
            with_reg(s1, d, spec_add16(rv(s1, a), spec_se_6(b.0))),
        ),
        Instruction::LD { d, a, offset } => {
            let ea = spec_add16(rv(s1, a), spec_se_6(offset.0));
            match spec_get_word(s1.mem, ea) {
                Some(w) => step_ok(with_reg(s1, d, w)),
                None => step_fail(s1, ExecError::UninitializedWord { addr: ea }),
            }
        },
        Instruction::LDB { d, a, offset } => {
            let ea = spec_add16(rv(s1, a), spec_se_6(offset.0));
            match spec_get_byte(s1.mem, ea) {
                Some(b) => step_ok(with_reg(s1, d, spec_se_8(b))),
                None => step_fail(s1, ExecError::UninitializedByte { addr: ea }),
            }
        },
        Instruction::ST { offset, a, b } => {
            let ea = spec_add16(rv(s1, a), spec_se_6(offset.0));
            step_ok(MachineView { mem: spec_insert_word(s1.mem, ea, rv(s1, b)), ..s1 })
        },
        Instruction::STB { offset, a, b } => {
            let ea = spec_add16(rv(s1, a), spec_se_6(offset.0));
            step_ok(
                MachineView { mem: s1.mem.insert(ea, (rv(s1, b) & 0xF) as u8), ..s1 },
            )
        },
        Instruction::BZ { a, offset } => {
            if rv(s1, a) == 0 {
                step_ok(
                    MachineView { pc: spec_add16(s1.pc, spec_mul2(spec_se_8(offset.0))), ..s1 },
                )
            } else {
                step_ok(s1)
            }
        },
        Instruction::BNZ { a, offset } => {
            if rv(s1, a) != 0 {
                step_ok(
                    MachineView { pc: spec_add16(s1.pc, spec_mul2(spec_se_8(offset.0))), ..s1 },
                )
            } else {
                step_ok(s1)
            }
        },
        Instruction::MOVI { d, n } => step_ok(with_reg(s1, d, spec_se_8(n.0))),
        Instruction::MOVHI { d, n } => step_ok(
            with_reg(s1, d, rv(s1, d) | ((n.0 as u16) << 8)),
        ),
        Instruction::IN { d, n } => {
            if s1.io.contains_key(n.0) {
                step_ok(with_reg(s1, d, s1.io[n.0].0))
            } else {
                step_fail(s1, ExecError::UndefinedIo { addr: n.0 })
            }
        },
        Instruction::OUT { d, n } => step_out(s1, OutEvent { addr: d.0, value: rv(s1, n) }),
        Instruction::JALR { a, d } => {
            let regs2 = s1.regs.update(d.0 as int, s1.pc);
            step_ok(MachineView { regs: regs2, pc: regs2[a.0 as int], ..s1 })
        },
        Instruction::NOP => step_ok(s1),
    }
}

/// Whether the instruction may write the program counter itself.
pub open spec fn is_branch(inst: Instruction) -> bool {
    match inst {
        Instruction::BZ { .. } => true,
        Instruction::BNZ { .. } => true,
        Instruction::JALR { .. } => true,
        _ => false,
    }
}

/// Every instruction of a store is well formed.
pub open spec fn wf_instr_map(m: Map<u16, Instruction>) -> bool {
    forall|k: u16| m.contains_key(k) ==> (#[trigger] m[k]).wf()
}

/// Absent a branch, one instruction leaves the program counter untouched.
pub proof fn lemma_nonbranch_keeps_pc(s: MachineView, inst: Instruction)
    requires
        !is_branch(inst),
    ensures
        step_spec(s, inst).st.pc == s.pc,
{
}

/// A not-taken branch leaves the program counter untouched; a taken branch
/// sets it to the fetch-advanced counter plus twice the sign-extended 8-bit
/// displacement. Taken means: the register is zero for BZ, nonzero for BNZ.
pub proof fn lemma_branch_pc(s: MachineView, a: RegLabel, offset: crate::isa::ImmediateN8)
    ensures
        step_spec(s, Instruction::BZ { a, offset }).st.pc == (if rv(s, a) == 0 {
            spec_add16(s.pc, spec_mul2(spec_se_8(offset.0)))
        } else {
            s.pc
        }),
        step_spec(s, Instruction::BNZ { a, offset }).st.pc == (if rv(s, a) != 0 {
            spec_add16(s.pc, spec_mul2(spec_se_8(offset.0)))
        } else {
            s.pc
        }),
{
}

/// Signed 16-bit less-than on the two's-complement reading.
pub fn signed_lt(a: u16, b: u16) -> (r: bool)
    ensures
        r == (as_signed(a) < as_signed(b)),
{
    let sa = a >= 0x8000;
    let sb = b >= 0x8000;
    if sa != sb {
        sa
    } else {
        a < b
    }
}

/// Signed 16-bit less-or-equal on the two's-complement reading.
pub fn signed_le(a: u16, b: u16) -> (r: bool)
    ensures
        r == (as_signed(a) <= as_signed(b)),
{
    let sa = a >= 0x8000;
    let sb = b >= 0x8000;
    if sa != sb {
        sa
    } else {
        a <= b
    }
}

/// The main processor: it owns the register file, data memory, IO ports,
/// program counter and instruction store, and runs the fetch-decode-execute
/// cycle one step at a time.
pub struct Processador {
    /// The register file.
    pub regs: Registers,
    /// The byte-addressable data memory.
    pub memory: Memory,
    /// The IO port values.
    pub io: IOSystem,
    /// The instruction store: one instruction per even address.
    pub instr_memory: Instructions,
    /// The program counter.
    pub pc: ProgCounter,
    /// How many fast and slow instructions have run.
    pub instrs_fetes: NumInstruccions,
}

impl View for Processador {
    type V = ProcView;

    open spec fn view(&self) -> ProcView {
        ProcView {
            st: MachineView {
                regs: self.regs@,
                mem: self.memory@,
                io: self.io@,
                pc: self.pc.0,
                fast: self.instrs_fetes.fast,
                slow: self.instrs_fetes.slow,
            },
            instrs: self.instr_memory@,
        }
    }
}

impl Processador {
    /// Create a new Processador from a starting state. No cross-field
    /// validation is performed.
    pub fn new(
        init_regs: Registers,
        init_mem: Memory,
        init_pc: ProgCounter,
        instructions: Instructions,
        init_io: HashMap<u16, Value16Bit>,
    ) -> (r: Processador)
        ensures
            r@.st.regs == init_regs@,
            r@.st.mem == init_mem@,
            r@.st.io == init_io@,
            r@.st.pc == init_pc.0,
            r@.st.fast == 0 && r@.st.slow == 0,
            r@.instrs == instructions@,
    {
        Processador {
            regs: init_regs,
            memory: init_mem,
            pc: init_pc,
            instr_memory: instructions,
            io: IOSystem(init_io),
            instrs_fetes: NumInstruccions { fast: 0, slow: 0 },
        }
    }

    /// Replace the IO port map between steps, modeling external device
    /// changes. Everything else stays as it was.
    pub fn update_io(&mut self, new_io: HashMap<u16, Value16Bit>)
        ensures
            final(self)@.st.io == new_io@,
            final(self)@.st.regs == old(self)@.st.regs,
            final(self)@.st.mem == old(self)@.st.mem,
            final(self)@.st.pc == old(self)@.st.pc,
            final(self)@.st.fast == old(self)@.st.fast,
            final(self)@.st.slow == old(self)@.st.slow,
            final(self)@.instrs == old(self)@.instrs,
    {
        self.io = IOSystem(new_io);
    }

    /// Apply exactly one instruction's semantics to the current state,
    /// without going through the program counter. The result carries the OUT
    /// print if one was made, or the runtime fault if one was raised; on a
    /// fault only the instruction counters have moved.
    pub fn execute_raw(&mut self, inst: &Instruction) -> (r: Result<Option<OutEvent>, ExecError>)
        requires
            inst.wf(),
        ensures
            final(self)@.st == step_spec(old(self)@.st, *inst).st,
            final(self)@.instrs == old(self)@.instrs,
            r == (if step_spec(old(self)@.st, *inst).err is Some {
                Err::<Option<OutEvent>, ExecError>(step_spec(old(self)@.st, *inst).err->Some_0)
            } else {
                Ok::<Option<OutEvent>, ExecError>(step_spec(old(self)@.st, *inst).out)
            }),
    {
        if inst.is_mem() {
            if self.instrs_fetes.slow < u64::MAX {
                self.instrs_fetes.slow = self.instrs_fetes.slow + 1;
            }
        } else {
            if self.instrs_fetes.fast < u64::MAX {
                self.instrs_fetes.fast = self.instrs_fetes.fast + 1;
            }
        }
        proof {
            assert(self@.st =~= bump_counts(old(self)@.st, *inst));
        }
        let ghost s1 = bump_counts(old(self)@.st, *inst);
        match inst {
            Instruction::AND { a, b, d } => {
                let v = self.regs.get(*a).0 & self.regs.get(*b).0;
                self.regs.set(*d, Reg(v));
                proof {
                    assert(self@.st =~= step_spec(old(self)@.st, *inst).st);
                }
                Ok(None)
            },
            Instruction::OR { a, b, d } => {
                let v = self.regs.get(*a).0 | self.regs.get(*b).0;
                self.regs.set(*d, Reg(v));
                proof {
                    assert(self@.st =~= step_spec(old(self)@.st, *inst).st);
                }
                Ok(None)
            },
            Instruction::XOR { a, b, d } => {
                let v = self.regs.get(*a).0 ^ self.regs.get(*b).0;
                self.regs.set(*d, Reg(v));
                proof {
                    assert(self@.st =~= step_spec(old(self)@.st, *inst).st);
                }
                Ok(None)
            },
            Instruction::NOT { a, d } => {
                let v = !self.regs.get(*a).0;
                self.regs.set(*d, Reg(v));
                proof {
                    assert(self@.st =~= step_spec(old(self)@.st, *inst).st);
                }
                Ok(None)
            },
            Instruction::ADD { a, b, d } => {
                let v = self.regs.get(*a).0.wrapping_add(self.regs.get(*b).0);
                self.regs.set(*d, Reg(v));
                proof {
                    assert(self@.st =~= step_spec(old(self)@.st, *inst).st);
                }
                Ok(None)
            },
            Instruction::SUB { a, b, d } => {
                let v = self.regs.get(*a).0.wrapping_sub(self.regs.get(*b).0);
                self.regs.set(*d, Reg(v));
                proof {
                    assert(self@.st =~= step_spec(old(self)@.st, *inst).st);
                }
                Ok(None)
            },
            Instruction::SHA { a, b, d } => {
                let v = self.regs.get(*a).sha(self.regs.get(*b));
                self.regs.set(*d, v);
                proof {
                    assert(self@.st =~= step_spec(old(self)@.st, *inst).st);
                }
                Ok(None)
            },
            Instruction::SHL { a, b, d } => {
                let v = self.regs.get(*a).shl(self.regs.get(*b));
                self.regs.set(*d, v);
                proof {
                    assert(self@.st =~= step_spec(old(self)@.st, *inst).st);
                }
                Ok(None)
            },
            Instruction::CMPLT { a, b, d } => {
                let c = signed_lt(self.regs.get(*a).0, self.regs.get(*b).0);
                self.regs.set(*d, Reg(if c { 1 } else { 0 }));
                proof {
                    assert(self@.st =~= step_spec(old(self)@.st, *inst).st);
                }
                Ok(None)
            },
            Instruction::CMPLE { a, b, d } => {
                let c = signed_le(self.regs.get(*a).0, self.regs.get(*b).0);
                self.regs.set(*d, Reg(if c { 1 } else { 0 }));
                proof {
                    assert(self@.st =~= step_spec(old(self)@.st, *inst).st);
                }
                Ok(None)
            },
            Instruction::CMPEQ { a, b, d } => {
                let c = self.regs.get(*a).0 == self.regs.get(*b).0;
                self.regs.set(*d, Reg(if c { 1 } else { 0 }));
                proof {
                    assert(self@.st =~= step_spec(old(self)@.st, *inst).st);
                }
                Ok(None)
            },
            Instruction::CMPLTU { a, b, d } => {
                let c = self.regs.get(*a).0 < self.regs.get(*b).0;
                self.regs.set(*d, Reg(if c { 1 } else { 0 }));
                proof {
                    assert(self@.st =~= step_spec(old(self)@.st, *inst).st);
                }
                Ok(None)
            },
            Instruction::CMPLEU { a, b, d } => {
                let c = self.regs.get(*a).0 <= self.regs.get(*b).0;
                self.regs.set(*d, Reg(if c { 1 } else { 0 }));
                proof {
                    assert(self@.st =~= step_spec(old(self)@.st, *inst).st);
                }
                Ok(None)
            },
            Instruction::ADDI { a, b, d } => {
                let v = self.regs.get(*a).0.wrapping_add(se_6(b.0));
                self.regs.set(*d, Reg(v));
                proof {
                    assert(self@.st =~= step_spec(old(self)@.st, *inst).st);
                }
                Ok(None)
            },
            Instruction::LD { d, a, offset } => {
                let ea = self.regs.get(*a).0.wrapping_add(se_6(offset.0));
                match self.memory.get_word(&MemAddr(ea)) {
                    Some(w) => {
                        self.regs.set(*d, Reg(w));
                        proof {
                            assert(self@.st =~= step_spec(old(self)@.st, *inst).st);
                        }
                        Ok(None)
                    },
                    None => {
                        proof {
                            assert(self@.st =~= step_spec(old(self)@.st, *inst).st);
                        }
                        Err(ExecError::UninitializedWord { addr: ea })
                    },
                }
            },
            Instruction::LDB { d, a, offset } => {
                let ea = self.regs.get(*a).0.wrapping_add(se_6(offset.0));
                match self.memory.get_byte(&MemAddr(ea)) {
                    Some(b) => {
                        self.regs.set(*d, Reg(se_8(b)));
                        proof {
                            assert(self@.st =~= step_spec(old(self)@.st, *inst).st);
                        }
                        Ok(None)
                    },
                    None => {
                        proof {
                            assert(self@.st =~= step_spec(old(self)@.st, *inst).st);
                        }
                        Err(ExecError::UninitializedByte { addr: ea })
                    },
                }
            },
            Instruction::ST { offset, a, b } => {
                let ea = self.regs.get(*a).0.wrapping_add(se_6(offset.0));
                let v = self.regs.get(*b).0;
                self.memory.insert_word(&MemAddr(ea), v);
                proof {
                    assert(self@.st =~= step_spec(old(self)@.st, *inst).st);
                }
                Ok(None)
            },
            Instruction::STB { offset, a, b } => {
                let ea = self.regs.get(*a).0.wrapping_add(se_6(offset.0));
                let v = (self.regs.get(*b).0 & 0xF) as u8;
                self.memory.insert_byte(&MemAddr(ea), v);
                proof {
                    assert(self@.st =~= step_spec(old(self)@.st, *inst).st);
                }
                Ok(None)
            },
            Instruction::BZ { a, offset } => {
                if self.regs.get(*a).0 == 0 {
                    self.pc.0 = self.pc.0.wrapping_add(se_8(offset.0).wrapping_mul(2));
                }
                proof {
                    assert(self@.st =~= step_spec(old(self)@.st, *inst).st);
                }
                Ok(None)
            },
            Instruction::BNZ { a, offset } => {
                if self.regs.get(*a).0 != 0 {
                    self.pc.0 = self.pc.0.wrapping_add(se_8(offset.0).wrapping_mul(2));
                }
                proof {
                    assert(self@.st =~= step_spec(old(self)@.st, *inst).st);
                }
                Ok(None)
            },
            Instruction::MOVI { d, n } => {
                self.regs.set(*d, Reg(se_8(n.0)));
                proof {
                    assert(self@.st =~= step_spec(old(self)@.st, *inst).st);
                }
                Ok(None)
            },
            Instruction::MOVHI { d, n } => {
                let v = self.regs.get(*d).0 | ((n.0 as u16) << 8);
                self.regs.set(*d, Reg(v));
                proof {
                    assert(self@.st =~= step_spec(old(self)@.st, *inst).st);
                }
                Ok(None)
            },
            Instruction::IN { d, n } => {
                match self.io.get(&MemAddr(n.0)) {
                    Some(v) => {
                        self.regs.set(*d, Reg(v.0));
                        proof {
                            assert(self@.st =~= step_spec(old(self)@.st, *inst).st);
                        }
                        Ok(None)
                    },
                    None => {
                        proof {
                            assert(self@.st =~= step_spec(old(self)@.st, *inst).st);
                        }
                        Err(ExecError::UndefinedIo { addr: n.0 })
                    },
                }
            },
            Instruction::OUT { d, n } => {
                let ev = OutEvent { addr: d.0, value: self.regs.get(*n).0 };
                proof {
                    assert(self@.st =~= step_spec(old(self)@.st, *inst).st);
                }
                Ok(Some(ev))
            },
            Instruction::JALR { a, d } => {
                let link = self.pc.0;
                self.regs.set(*d, Reg(link));
                self.pc.0 = self.regs.get(*a).0;
                proof {
                    assert(self@.st =~= step_spec(old(self)@.st, *inst).st);
                }
                Ok(None)
            },
            Instruction::NOP => {
                proof {
                    assert(self@.st =~= step_spec(old(self)@.st, *inst).st);
                }
                Ok(None)
            },
        }
    }

    /// Fetch the instruction at the program counter and run it. If none is
    /// there the run terminates cleanly and nothing changes. Otherwise the
    /// counter first advances by 2 and the instruction then runs against the
    /// advanced state, so that absent a branch the counter after the step is
    /// the counter before plus 2, and a taken branch lands at the advanced
    /// counter plus twice its sign-extended displacement.
    pub fn execute_next(&mut self) -> (r: Result<StepOutcome, ExecError>)
        requires
            wf_instr_map(old(self)@.instrs),
        ensures
            final(self)@.instrs == old(self)@.instrs,
            !old(self)@.instrs.contains_key(old(self)@.st.pc) ==> r == Ok::<
                StepOutcome,
                ExecError,
            >(StepOutcome::Halted) && final(self)@ == old(self)@,
            old(self)@.instrs.contains_key(old(self)@.st.pc) ==> ({
                let inst = old(self)@.instrs[old(self)@.st.pc];
                let adv = MachineView { pc: spec_add16(old(self)@.st.pc, 2), ..old(self)@.st };
                let ss = step_spec(adv, inst);
                &&& final(self)@.st == ss.st
                &&& r == (if ss.err is Some {
                    Err::<StepOutcome, ExecError>(ss.err->Some_0)
                } else {
                    Ok::<StepOutcome, ExecError>(StepOutcome::Ran(ss.out))
                })
            }),
            old(self)@.instrs.contains_key(old(self)@.st.pc) && !is_branch(
                old(self)@.instrs[old(self)@.st.pc],
            ) ==> final(self)@.st.pc == spec_add16(old(self)@.st.pc, 2),
    {
        let pc0 = self.pc.0;
        let inst = match self.instr_memory.get(&pc0) {
            Some(i) => *i,
            None => {
                return Ok(StepOutcome::Halted);
            },
        };
        self.pc.advance();
        proof {
            assert(self@.st =~= MachineView {
                pc: spec_add16(old(self)@.st.pc, 2),
                ..old(self)@.st
            });
        }
        match self.execute_raw(&inst) {
            Ok(out) => Ok(StepOutcome::Ran(out)),
            Err(e) => Err(e),
        }
    }
}

} // verus!
