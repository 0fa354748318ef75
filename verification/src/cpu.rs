use crate::arith::{add_wrapping, sign_extend_byte, sign_extend_half, sign_extend_word};
use crate::decode::{
    decode_imm_b, decode_imm_i, decode_imm_j, decode_imm_s, decode_imm_u, decoded, immediate_of,
    sign_extend, sign_extend_spec, DecodedInstruction, OPCODE_AUIPC, OPCODE_B, OPCODE_I,
    OPCODE_I_ENV, OPCODE_I_JALR, OPCODE_I_LOAD, OPCODE_JAL, OPCODE_LUI, OPCODE_S,
};
use crate::isa::{alu, branch_taken, classify, LoadKind, Operation, StoreKind};
use crate::machine::{
    executed, faults, fetched, loaded_value, made_even, outcome_of, stepped, stepped_times,
    stored_memory, Machine, Outcome,
};
use crate::memory::{with_bytes, MemoryImage};
use crate::registers::RegisterFile;
use vstd::prelude::*;

verus! {

/// What the driving loop does with a word that names no operation.
#[derive(Clone, Copy, Debug, PartialEq, Eq, Structural)]
pub enum Mode {
    /// The word is skipped like an instruction that does nothing.
    Lenient,
    /// The word stops the machine, and is reported.
    Strict,
}

/// A word that names no operation, and where it was fetched.
#[derive(Clone, Copy, Debug, PartialEq, Eq, Structural)]
pub struct IllegalInstruction {
    pub pc: u64,
    pub word: u32,
}

/// How a run ended.
#[derive(Clone, Copy, Debug, PartialEq, Eq, Structural)]
pub struct RunSummary {
    /// How many cycles were completed.
    pub steps: u64,
    /// The word that stopped the run, if one did.
    pub fault: Option<IllegalInstruction>,
}

/// A fetch-decode-execute engine over a register file and a memory.
pub struct VirtualCPU {
    pub regs: RegisterFile,
    pub memory: MemoryImage,
}

impl View for VirtualCPU {
    type V = Machine;

    open spec fn view(&self) -> Machine {
        Machine { regs: self.regs@, mem: self.memory@ }
    }
}

impl VirtualCPU {
    /// A machine with every register and the program counter zero, and
    /// nothing in memory.
    pub fn new() -> (cpu: Self)
        ensures
            cpu@ == Machine::reset(0),
    {
        VirtualCPU { regs: RegisterFile::new(), memory: MemoryImage::new() }
    }

    /// A machine with every register zero, nothing in memory, and the
    /// program counter at `entry`.
    pub fn with_entry(entry: u64) -> (cpu: Self)
        ensures
            cpu@ == Machine::reset(entry),
    {
        VirtualCPU { regs: RegisterFile::with_entry(entry), memory: MemoryImage::new() }
    }

    /// Writes `image` into memory at `base` and the addresses after it.
    pub fn load_image(&mut self, base: u64, image: &[u8])
        ensures
            final(self)@ == old(self)@.with_memory(with_bytes(old(self)@.mem, base, image@)),
    {
        self.memory.write_bytes(base, image);
    }

    /// The instruction word at the program counter, which stays where it is.
    pub fn fetch(&self) -> (word: u32)
        ensures
            word == fetched(self@),
    {
        self.memory.load_word(self.regs.pc())
    }

    /// Copies bit `bits - 1` of `imm` into every higher bit.
    pub fn sign_extend(&self, imm: u32, bits: u32) -> (extended: u32)
        requires
            1 <= bits <= 32,
        ensures
            extended == sign_extend_spec(imm, bits),
    {
        sign_extend(imm, bits)
    }

    /// The immediate that `instruction` carries in the format that `opcode`
    /// has; zero for an opcode whose format has none.
    pub fn decode_immediate(&self, opcode: u8, instruction: u32) -> (imm: u32)
        ensures
            imm == immediate_of(opcode, instruction),
    {
        match opcode {
            OPCODE_I | OPCODE_I_LOAD | OPCODE_I_JALR | OPCODE_I_ENV => decode_imm_i(instruction),
            OPCODE_S => decode_imm_s(instruction),
            OPCODE_B => decode_imm_b(instruction),
            OPCODE_LUI | OPCODE_AUIPC => decode_imm_u(instruction),
            OPCODE_JAL => decode_imm_j(instruction),
            _ => 0,
        }
    }

    /// Splits an instruction word into its fields. The result depends on the
    /// word alone.
    pub fn decode(&self, instruction: u32) -> (inst: DecodedInstruction)
        ensures
            inst == decoded(instruction),
            inst.wf(),
    {
        assert((instruction & 0x7f) == instruction % 128 && ((instruction >> 7) & 0x1f) == (
        instruction / 0x80) % 32 && ((instruction >> 12) & 0x07) == (instruction / 0x1000) % 8 && ((
        instruction >> 15) & 0x1f) == (instruction / 0x8000) % 32 && ((instruction >> 20) & 0x1f)
            == (instruction / 0x10_0000) % 32 && ((instruction >> 25) & 0x7f) == instruction
            / 0x200_0000) by (bit_vector);
        let opcode = (instruction & 0x7f) as u8;
        let rd = ((instruction >> 7) & 0x1f) as u8;
        let funct3 = ((instruction >> 12) & 0x07) as u8;
        let rs1 = ((instruction >> 15) & 0x1f) as u8;
        let rs2 = ((instruction >> 20) & 0x1f) as u8;
        let funct7 = ((instruction >> 25) & 0x7f) as u8;
        let imm = self.decode_immediate(opcode, instruction);
        DecodedInstruction { opcode, rd, funct3, rs1, rs2, funct7, imm }
    }

    /// What a load of `kind` at `addr` puts into a register.
    pub fn load(&self, kind: LoadKind, addr: u64) -> (value: u64)
        ensures
            value == loaded_value(kind, self@.mem, addr),
    {
        match kind {
            LoadKind::Byte => sign_extend_byte(self.memory.get(addr)),
            LoadKind::Half => sign_extend_half(self.memory.load_half(addr)),
            LoadKind::Word => sign_extend_word(self.memory.load_word(addr)),
            LoadKind::ByteUnsigned => self.memory.get(addr) as u64,
            LoadKind::HalfUnsigned => self.memory.load_half(addr) as u64,
        }
    }

    /// Writes the low bytes of `value` to memory at `addr`, as a store of
    /// `kind` does.
    pub fn store(&mut self, kind: StoreKind, addr: u64, value: u64)
        ensures
            final(self)@ == old(self)@.with_memory(
                stored_memory(kind, old(self)@.mem, addr, value),
            ),
    {
        assert((value & 0xff) == value % 0x100 && (value & 0xffff) == value % 0x1_0000 && (value
            & 0xffff_ffff) == value % 0x1_0000_0000) by (bit_vector);
        match kind {
            StoreKind::Byte => self.memory.set(addr, (value & 0xff) as u8),
            StoreKind::Half => self.memory.store_half(addr, (value & 0xffff) as u16),
            StoreKind::Word => self.memory.store_word(addr, (value & 0xffff_ffff) as u32),
        }
    }

    /// Executes one decoded instruction.
    ///
    /// The program counter changes only where the instruction sets it: after
    /// `Outcome::FallThrough` the caller moves it on.
    pub fn execute(&mut self, instruction: DecodedInstruction) -> (outcome: Outcome)
        requires
            instruction.wf(),
        ensures
            final(self)@ == executed(old(self)@, instruction),
            outcome == outcome_of(old(self)@, instruction),
    {
        let rd = instruction.rd;
        let rs1 = instruction.rs1;
        let rs2 = instruction.rs2;
        let imm: u64 = instruction.imm as u64;
        let pc = self.regs.pc();
        match classify(&instruction) {
            Operation::Register(op) => {
                let value = alu(op, self.regs.read(rs1), self.regs.read(rs2));
                self.regs.write(rd, value);
                Outcome::FallThrough
            },
            Operation::Immediate(op) => {
                let value = alu(op, self.regs.read(rs1), imm);
                self.regs.write(rd, value);
                Outcome::FallThrough
            },
            Operation::Load(kind) => {
                let addr = add_wrapping(self.regs.read(rs1), imm);
                let value = self.load(kind, addr);
                self.regs.write(rd, value);
                Outcome::FallThrough
            },
            Operation::Store(kind) => {
                let addr = add_wrapping(self.regs.read(rs1), imm);
                let value = self.regs.read(rs2);
                self.store(kind, addr, value);
                Outcome::FallThrough
            },
            Operation::Branch(condition) => {
                if branch_taken(condition, self.regs.read(rs1), self.regs.read(rs2)) {
                    self.regs.set_pc(add_wrapping(pc, imm));
                    Outcome::Transferred
                } else {
                    Outcome::FallThrough
                }
            },
            Operation::JumpAndLink => {
                self.regs.write(rd, add_wrapping(pc, 4));
                self.regs.set_pc(add_wrapping(pc, imm));
                Outcome::Transferred
            },
            Operation::JumpAndLinkRegister => {
                self.regs.write(rd, add_wrapping(pc, 4));
                let target = add_wrapping(self.regs.read(rs1), imm);
                assert(target & !1 == made_even(target)) by (bit_vector);
                self.regs.set_pc(target & !1);
                Outcome::Transferred
            },
            Operation::LoadUpper => {
                self.regs.write(rd, imm);
                Outcome::FallThrough
            },
            Operation::AddUpperToPc => {
                self.regs.write(rd, add_wrapping(pc, imm));
                Outcome::FallThrough
            },
            Operation::Illegal => Outcome::Illegal,
        }
    }

    /// Runs one cycle: fetch, decode, execute, and move the program counter
    /// on unless the instruction set it.
    ///
    /// A word that names no operation is skipped in `Mode::Lenient`; in
    /// `Mode::Strict` it is reported and the machine stays as it was.
    pub fn step(&mut self, mode: Mode) -> (result: Result<(), IllegalInstruction>)
        ensures
            result is Err <==> mode == Mode::Strict && faults(old(self)@),
            result is Ok ==> final(self)@ == stepped(old(self)@),
            result matches Err(fault) ==> final(self)@ == old(self)@ && fault.pc == old(
                self,
            )@.regs.pc && fault.word == fetched(old(self)@),
    {
        let pc = self.regs.pc();
        let word = self.fetch();
        let inst = self.decode(word);
        match classify(&inst) {
            Operation::Illegal => {
                match mode {
                    Mode::Strict => {
                        return Err(IllegalInstruction { pc, word });
                    },
                    Mode::Lenient => {},
                }
            },
            _ => {},
        }
        match self.execute(inst) {
            Outcome::Transferred => {},
            _ => {
                self.regs.set_pc(add_wrapping(pc, 4));
            },
        }
        Ok(())
    }

    /// Runs cycles until `max_steps` of them are done or, in
    /// `Mode::Strict`, the word at the program counter names no operation.
    pub fn run(&mut self, mode: Mode, max_steps: u64) -> (summary: RunSummary)
        ensures
            summary.steps <= max_steps,
            final(self)@ == stepped_times(old(self)@, summary.steps as nat),
            forall|k: nat|
                k < summary.steps ==> !(mode == Mode::Strict && faults(
                    #[trigger] stepped_times(old(self)@, k),
                )),
            summary.steps < max_steps ==> mode == Mode::Strict && faults(final(self)@)
                && summary.fault == Some(
                IllegalInstruction { pc: final(self)@.regs.pc, word: fetched(final(self)@) },
            ),
            summary.steps == max_steps ==> summary.fault is None,
    {
        let mut steps: u64 = 0;
        while steps < max_steps
            invariant
                steps <= max_steps,
                self@ == stepped_times(old(self)@, steps as nat),
                forall|k: nat|
                    k < steps ==> !(mode == Mode::Strict && faults(
                        #[trigger] stepped_times(old(self)@, k),
                    )),
            decreases max_steps - steps,
        {
            match self.step(mode) {
                Ok(()) => {
                    steps += 1;
                },
                Err(fault) => {
                    return RunSummary { steps, fault: Some(fault) };
                },
            }
        }
        RunSummary { steps, fault: None }
    }
}

} // verus!
