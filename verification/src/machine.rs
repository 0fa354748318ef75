use crate::arith::{
    widen_signed_byte, widen_signed_half, widen_signed_word, wrapping_sum,
};
use crate::decode::{decoded, DecodedInstruction};
use crate::isa::{
    alu_result, condition_holds, operation_of, BranchCondition, LoadKind, Operation, StoreKind,
};
use crate::memory::{byte_at, half_at, with_half, with_word, word_at};
use crate::registers::Registers;
use vstd::prelude::*;

verus! {

/// The state of the machine: its registers with the program counter, and the
/// cells of its memory that were written.
pub struct Machine {
    pub regs: Registers,
    pub mem: Map<u64, u8>,
}

/// How an instruction left the program counter.
#[derive(Clone, Copy, Debug, PartialEq, Eq, Structural)]
pub enum Outcome {
    /// The instruction left the program counter alone: the next instruction
    /// is the one after it.
    FallThrough,
    /// The instruction set the program counter itself.
    Transferred,
    /// The instruction names no operation, and changed nothing.
    Illegal,
}

impl Machine {
    /// There are 32 registers, and register 0 reads as zero.
    pub open spec fn valid(self) -> bool {
        self.regs.valid()
    }

    /// A machine with every register zero, nothing in memory, and the
    /// program counter at `pc`.
    pub open spec fn reset(pc: u64) -> Machine {
        Machine { regs: Registers::reset(pc), mem: Map::empty() }
    }

    /// The machine after `value` was written to register `index`.
    pub open spec fn write(self, index: u8, value: u64) -> Machine {
        Machine { regs: self.regs.write(index, value), mem: self.mem }
    }

    /// The machine after the program counter was set to `pc`.
    pub open spec fn jump(self, pc: u64) -> Machine {
        Machine { regs: self.regs.jump(pc), mem: self.mem }
    }

    /// The machine with `mem` for its memory.
    pub open spec fn with_memory(self, mem: Map<u64, u8>) -> Machine {
        Machine { regs: self.regs, mem }
    }
}

/// The immediate as a register-wide operand: its 32 bits, with zeros above.
pub open spec fn operand_of(inst: DecodedInstruction) -> u64 {
    inst.imm as u64
}

/// The address that a load or store reaches: `rs1` plus the immediate.
pub open spec fn effective_address(s: Machine, inst: DecodedInstruction) -> u64 {
    wrapping_sum(s.regs.read(inst.rs1), operand_of(inst))
}

/// What a load of `kind` at `addr` puts into a register.
pub open spec fn loaded_value(kind: LoadKind, mem: Map<u64, u8>, addr: u64) -> u64 {
    match kind {
        LoadKind::Byte => widen_signed_byte(byte_at(mem, addr)),
        LoadKind::Half => widen_signed_half(half_at(mem, addr)),
        LoadKind::Word => widen_signed_word(word_at(mem, addr)),
        LoadKind::ByteUnsigned => byte_at(mem, addr) as u64,
        LoadKind::HalfUnsigned => half_at(mem, addr) as u64,
    }
}

/// Memory after a store of `kind` wrote the low bytes of `value` at `addr`.
pub open spec fn stored_memory(kind: StoreKind, mem: Map<u64, u8>, addr: u64, value: u64) -> Map<
    u64,
    u8,
> {
    match kind {
        StoreKind::Byte => mem.insert(addr, (value % 0x100) as u8),
        StoreKind::Half => with_half(mem, addr, (value % 0x1_0000) as u16),
        StoreKind::Word => with_word(mem, addr, (value % 0x1_0000_0000) as u32),
    }
}

/// `a` with its lowest bit cleared.
pub open spec fn made_even(a: u64) -> u64 {
    (a - a % 2) as u64
}

/// The machine after it executed `inst` in state `s`.
///
/// An instruction that does not set the program counter leaves it where it
/// was: moving on to the next instruction is the caller's part.
pub open spec fn executed(s: Machine, inst: DecodedInstruction) -> Machine {
    let a = s.regs.read(inst.rs1);
    let b = s.regs.read(inst.rs2);
    let imm = operand_of(inst);
    let pc = s.regs.pc;
    match operation_of(inst) {
        Operation::Register(op) => s.write(inst.rd, alu_result(op, a, b)),
        Operation::Immediate(op) => s.write(inst.rd, alu_result(op, a, imm)),
        Operation::Load(kind) => s.write(
            inst.rd,
            loaded_value(kind, s.mem, effective_address(s, inst)),
        ),
        Operation::Store(kind) => s.with_memory(
            stored_memory(kind, s.mem, effective_address(s, inst), b),
        ),
        Operation::Branch(condition) => if condition_holds(condition, a, b) {
            s.jump(wrapping_sum(pc, imm))
        } else {
            s
        },
        Operation::JumpAndLink => s.write(inst.rd, wrapping_sum(pc, 4)).jump(
            wrapping_sum(pc, imm),
        ),
        Operation::JumpAndLinkRegister => {
            let linked = s.write(inst.rd, wrapping_sum(pc, 4));
            linked.jump(made_even(wrapping_sum(linked.regs.read(inst.rs1), imm)))
        },
        Operation::LoadUpper => s.write(inst.rd, imm),
        Operation::AddUpperToPc => s.write(inst.rd, wrapping_sum(pc, imm)),
        Operation::Illegal => s,
    }
}

/// How `inst`, executed in state `s`, leaves the program counter.
pub open spec fn outcome_of(s: Machine, inst: DecodedInstruction) -> Outcome {
    match operation_of(inst) {
        Operation::Branch(condition) => if condition_holds(
            condition,
            s.regs.read(inst.rs1),
            s.regs.read(inst.rs2),
        ) {
            Outcome::Transferred
        } else {
            Outcome::FallThrough
        },
        Operation::JumpAndLink => Outcome::Transferred,
        Operation::JumpAndLinkRegister => Outcome::Transferred,
        Operation::Illegal => Outcome::Illegal,
        _ => Outcome::FallThrough,
    }
}

/// The instruction word at the program counter.
pub open spec fn fetched(s: Machine) -> u32 {
    word_at(s.mem, s.regs.pc)
}

/// Whether the word at the program counter names no operation.
pub open spec fn faults(s: Machine) -> bool {
    operation_of(decoded(fetched(s))) == Operation::Illegal
}

/// The machine after one cycle: the instruction at the program counter is
/// fetched, decoded and executed, and the program counter moves on by the
/// width of an instruction unless the instruction set it. A word that names
/// no operation only moves the program counter on.
pub open spec fn stepped(s: Machine) -> Machine {
    let inst = decoded(fetched(s));
    let t = executed(s, inst);
    if outcome_of(s, inst) == Outcome::Transferred {
        t
    } else {
        t.jump(wrapping_sum(t.regs.pc, 4))
    }
}

/// The machine after `n` cycles.
pub open spec fn stepped_times(s: Machine, n: nat) -> Machine
    decreases n,
{
    if n == 0 {
        s
    } else {
        stepped(stepped_times(s, (n - 1) as nat))
    }
}

/// Register 0 reads as zero after any instruction, as before it.
pub proof fn lemma_executed_keeps_validity(s: Machine, inst: DecodedInstruction)
    requires
        s.valid(),
        inst.wf(),
    ensures
        executed(s, inst).valid(),
{
}

/// Register 0 reads as zero after any cycle, as before it.
pub proof fn lemma_stepped_keeps_validity(s: Machine)
    requires
        s.valid(),
    ensures
        stepped(s).valid(),
{
}

/// Register 0 reads as zero after any number of cycles.
pub proof fn lemma_stepped_times_keeps_validity(s: Machine, n: nat)
    requires
        s.valid(),
    ensures
        stepped_times(s, n).valid(),
    decreases n,
{
    if n > 0 {
        lemma_stepped_times_keeps_validity(s, (n - 1) as nat);
    }
}

/// Running `m` cycles and then `n` more is running `m + n` cycles.
pub proof fn lemma_stepped_times_adds(s: Machine, m: nat, n: nat)
    ensures
        stepped_times(stepped_times(s, m), n) == stepped_times(s, m + n),
    decreases n,
{
    if n > 0 {
        lemma_stepped_times_adds(s, m, (n - 1) as nat);
    }
}

/// A taken branch moves the program counter by the immediate, from the
/// branch's own address, and touches nothing else.
pub proof fn lemma_taken_branch(s: Machine, inst: DecodedInstruction, condition: BranchCondition)
    requires
        operation_of(inst) == Operation::Branch(condition),
        condition_holds(condition, s.regs.read(inst.rs1), s.regs.read(inst.rs2)),
    ensures
        executed(s, inst) == s.jump(wrapping_sum(s.regs.pc, operand_of(inst))),
        outcome_of(s, inst) == Outcome::Transferred,
{
}

/// A branch that is not taken changes nothing, and leaves it to the caller
/// to move on.
pub proof fn lemma_untaken_branch(s: Machine, inst: DecodedInstruction, condition: BranchCondition)
    requires
        operation_of(inst) == Operation::Branch(condition),
        !condition_holds(condition, s.regs.read(inst.rs1), s.regs.read(inst.rs2)),
    ensures
        executed(s, inst) == s,
        outcome_of(s, inst) == Outcome::FallThrough,
{
}

/// A branch on equality whose two registers hold the same value moves the
/// program counter by its immediate, not by the width of an instruction: a
/// cycle that meets one at the program counter ends that far on.
pub proof fn lemma_equal_branch_cycle(s: Machine)
    requires
        operation_of(decoded(fetched(s))) == Operation::Branch(BranchCondition::Equal),
        s.regs.read(decoded(fetched(s)).rs1) == s.regs.read(decoded(fetched(s)).rs2),
    ensures
        stepped(s) == s.jump(wrapping_sum(s.regs.pc, operand_of(decoded(fetched(s))))),
{
}

/// A cycle that meets an instruction which does not set the program counter
/// moves it on by four.
pub proof fn lemma_sequential_cycle(s: Machine)
    requires
        outcome_of(s, decoded(fetched(s))) != Outcome::Transferred,
    ensures
        stepped(s).regs.pc == wrapping_sum(s.regs.pc, 4),
{
}

/// An indirect jump lands on an even address.
pub proof fn lemma_indirect_jump_target_is_even(s: Machine, inst: DecodedInstruction)
    requires
        operation_of(inst) == Operation::JumpAndLinkRegister,
    ensures
        executed(s, inst).regs.pc % 2 == 0,
        executed(s, inst).regs.pc == made_even(
            wrapping_sum(
                s.write(inst.rd, wrapping_sum(s.regs.pc, 4)).regs.read(inst.rs1),
                operand_of(inst),
            ),
        ),
{
}

/// A word that names no operation changes nothing.
pub proof fn lemma_illegal_changes_nothing(s: Machine, inst: DecodedInstruction)
    requires
        operation_of(inst) == Operation::Illegal,
    ensures
        executed(s, inst) == s,
        outcome_of(s, inst) == Outcome::Illegal,
{
}

/// A word store followed by a word load from the same address puts the low
/// 32 bits of the stored register, read as two's complement, into the
/// load's destination.
pub proof fn lemma_store_then_load_word(
    s: Machine,
    store: DecodedInstruction,
    load: DecodedInstruction,
)
    requires
        s.valid(),
        store.wf(),
        load.wf(),
        operation_of(store) == Operation::Store(StoreKind::Word),
        operation_of(load) == Operation::Load(LoadKind::Word),
        effective_address(s, store) == effective_address(executed(s, store), load),
        load.rd != 0,
    ensures
        executed(executed(s, store), load).regs.read(load.rd) == widen_signed_word(
            (s.regs.read(store.rs2) % 0x1_0000_0000) as u32,
        ),
{
}

} // verus!
