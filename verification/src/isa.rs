use crate::arith::{
    add_wrapping, less_than_signed, signed, sub_wrapping, unsigned, wrapping_difference,
    wrapping_sum,
};
use crate::decode::{
    DecodedInstruction, OPCODE_AUIPC, OPCODE_B, OPCODE_I, OPCODE_I_JALR, OPCODE_I_LOAD,
    OPCODE_JAL, OPCODE_LUI, OPCODE_R, OPCODE_S,
};
use vstd::arithmetic::div_mod::{
    lemma_fundamental_div_mod, lemma_fundamental_div_mod_converse, lemma_mod_bound,
    lemma_mul_mod_noop_left,
};
use vstd::arithmetic::power2::{lemma2_to64, lemma_pow2_pos, lemma_pow2_unfold, pow2};
use vstd::bits::lemma_u64_shr_is_div;
use vstd::prelude::*;

verus! {

/// The arithmetic and logic operations, on two register-wide operands.
#[derive(Clone, Copy, Debug, PartialEq, Eq, Structural)]
pub enum AluOp {
    Add,
    Sub,
    Xor,
    Or,
    And,
    ShiftLeft,
    ShiftRightLogical,
    ShiftRightArithmetic,
    SetLessThan,
    SetLessThanUnsigned,
}

/// What a load reads, and how it widens it to a register.
#[derive(Clone, Copy, Debug, PartialEq, Eq, Structural)]
pub enum LoadKind {
    Byte,
    Half,
    Word,
    ByteUnsigned,
    HalfUnsigned,
}

/// How much of a register a store writes.
#[derive(Clone, Copy, Debug, PartialEq, Eq, Structural)]
pub enum StoreKind {
    Byte,
    Half,
    Word,
}

/// The comparison that decides a branch.
#[derive(Clone, Copy, Debug, PartialEq, Eq, Structural)]
pub enum BranchCondition {
    Equal,
    NotEqual,
    Less,
    GreaterOrEqual,
    LessUnsigned,
    GreaterOrEqualUnsigned,
}

/// What an instruction does.
#[derive(Clone, Copy, Debug, PartialEq, Eq, Structural)]
pub enum Operation {
    /// `rd` becomes the operation's result on `rs1` and `rs2`.
    Register(AluOp),
    /// `rd` becomes the operation's result on `rs1` and the immediate.
    Immediate(AluOp),
    /// `rd` becomes what memory holds at `rs1` plus the immediate.
    Load(LoadKind),
    /// Memory at `rs1` plus the immediate takes the low bytes of `rs2`.
    Store(StoreKind),
    /// The program counter moves by the immediate if the condition holds of
    /// `rs1` and `rs2`.
    Branch(BranchCondition),
    /// `rd` becomes the return address; the program counter moves by the
    /// immediate.
    JumpAndLink,
    /// `rd` becomes the return address; the program counter becomes `rs1`
    /// plus the immediate, made even.
    JumpAndLinkRegister,
    /// `rd` becomes the immediate.
    LoadUpper,
    /// `rd` becomes the program counter plus the immediate.
    AddUpperToPc,
    /// The fields name no operation.
    Illegal,
}

/// Whether bit 5 of the 7-bit function field is set: it tells subtraction
/// from addition and the arithmetic right shift from the logical one.
pub open spec fn has_alternate_bit(funct7: u8) -> bool {
    (funct7 / 32) % 2 == 1
}

/// The operation that a 3-bit function field other than zero selects;
/// `alternate` is `has_alternate_bit` of the 7-bit field.
pub open spec fn selected_op(funct3: u8, alternate: bool) -> AluOp {
    if funct3 == 4 {
        AluOp::Xor
    } else if funct3 == 6 {
        AluOp::Or
    } else if funct3 == 7 {
        AluOp::And
    } else if funct3 == 1 {
        AluOp::ShiftLeft
    } else if funct3 == 5 {
        if alternate {
            AluOp::ShiftRightArithmetic
        } else {
            AluOp::ShiftRightLogical
        }
    } else if funct3 == 2 {
        AluOp::SetLessThan
    } else {
        AluOp::SetLessThanUnsigned
    }
}

/// The operation that an instruction's opcode and function fields name.
pub open spec fn operation_of(inst: DecodedInstruction) -> Operation {
    if inst.opcode == OPCODE_R {
        if inst.funct3 == 0 {
            if inst.funct7 == 0x00 {
                Operation::Register(AluOp::Add)
            } else if inst.funct7 == 0x20 {
                Operation::Register(AluOp::Sub)
            } else {
                Operation::Illegal
            }
        } else if inst.funct3 < 8 {
            Operation::Register(selected_op(inst.funct3, has_alternate_bit(inst.funct7)))
        } else {
            Operation::Illegal
        }
    } else if inst.opcode == OPCODE_I {
        if inst.funct3 == 0 {
            Operation::Immediate(AluOp::Add)
        } else if inst.funct3 < 8 {
            Operation::Immediate(selected_op(inst.funct3, has_alternate_bit(inst.funct7)))
        } else {
            Operation::Illegal
        }
    } else if inst.opcode == OPCODE_I_LOAD {
        if inst.funct3 == 0 {
            Operation::Load(LoadKind::Byte)
        } else if inst.funct3 == 1 {
            Operation::Load(LoadKind::Half)
        } else if inst.funct3 == 2 {
            Operation::Load(LoadKind::Word)
        } else if inst.funct3 == 4 {
            Operation::Load(LoadKind::ByteUnsigned)
        } else if inst.funct3 == 5 {
            Operation::Load(LoadKind::HalfUnsigned)
        } else {
            Operation::Illegal
        }
    } else if inst.opcode == OPCODE_S {
        if inst.funct3 == 0 {
            Operation::Store(StoreKind::Byte)
        } else if inst.funct3 == 1 {
            Operation::Store(StoreKind::Half)
        } else if inst.funct3 == 2 {
            Operation::Store(StoreKind::Word)
        } else {
            Operation::Illegal
        }
    } else if inst.opcode == OPCODE_B {
        if inst.funct3 == 0 {
            Operation::Branch(BranchCondition::Equal)
        } else if inst.funct3 == 1 {
            Operation::Branch(BranchCondition::NotEqual)
        } else if inst.funct3 == 4 {
            Operation::Branch(BranchCondition::Less)
        } else if inst.funct3 == 5 {
            Operation::Branch(BranchCondition::GreaterOrEqual)
        } else if inst.funct3 == 6 {
            Operation::Branch(BranchCondition::LessUnsigned)
        } else if inst.funct3 == 7 {
            Operation::Branch(BranchCondition::GreaterOrEqualUnsigned)
        } else {
            Operation::Illegal
        }
    } else if inst.opcode == OPCODE_JAL {
        Operation::JumpAndLink
    } else if inst.opcode == OPCODE_I_JALR {
        Operation::JumpAndLinkRegister
    } else if inst.opcode == OPCODE_LUI {
        Operation::LoadUpper
    } else if inst.opcode == OPCODE_AUIPC {
        Operation::AddUpperToPc
    } else {
        Operation::Illegal
    }
}

/// By how many bits a shift moves its first operand: the low five bits of
/// the second.
pub open spec fn shift_amount(b: u64) -> u64 {
    b % 32
}

/// The result of an arithmetic or logic operation on `a` and `b`.
pub open spec fn alu_result(op: AluOp, a: u64, b: u64) -> u64 {
    match op {
        AluOp::Add => wrapping_sum(a, b),
        AluOp::Sub => wrapping_difference(a, b),
        AluOp::Xor => a ^ b,
        AluOp::Or => a | b,
        AluOp::And => a & b,
        AluOp::ShiftLeft => a << shift_amount(b),
        AluOp::ShiftRightLogical => a >> shift_amount(b),
        AluOp::ShiftRightArithmetic => ((a as i64) >> shift_amount(b)) as u64,
        AluOp::SetLessThan => if signed(a) < signed(b) {
            1
        } else {
            0
        },
        AluOp::SetLessThanUnsigned => if a < b {
            1
        } else {
            0
        },
    }
}

/// Whether a branch on `condition` is taken when `rs1` holds `a` and `rs2`
/// holds `b`.
pub open spec fn condition_holds(condition: BranchCondition, a: u64, b: u64) -> bool {
    match condition {
        BranchCondition::Equal => a == b,
        BranchCondition::NotEqual => a != b,
        BranchCondition::Less => signed(a) < signed(b),
        BranchCondition::GreaterOrEqual => signed(a) >= signed(b),
        BranchCondition::LessUnsigned => a < b,
        BranchCondition::GreaterOrEqualUnsigned => a >= b,
    }
}

fn select_alu_op(funct3: u8, funct7: u8) -> (op: AluOp)
    requires
        1 <= funct3 < 8,
    ensures
        op == selected_op(funct3, has_alternate_bit(funct7)),
{
    assert(((funct7 & 0x20) == 0x20) == has_alternate_bit(funct7)) by (bit_vector);
    match funct3 {
        0x4 => AluOp::Xor,
        0x6 => AluOp::Or,
        0x7 => AluOp::And,
        0x1 => AluOp::ShiftLeft,
        0x5 => {
            if (funct7 & 0x20) == 0x20 {
                AluOp::ShiftRightArithmetic
            } else {
                AluOp::ShiftRightLogical
            }
        },
        0x2 => AluOp::SetLessThan,
        _ => AluOp::SetLessThanUnsigned,
    }
}

/// Resolves an instruction's opcode and function fields to its operation.
pub fn classify(inst: &DecodedInstruction) -> (operation: Operation)
    ensures
        operation == operation_of(*inst),
{
    match inst.opcode {
        OPCODE_R => {
            if inst.funct3 == 0 {
                match inst.funct7 {
                    0x00 => Operation::Register(AluOp::Add),
                    0x20 => Operation::Register(AluOp::Sub),
                    _ => Operation::Illegal,
                }
            } else if inst.funct3 < 8 {
                Operation::Register(select_alu_op(inst.funct3, inst.funct7))
            } else {
                Operation::Illegal
            }
        },
        OPCODE_I => {
            if inst.funct3 == 0 {
                Operation::Immediate(AluOp::Add)
            } else if inst.funct3 < 8 {
                Operation::Immediate(select_alu_op(inst.funct3, inst.funct7))
            } else {
                Operation::Illegal
            }
        },
        OPCODE_I_LOAD => match inst.funct3 {
            0x0 => Operation::Load(LoadKind::Byte),
            0x1 => Operation::Load(LoadKind::Half),
            0x2 => Operation::Load(LoadKind::Word),
            0x4 => Operation::Load(LoadKind::ByteUnsigned),
            0x5 => Operation::Load(LoadKind::HalfUnsigned),
            _ => Operation::Illegal,
        },
        OPCODE_S => match inst.funct3 {
            0x0 => Operation::Store(StoreKind::Byte),
            0x1 => Operation::Store(StoreKind::Half),
            0x2 => Operation::Store(StoreKind::Word),
            _ => Operation::Illegal,
        },
        OPCODE_B => match inst.funct3 {
            0x0 => Operation::Branch(BranchCondition::Equal),
            0x1 => Operation::Branch(BranchCondition::NotEqual),
            0x4 => Operation::Branch(BranchCondition::Less),
            0x5 => Operation::Branch(BranchCondition::GreaterOrEqual),
            0x6 => Operation::Branch(BranchCondition::LessUnsigned),
            0x7 => Operation::Branch(BranchCondition::GreaterOrEqualUnsigned),
            _ => Operation::Illegal,
        },
        OPCODE_JAL => Operation::JumpAndLink,
        OPCODE_I_JALR => Operation::JumpAndLinkRegister,
        OPCODE_LUI => Operation::LoadUpper,
        OPCODE_AUIPC => Operation::AddUpperToPc,
        _ => Operation::Illegal,
    }
}

/// Computes an arithmetic or logic operation on `a` and `b`.
pub fn alu(op: AluOp, a: u64, b: u64) -> (result: u64)
    ensures
        result == alu_result(op, a, b),
{
    assert(b & 0x1f == shift_amount(b)) by (bit_vector);
    let amount: u64 = b & 0x1f;
    match op {
        AluOp::Add => add_wrapping(a, b),
        AluOp::Sub => sub_wrapping(a, b),
        AluOp::Xor => a ^ b,
        AluOp::Or => a | b,
        AluOp::And => a & b,
        AluOp::ShiftLeft => a << amount,
        AluOp::ShiftRightLogical => a >> amount,
        AluOp::ShiftRightArithmetic => ((a as i64) >> amount) as u64,
        AluOp::SetLessThan => if less_than_signed(a, b) {
            1
        } else {
            0
        },
        AluOp::SetLessThanUnsigned => if a < b {
            1
        } else {
            0
        },
    }
}

/// Decides whether a branch on `condition` is taken.
pub fn branch_taken(condition: BranchCondition, a: u64, b: u64) -> (taken: bool)
    ensures
        taken == condition_holds(condition, a, b),
{
    match condition {
        BranchCondition::Equal => a == b,
        BranchCondition::NotEqual => a != b,
        BranchCondition::Less => less_than_signed(a, b),
        BranchCondition::GreaterOrEqual => !less_than_signed(a, b),
        BranchCondition::LessUnsigned => a < b,
        BranchCondition::GreaterOrEqualUnsigned => a >= b,
    }
}

/// A logical right shift divides by a power of two.
pub proof fn lemma_shift_right_logical_divides(a: u64, b: u64)
    ensures
        alu_result(AluOp::ShiftRightLogical, a, b) == a as nat / pow2(shift_amount(b) as nat),
{
    lemma_u64_shr_is_div(a, shift_amount(b));
}

/// A left shift multiplies by a power of two, modulo 2^64.
pub proof fn lemma_shift_left_multiplies(a: u64, b: u64)
    ensures
        alu_result(AluOp::ShiftLeft, a, b) == unsigned(a * pow2(shift_amount(b) as nat)),
{
    lemma_shl_is_mul_mod(a, shift_amount(b));
}

/// An arithmetic right shift divides the operand, read as two's complement,
/// by a power of two, rounding down.
pub proof fn lemma_shift_right_arithmetic_divides(a: u64, b: u64)
    ensures
        alu_result(AluOp::ShiftRightArithmetic, a, b) == unsigned(
            signed(a) / pow2(shift_amount(b) as nat) as int,
        ),
{
    let k = shift_amount(b);
    let d = pow2(k as nat) as int;
    lemma_pow2_pos(k as nat);
    if a < 0x8000_0000_0000_0000 {
        assert(((a as i64) >> k) as u64 == a >> k) by (bit_vector)
            requires
                a < 0x8000_0000_0000_0000,
                k < 32,
        ;
        lemma_u64_shr_is_div(a, k);
        assert(0 <= a as int / d <= a) by (nonlinear_arith)
            requires
                d > 0,
                a >= 0,
        ;
    } else {
        let n: u64 = !a;
        assert(((a as i64) >> k) as u64 == !((!a) >> k) && !a == 0xFFFF_FFFF_FFFF_FFFF - a) by (bit_vector)
            requires
                a >= 0x8000_0000_0000_0000,
                k < 32,
        ;
        let q: u64 = n >> k;
        assert(!q == 0xFFFF_FFFF_FFFF_FFFF - q) by (bit_vector);
        lemma_u64_shr_is_div(n, k);
        // signed(a) == -(n + 1), and rounding down gives -(n / d) - 1
        assert((-(n as int) - 1) / d == -(n as int / d) - 1) by {
            lemma_fundamental_div_mod(n as int, d);
            lemma_mod_bound(n as int, d);
            let r = n as int % d;
            let m = n as int / d;
            assert(-(n as int) - 1 == d * (-m - 1) + (d - 1 - r)) by (nonlinear_arith)
                requires
                    n as int == d * m + r,
            ;
            lemma_fundamental_div_mod_converse(-(n as int) - 1, d, -m - 1, d - 1 - r);
        }
        assert(0 <= n as int / d <= n) by (nonlinear_arith)
            requires
                d > 0,
                n >= 0,
        ;
    }
}

proof fn lemma_shl_is_mul_mod(a: u64, k: u64)
    requires
        k < 64,
    ensures
        a << k == unsigned(a * pow2(k as nat)),
    decreases k,
{
    if k == 0 {
        assert(a << 0u64 == a) by (bit_vector);
        lemma2_to64();
        assert(a * pow2(0) == a) by (nonlinear_arith)
            requires
                pow2(0) == 1,
        ;
    } else {
        let j = (k - 1) as u64;
        lemma_shl_is_mul_mod(a, j);
        let half = a << j;
        assert(a << k == (a << ((k - 1) as u64)) << 1u64) by (bit_vector)
            requires
                0 < k < 64,
        ;
        assert(half << 1u64 == ((half * 2) % 0x1_0000_0000_0000_0000) as u64) by (bit_vector);
        lemma_pow2_unfold(k as nat);
        let m = 0x1_0000_0000_0000_0000int;
        let x = a * pow2(j as nat);
        assert(half == x % m);
        lemma_mul_mod_noop_left(x, 2, m);
        assert((half * 2) % m == (x * 2) % m);
        assert(x * 2 == a * pow2(k as nat)) by (nonlinear_arith)
            requires
                x == a * pow2(j as nat),
                pow2(k as nat) == 2 * pow2(j as nat),
        ;
    }
}

} // verus!
