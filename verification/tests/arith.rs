use vcpu::arith::{
    add_wrapping, less_than_signed, sign_extend_byte, sign_extend_half, sign_extend_word,
    sub_wrapping,
};
use vcpu::isa::{alu, branch_taken, classify, AluOp, BranchCondition, LoadKind, Operation, StoreKind};
use vcpu::decode::DecodedInstruction;

fn fields(opcode: u8, funct3: u8, funct7: u8) -> DecodedInstruction {
    DecodedInstruction { opcode, rd: 1, funct3, rs1: 2, rs2: 3, funct7, imm: 0 }
}

#[test]
fn sums_and_differences_wrap() {
    assert_eq!(add_wrapping(5, 7), 12);
    assert_eq!(add_wrapping(u64::MAX, 1), 0);
    assert_eq!(add_wrapping(u64::MAX, u64::MAX), u64::MAX - 1);
    assert_eq!(sub_wrapping(7, 5), 2);
    assert_eq!(sub_wrapping(5, 7), 0xFFFF_FFFF_FFFF_FFFE);
    assert_eq!(sub_wrapping(0, u64::MAX), 1);
}

#[test]
fn signed_order() {
    assert!(less_than_signed(u64::MAX, 0));
    assert!(less_than_signed(0x8000_0000_0000_0000, 0x7FFF_FFFF_FFFF_FFFF));
    assert!(!less_than_signed(0, u64::MAX));
    assert!(less_than_signed(1, 2));
    assert!(!less_than_signed(2, 2));
    assert!(less_than_signed(u64::MAX - 1, u64::MAX));
}

#[test]
fn widening_keeps_the_sign() {
    assert_eq!(sign_extend_byte(0x7F), 0x7F);
    assert_eq!(sign_extend_byte(0x80), 0xFFFF_FFFF_FFFF_FF80);
    assert_eq!(sign_extend_byte(0xFF), u64::MAX);
    assert_eq!(sign_extend_half(0x7FFF), 0x7FFF);
    assert_eq!(sign_extend_half(0x8000), 0xFFFF_FFFF_FFFF_8000);
    assert_eq!(sign_extend_word(0x7FFF_FFFF), 0x7FFF_FFFF);
    assert_eq!(sign_extend_word(0x8000_0000), 0xFFFF_FFFF_8000_0000);
    assert_eq!(sign_extend_word(0xABCD_1234), 0xFFFF_FFFF_ABCD_1234);
}

#[test]
fn alu_arithmetic_and_logic() {
    assert_eq!(alu(AluOp::Add, 5, 7), 12);
    assert_eq!(alu(AluOp::Add, u64::MAX, 2), 1);
    assert_eq!(alu(AluOp::Sub, 5, 7), 0xFFFF_FFFF_FFFF_FFFE);
    assert_eq!(alu(AluOp::Xor, 0b1100, 0b1010), 0b0110);
    assert_eq!(alu(AluOp::Or, 0b1100, 0b1010), 0b1110);
    assert_eq!(alu(AluOp::And, 0b1100, 0b1010), 0b1000);
}

#[test]
fn alu_shifts_use_the_low_five_bits() {
    assert_eq!(alu(AluOp::ShiftLeft, 1, 4), 16);
    assert_eq!(alu(AluOp::ShiftLeft, 1, 31), 0x8000_0000);
    assert_eq!(alu(AluOp::ShiftLeft, 1, 32), 1);
    assert_eq!(alu(AluOp::ShiftLeft, 1, 33), 2);
    assert_eq!(alu(AluOp::ShiftLeft, 0x8000_0000_0000_0001, 1), 2);
    assert_eq!(alu(AluOp::ShiftRightLogical, 0x8000_0000_0000_0000, 4), 0x0800_0000_0000_0000);
    assert_eq!(alu(AluOp::ShiftRightLogical, 0x100, 0xFFFF_FFE8), 1);
    assert_eq!(alu(AluOp::ShiftRightArithmetic, 0x8000_0000_0000_0000, 4), 0xF800_0000_0000_0000);
    assert_eq!(alu(AluOp::ShiftRightArithmetic, 0x4000_0000_0000_0000, 4), 0x0400_0000_0000_0000);
    assert_eq!(alu(AluOp::ShiftRightArithmetic, u64::MAX, 31), u64::MAX);
}

#[test]
fn signed_and_unsigned_comparisons_differ() {
    assert_eq!(alu(AluOp::SetLessThan, u64::MAX, 1), 1);
    assert_eq!(alu(AluOp::SetLessThanUnsigned, u64::MAX, 1), 0);
    assert_eq!(alu(AluOp::SetLessThan, 1, u64::MAX), 0);
    assert_eq!(alu(AluOp::SetLessThanUnsigned, 1, u64::MAX), 1);
    assert_eq!(alu(AluOp::SetLessThan, 3, 3), 0);
    assert_eq!(alu(AluOp::SetLessThanUnsigned, 3, 3), 0);
    assert_eq!(alu(AluOp::SetLessThan, 2, 3), 1);
    assert_eq!(alu(AluOp::SetLessThanUnsigned, 2, 3), 1);
}

#[test]
fn branch_conditions() {
    let minus_one = u64::MAX;
    assert!(branch_taken(BranchCondition::Equal, 4, 4));
    assert!(!branch_taken(BranchCondition::Equal, 4, 5));
    assert!(branch_taken(BranchCondition::NotEqual, 4, 5));
    assert!(!branch_taken(BranchCondition::NotEqual, 4, 4));
    assert!(branch_taken(BranchCondition::Less, minus_one, 1));
    assert!(!branch_taken(BranchCondition::Less, 1, minus_one));
    assert!(!branch_taken(BranchCondition::Less, 1, 1));
    assert!(branch_taken(BranchCondition::GreaterOrEqual, 1, minus_one));
    assert!(branch_taken(BranchCondition::GreaterOrEqual, 1, 1));
    assert!(!branch_taken(BranchCondition::GreaterOrEqual, minus_one, 1));
    assert!(branch_taken(BranchCondition::LessUnsigned, 1, minus_one));
    assert!(!branch_taken(BranchCondition::LessUnsigned, minus_one, 1));
    assert!(branch_taken(BranchCondition::GreaterOrEqualUnsigned, minus_one, 1));
    assert!(branch_taken(BranchCondition::GreaterOrEqualUnsigned, 1, 1));
    assert!(!branch_taken(BranchCondition::GreaterOrEqualUnsigned, 1, minus_one));
}

#[test]
fn classify_register_operations() {
    assert_eq!(classify(&fields(0x33, 0, 0x00)), Operation::Register(AluOp::Add));
    assert_eq!(classify(&fields(0x33, 0, 0x20)), Operation::Register(AluOp::Sub));
    assert_eq!(classify(&fields(0x33, 0, 0x01)), Operation::Illegal);
    assert_eq!(classify(&fields(0x33, 0, 0x60)), Operation::Illegal);
    assert_eq!(classify(&fields(0x33, 4, 0)), Operation::Register(AluOp::Xor));
    assert_eq!(classify(&fields(0x33, 6, 0)), Operation::Register(AluOp::Or));
    assert_eq!(classify(&fields(0x33, 7, 0)), Operation::Register(AluOp::And));
    assert_eq!(classify(&fields(0x33, 1, 0)), Operation::Register(AluOp::ShiftLeft));
    assert_eq!(classify(&fields(0x33, 5, 0x00)), Operation::Register(AluOp::ShiftRightLogical));
    assert_eq!(classify(&fields(0x33, 5, 0x20)), Operation::Register(AluOp::ShiftRightArithmetic));
    assert_eq!(classify(&fields(0x33, 5, 0x60)), Operation::Register(AluOp::ShiftRightArithmetic));
    assert_eq!(classify(&fields(0x33, 5, 0x40)), Operation::Register(AluOp::ShiftRightLogical));
    assert_eq!(classify(&fields(0x33, 2, 0)), Operation::Register(AluOp::SetLessThan));
    assert_eq!(classify(&fields(0x33, 3, 0)), Operation::Register(AluOp::SetLessThanUnsigned));
    assert_eq!(classify(&fields(0x33, 8, 0)), Operation::Illegal);
}

#[test]
fn classify_immediate_operations() {
    assert_eq!(classify(&fields(0x13, 0, 0x00)), Operation::Immediate(AluOp::Add));
    assert_eq!(classify(&fields(0x13, 0, 0x20)), Operation::Immediate(AluOp::Add));
    assert_eq!(classify(&fields(0x13, 0, 0x7F)), Operation::Immediate(AluOp::Add));
    assert_eq!(classify(&fields(0x13, 4, 0)), Operation::Immediate(AluOp::Xor));
    assert_eq!(classify(&fields(0x13, 6, 0)), Operation::Immediate(AluOp::Or));
    assert_eq!(classify(&fields(0x13, 7, 0)), Operation::Immediate(AluOp::And));
    assert_eq!(classify(&fields(0x13, 1, 0)), Operation::Immediate(AluOp::ShiftLeft));
    assert_eq!(classify(&fields(0x13, 5, 0x00)), Operation::Immediate(AluOp::ShiftRightLogical));
    assert_eq!(classify(&fields(0x13, 5, 0x20)), Operation::Immediate(AluOp::ShiftRightArithmetic));
    assert_eq!(classify(&fields(0x13, 2, 0)), Operation::Immediate(AluOp::SetLessThan));
    assert_eq!(classify(&fields(0x13, 3, 0)), Operation::Immediate(AluOp::SetLessThanUnsigned));
    assert_eq!(classify(&fields(0x13, 9, 0)), Operation::Illegal);
}

#[test]
fn classify_memory_operations() {
    assert_eq!(classify(&fields(0x03, 0, 0)), Operation::Load(LoadKind::Byte));
    assert_eq!(classify(&fields(0x03, 1, 0)), Operation::Load(LoadKind::Half));
    assert_eq!(classify(&fields(0x03, 2, 0)), Operation::Load(LoadKind::Word));
    assert_eq!(classify(&fields(0x03, 3, 0)), Operation::Illegal);
    assert_eq!(classify(&fields(0x03, 4, 0)), Operation::Load(LoadKind::ByteUnsigned));
    assert_eq!(classify(&fields(0x03, 5, 0)), Operation::Load(LoadKind::HalfUnsigned));
    assert_eq!(classify(&fields(0x03, 6, 0)), Operation::Illegal);
    assert_eq!(classify(&fields(0x03, 7, 0)), Operation::Illegal);
    assert_eq!(classify(&fields(0x23, 0, 0)), Operation::Store(StoreKind::Byte));
    assert_eq!(classify(&fields(0x23, 1, 0)), Operation::Store(StoreKind::Half));
    assert_eq!(classify(&fields(0x23, 2, 0)), Operation::Store(StoreKind::Word));
    assert_eq!(classify(&fields(0x23, 3, 0)), Operation::Illegal);
    assert_eq!(classify(&fields(0x23, 7, 0)), Operation::Illegal);
}

#[test]
fn classify_control_transfers() {
    assert_eq!(classify(&fields(0x63, 0, 0)), Operation::Branch(BranchCondition::Equal));
    assert_eq!(classify(&fields(0x63, 1, 0)), Operation::Branch(BranchCondition::NotEqual));
    assert_eq!(classify(&fields(0x63, 2, 0)), Operation::Illegal);
    assert_eq!(classify(&fields(0x63, 3, 0)), Operation::Illegal);
    assert_eq!(classify(&fields(0x63, 4, 0)), Operation::Branch(BranchCondition::Less));
    assert_eq!(classify(&fields(0x63, 5, 0)), Operation::Branch(BranchCondition::GreaterOrEqual));
    assert_eq!(classify(&fields(0x63, 6, 0)), Operation::Branch(BranchCondition::LessUnsigned));
    assert_eq!(
        classify(&fields(0x63, 7, 0)),
        Operation::Branch(BranchCondition::GreaterOrEqualUnsigned)
    );
    assert_eq!(classify(&fields(0x6F, 0, 0)), Operation::JumpAndLink);
    assert_eq!(classify(&fields(0x6F, 5, 0x11)), Operation::JumpAndLink);
    assert_eq!(classify(&fields(0x67, 0, 0)), Operation::JumpAndLinkRegister);
    assert_eq!(classify(&fields(0x67, 3, 0)), Operation::JumpAndLinkRegister);
}

#[test]
fn classify_upper_immediates_and_the_rest() {
    assert_eq!(classify(&fields(0x37, 0, 0)), Operation::LoadUpper);
    assert_eq!(classify(&fields(0x17, 0, 0)), Operation::AddUpperToPc);
    assert_eq!(classify(&fields(0x73, 0, 0)), Operation::Illegal);
    assert_eq!(classify(&fields(0x00, 0, 0)), Operation::Illegal);
    assert_eq!(classify(&fields(0x7F, 0, 0)), Operation::Illegal);
    assert_eq!(classify(&fields(0xB3, 0, 0)), Operation::Illegal);
}
