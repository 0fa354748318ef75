use vcpu::cpu::VirtualCPU;
use vcpu::decode::{
    DecodedInstruction, OPCODE_AUIPC, OPCODE_B, OPCODE_I, OPCODE_I_ENV, OPCODE_I_JALR,
    OPCODE_I_LOAD, OPCODE_JAL, OPCODE_LUI, OPCODE_R, OPCODE_S,
};
use vcpu::isa::{LoadKind, StoreKind};
use vcpu::machine::Outcome;

fn r_type(funct3: u8, funct7: u8, rd: u8, rs1: u8, rs2: u8) -> DecodedInstruction {
    DecodedInstruction { opcode: OPCODE_R, rd, funct3, rs1, rs2, funct7, imm: 0 }
}

fn i_type(funct3: u8, rd: u8, rs1: u8, imm: u32) -> DecodedInstruction {
    DecodedInstruction { opcode: OPCODE_I, rd, funct3, rs1, rs2: 0, funct7: 0, imm }
}

fn load(funct3: u8, rd: u8, rs1: u8, imm: u32) -> DecodedInstruction {
    DecodedInstruction { opcode: OPCODE_I_LOAD, rd, funct3, rs1, rs2: 0, funct7: 0, imm }
}

fn store(funct3: u8, rs1: u8, rs2: u8, imm: u32) -> DecodedInstruction {
    DecodedInstruction { opcode: OPCODE_S, rd: 0, funct3, rs1, rs2, funct7: 0, imm }
}

fn branch(funct3: u8, rs1: u8, rs2: u8, imm: u32) -> DecodedInstruction {
    DecodedInstruction { opcode: OPCODE_B, rd: 0, funct3, rs1, rs2, funct7: 0, imm }
}

fn registers_of(cpu: &VirtualCPU) -> Vec<u64> {
    let mut all = Vec::new();
    for index in 0..32u8 {
        all.push(cpu.regs.read(index));
    }
    all
}

#[test]
fn test_load_store_instructions() {
    let mut cpu = VirtualCPU::new();

    cpu.memory.set(0x1000, 0x12);
    cpu.memory.set(0x1001, 0x34);
    cpu.memory.set(0x1002, 0x55);
    cpu.memory.set(0x1003, 0x56);
    cpu.memory.set(0x1004, 0x78);

    cpu.regs.write(1, 0x1000);
    cpu.regs.write(2, 0x00);

    let lw_instruction = DecodedInstruction {
        opcode: OPCODE_I_LOAD,
        funct3: 0x2,
        funct7: 0x00,
        rd: 3,
        rs1: 1,
        rs2: 0,
        imm: 0x4,
    };
    cpu.execute(lw_instruction);
    assert_eq!(cpu.regs.read(3), 0x78);

    let lh_instruction = DecodedInstruction {
        opcode: OPCODE_I_LOAD,
        funct3: 0x1,
        funct7: 0x00,
        rd: 4,
        rs1: 1,
        rs2: 0,
        imm: 0x2,
    };
    cpu.execute(lh_instruction);
    // the byte at the lower address is the low byte of the halfword
    assert_eq!(cpu.regs.read(4), 0x5655);

    let lb_instruction = DecodedInstruction {
        opcode: OPCODE_I_LOAD,
        funct3: 0x0,
        funct7: 0x00,
        rd: 5,
        rs1: 1,
        rs2: 0,
        imm: 0x1,
    };
    cpu.execute(lb_instruction);
    assert_eq!(cpu.regs.read(5), 0x34);

    cpu.regs.write(6, 0xABCD1234);
    let sw_instruction = DecodedInstruction {
        opcode: OPCODE_S,
        funct3: 0x2,
        funct7: 0x00,
        rd: 0,
        rs1: 1,
        rs2: 6,
        imm: 0x4,
    };
    cpu.execute(sw_instruction);
    assert_eq!(cpu.memory.get(0x1004), 0x34);

    cpu.regs.write(7, 0x1234);
    let sh_instruction = DecodedInstruction {
        opcode: OPCODE_S,
        funct3: 0x1,
        funct7: 0x00,
        rd: 0,
        rs1: 1,
        rs2: 7,
        imm: 0x2,
    };
    cpu.execute(sh_instruction);
    assert_eq!(cpu.memory.get(0x1002), 0x34);
}

#[test]
fn add_and_sub() {
    let mut cpu = VirtualCPU::with_entry(0x40);
    cpu.regs.write(1, 5);
    cpu.regs.write(2, 7);
    assert_eq!(cpu.execute(r_type(0, 0x00, 3, 1, 2)), Outcome::FallThrough);
    assert_eq!(cpu.regs.read(3), 12);
    assert_eq!(cpu.execute(r_type(0, 0x20, 4, 1, 2)), Outcome::FallThrough);
    assert_eq!(cpu.regs.read(4), 0xFFFF_FFFF_FFFF_FFFE);
    cpu.regs.write(5, u64::MAX);
    cpu.execute(r_type(0, 0x00, 6, 5, 2));
    assert_eq!(cpu.regs.read(6), 6);
    assert_eq!(cpu.regs.pc(), 0x40);
}

#[test]
fn logic_and_shifts_on_registers() {
    let mut cpu = VirtualCPU::new();
    cpu.regs.write(1, 0b1100);
    cpu.regs.write(2, 0b1010);
    cpu.execute(r_type(4, 0, 3, 1, 2));
    assert_eq!(cpu.regs.read(3), 0b0110);
    cpu.execute(r_type(6, 0, 3, 1, 2));
    assert_eq!(cpu.regs.read(3), 0b1110);
    cpu.execute(r_type(7, 0, 3, 1, 2));
    assert_eq!(cpu.regs.read(3), 0b1000);
    cpu.regs.write(4, 0x8000_0000_0000_0010);
    cpu.regs.write(5, 36);
    cpu.execute(r_type(1, 0, 3, 4, 5));
    assert_eq!(cpu.regs.read(3), 0x100);
    cpu.execute(r_type(5, 0x00, 3, 4, 5));
    assert_eq!(cpu.regs.read(3), 0x0800_0000_0000_0001);
    cpu.execute(r_type(5, 0x20, 3, 4, 5));
    assert_eq!(cpu.regs.read(3), 0xF800_0000_0000_0001);
}

#[test]
fn set_less_than_on_registers() {
    let mut cpu = VirtualCPU::new();
    cpu.regs.write(1, u64::MAX);
    cpu.regs.write(2, 1);
    cpu.execute(r_type(2, 0, 3, 1, 2));
    assert_eq!(cpu.regs.read(3), 1);
    cpu.execute(r_type(3, 0, 3, 1, 2));
    assert_eq!(cpu.regs.read(3), 0);
    cpu.execute(r_type(2, 0, 3, 2, 1));
    assert_eq!(cpu.regs.read(3), 0);
    cpu.execute(r_type(3, 0, 3, 2, 1));
    assert_eq!(cpu.regs.read(3), 1);
}

#[test]
fn immediate_operations() {
    let mut cpu = VirtualCPU::new();
    cpu.regs.write(1, 0x10);
    assert_eq!(cpu.execute(i_type(0, 2, 1, 5)), Outcome::FallThrough);
    assert_eq!(cpu.regs.read(2), 0x15);
    cpu.execute(i_type(4, 2, 1, 0x11));
    assert_eq!(cpu.regs.read(2), 0x01);
    cpu.execute(i_type(6, 2, 1, 0x01));
    assert_eq!(cpu.regs.read(2), 0x11);
    cpu.execute(i_type(7, 2, 1, 0x30));
    assert_eq!(cpu.regs.read(2), 0x10);
    cpu.execute(i_type(1, 2, 1, 3));
    assert_eq!(cpu.regs.read(2), 0x80);
    cpu.execute(i_type(5, 2, 1, 3));
    assert_eq!(cpu.regs.read(2), 0x02);
    cpu.execute(i_type(2, 2, 1, 0x11));
    assert_eq!(cpu.regs.read(2), 1);
    cpu.execute(i_type(3, 2, 1, 0x10));
    assert_eq!(cpu.regs.read(2), 0);
}

#[test]
fn immediate_is_widened_with_zeros() {
    let mut cpu = VirtualCPU::new();
    cpu.regs.write(1, 1);
    cpu.execute(i_type(0, 2, 1, 0xFFFF_FFFF));
    assert_eq!(cpu.regs.read(2), 0x1_0000_0000);
    cpu.regs.write(3, u64::MAX);
    // read as two's complement the register is below the immediate, unsigned it is above
    cpu.execute(i_type(2, 4, 3, 0xFFFF_FFFF));
    assert_eq!(cpu.regs.read(4), 1);
    cpu.execute(i_type(3, 4, 3, 0xFFFF_FFFF));
    assert_eq!(cpu.regs.read(4), 0);
}

#[test]
fn arithmetic_shift_by_immediate_goes_by_the_function_field() {
    let mut cpu = VirtualCPU::new();
    cpu.regs.write(2, 0x8000_0000_0000_0000);
    // SRAI x1, x2, 4
    let srai: u32 = (0x20 << 25) | (4 << 20) | (2 << 15) | (5 << 12) | (1 << 7) | 0x13;
    let decoded = cpu.decode(srai);
    assert_eq!(decoded.imm, 0x404);
    cpu.execute(decoded);
    assert_eq!(cpu.regs.read(1), 0xF800_0000_0000_0000);
    // SRLI x1, x2, 4
    let srli: u32 = (4 << 20) | (2 << 15) | (5 << 12) | (1 << 7) | 0x13;
    let decoded = cpu.decode(srli);
    cpu.execute(decoded);
    assert_eq!(cpu.regs.read(1), 0x0800_0000_0000_0000);
}

#[test]
fn loads_of_each_kind() {
    let mut cpu = VirtualCPU::new();
    cpu.memory.set(0x2000, 0x80);
    cpu.memory.set(0x2001, 0x91);
    cpu.memory.set(0x2002, 0xA2);
    cpu.memory.set(0x2003, 0xB3);
    cpu.regs.write(1, 0x1FF0);
    assert_eq!(cpu.execute(load(0, 2, 1, 0x10)), Outcome::FallThrough);
    assert_eq!(cpu.regs.read(2), 0xFFFF_FFFF_FFFF_FF80);
    cpu.execute(load(4, 2, 1, 0x10));
    assert_eq!(cpu.regs.read(2), 0x80);
    cpu.execute(load(1, 2, 1, 0x10));
    assert_eq!(cpu.regs.read(2), 0xFFFF_FFFF_FFFF_9180);
    cpu.execute(load(5, 2, 1, 0x10));
    assert_eq!(cpu.regs.read(2), 0x9180);
    cpu.execute(load(2, 2, 1, 0x10));
    assert_eq!(cpu.regs.read(2), 0xFFFF_FFFF_B3A2_9180);
    cpu.execute(load(2, 2, 1, 0x20));
    assert_eq!(cpu.regs.read(2), 0);
    assert_eq!(cpu.load(LoadKind::Word, 0x2000), 0xFFFF_FFFF_B3A2_9180);
    assert_eq!(cpu.load(LoadKind::HalfUnsigned, 0x2002), 0xB3A2);
}

#[test]
fn stores_of_each_kind() {
    let mut cpu = VirtualCPU::new();
    cpu.regs.write(1, 0x3000);
    cpu.regs.write(2, 0x1122_3344_5566_7788);
    assert_eq!(cpu.execute(store(0, 1, 2, 0)), Outcome::FallThrough);
    assert_eq!(cpu.memory.get(0x3000), 0x88);
    assert!(!cpu.memory.is_written(0x3001));
    cpu.execute(store(1, 1, 2, 0x10));
    assert_eq!(cpu.memory.get(0x3010), 0x88);
    assert_eq!(cpu.memory.get(0x3011), 0x77);
    assert!(!cpu.memory.is_written(0x3012));
    cpu.execute(store(2, 1, 2, 0x20));
    assert_eq!(cpu.memory.get(0x3020), 0x88);
    assert_eq!(cpu.memory.get(0x3021), 0x77);
    assert_eq!(cpu.memory.get(0x3022), 0x66);
    assert_eq!(cpu.memory.get(0x3023), 0x55);
    assert!(!cpu.memory.is_written(0x3024));
    cpu.store(StoreKind::Half, 0x3030, 0xFFFF_FFFF_FFFF_ABCD);
    assert_eq!(cpu.memory.load_half(0x3030), 0xABCD);
    assert!(!cpu.memory.is_written(0x3032));
}

#[test]
fn store_then_load_word_round_trip() {
    let values: [u64; 4] = [0, 0x7FFF_FFFF, 0x1234_5678, 0x1_0000_0042];
    for value in values {
        let mut cpu = VirtualCPU::new();
        cpu.regs.write(1, 0x4000);
        cpu.regs.write(2, value);
        cpu.execute(store(2, 1, 2, 8));
        cpu.execute(load(2, 3, 1, 8));
        assert_eq!(cpu.regs.read(3), value & 0xFFFF_FFFF);
    }
    let mut cpu = VirtualCPU::new();
    cpu.regs.write(1, 0x4000);
    cpu.regs.write(2, 0xABCD_1234);
    cpu.execute(store(2, 1, 2, 8));
    cpu.execute(load(2, 3, 1, 8));
    assert_eq!(cpu.regs.read(3), 0xFFFF_FFFF_ABCD_1234);
    assert_eq!(cpu.memory.load_word(0x4008), 0xABCD_1234);
}

#[test]
fn effective_address_wraps() {
    let mut cpu = VirtualCPU::new();
    cpu.regs.write(1, u64::MAX);
    cpu.regs.write(2, 0xAB);
    cpu.execute(store(0, 1, 2, 2));
    assert_eq!(cpu.memory.get(1), 0xAB);
    cpu.execute(load(4, 3, 1, 2));
    assert_eq!(cpu.regs.read(3), 0xAB);
}

#[test]
fn equal_branch_taken_moves_by_the_immediate() {
    let mut cpu = VirtualCPU::with_entry(0x100);
    cpu.regs.write(1, 9);
    cpu.regs.write(2, 9);
    assert_eq!(cpu.execute(branch(0, 1, 2, 0x20)), Outcome::Transferred);
    assert_eq!(cpu.regs.pc(), 0x120);
}

#[test]
fn equal_branch_not_taken_leaves_the_program_counter() {
    let mut cpu = VirtualCPU::with_entry(0x100);
    cpu.regs.write(1, 9);
    cpu.regs.write(2, 8);
    assert_eq!(cpu.execute(branch(0, 1, 2, 0x20)), Outcome::FallThrough);
    assert_eq!(cpu.regs.pc(), 0x100);
}

#[test]
fn branches_of_each_kind() {
    let minus_one = u64::MAX;
    // (funct3, rs1 value, rs2 value, taken)
    let cases: [(u8, u64, u64, bool); 12] = [
        (0, 3, 3, true),
        (0, 3, 4, false),
        (1, 3, 4, true),
        (1, 3, 3, false),
        (4, minus_one, 1, true),
        (4, 1, minus_one, false),
        (5, 1, minus_one, true),
        (5, minus_one, 1, false),
        (6, 1, minus_one, true),
        (6, minus_one, 1, false),
        (7, minus_one, 1, true),
        (7, 1, minus_one, false),
    ];
    for (funct3, a, b, taken) in cases {
        let mut cpu = VirtualCPU::with_entry(0x1000);
        cpu.regs.write(1, a);
        cpu.regs.write(2, b);
        let outcome = cpu.execute(branch(funct3, 1, 2, 0x40));
        if taken {
            assert_eq!(outcome, Outcome::Transferred);
            assert_eq!(cpu.regs.pc(), 0x1040);
        } else {
            assert_eq!(outcome, Outcome::FallThrough);
            assert_eq!(cpu.regs.pc(), 0x1000);
        }
    }
}

#[test]
fn branch_target_wraps() {
    let mut cpu = VirtualCPU::with_entry(u64::MAX - 1);
    assert_eq!(cpu.execute(branch(0, 0, 0, 4)), Outcome::Transferred);
    assert_eq!(cpu.regs.pc(), 2);
}

#[test]
fn jump_and_link() {
    let mut cpu = VirtualCPU::with_entry(0x1000);
    let jal = DecodedInstruction { opcode: OPCODE_JAL, rd: 1, funct3: 0, rs1: 0, rs2: 0, funct7: 0, imm: 0x20 };
    assert_eq!(cpu.execute(jal), Outcome::Transferred);
    assert_eq!(cpu.regs.read(1), 0x1004);
    assert_eq!(cpu.regs.pc(), 0x1020);
    let discard = DecodedInstruction { rd: 0, ..jal };
    assert_eq!(cpu.execute(discard), Outcome::Transferred);
    assert_eq!(cpu.regs.read(0), 0);
    assert_eq!(cpu.regs.pc(), 0x1040);
}

#[test]
fn indirect_jump_clears_the_low_bit() {
    let mut cpu = VirtualCPU::with_entry(0x500);
    cpu.regs.write(1, 0x2003);
    let jalr = DecodedInstruction { opcode: OPCODE_I_JALR, rd: 2, funct3: 0, rs1: 1, rs2: 0, funct7: 0, imm: 0x1 };
    assert_eq!(cpu.execute(jalr), Outcome::Transferred);
    assert_eq!(cpu.regs.pc(), 0x2004);
    assert_eq!(cpu.regs.read(2), 0x504);
    assert_eq!(cpu.regs.read(1), 0x2003);
}

#[test]
fn indirect_jump_to_an_odd_sum() {
    let mut cpu = VirtualCPU::new();
    cpu.regs.write(1, 0x2002);
    let jalr = DecodedInstruction { opcode: OPCODE_I_JALR, rd: 0, funct3: 0, rs1: 1, rs2: 0, funct7: 0, imm: 0x3 };
    cpu.execute(jalr);
    assert_eq!(cpu.regs.pc(), 0x2004);
    cpu.regs.write(1, u64::MAX);
    let jalr = DecodedInstruction { imm: 0, ..jalr };
    cpu.execute(jalr);
    assert_eq!(cpu.regs.pc(), u64::MAX - 1);
}

#[test]
fn indirect_jump_links_before_it_reads_its_base() {
    let mut cpu = VirtualCPU::with_entry(0x100);
    cpu.regs.write(1, 0x2000);
    let jalr = DecodedInstruction { opcode: OPCODE_I_JALR, rd: 1, funct3: 0, rs1: 1, rs2: 0, funct7: 0, imm: 0x10 };
    cpu.execute(jalr);
    assert_eq!(cpu.regs.read(1), 0x104);
    assert_eq!(cpu.regs.pc(), 0x114);
}

#[test]
fn upper_immediates() {
    let mut cpu = VirtualCPU::with_entry(0x1000);
    let lui = DecodedInstruction { opcode: OPCODE_LUI, rd: 5, funct3: 0, rs1: 0, rs2: 0, funct7: 0, imm: 0xABCD_E000 };
    assert_eq!(cpu.execute(lui), Outcome::FallThrough);
    assert_eq!(cpu.regs.read(5), 0xABCD_E000);
    let auipc = DecodedInstruction { opcode: OPCODE_AUIPC, ..lui };
    assert_eq!(cpu.execute(auipc), Outcome::FallThrough);
    assert_eq!(cpu.regs.read(5), 0xABCD_F000);
    assert_eq!(cpu.regs.pc(), 0x1000);
}

#[test]
fn register_zero_discards_results() {
    let mut cpu = VirtualCPU::new();
    cpu.regs.write(1, 5);
    cpu.execute(i_type(0, 0, 1, 7));
    assert_eq!(cpu.regs.read(0), 0);
    cpu.memory.set(0x10, 0xFF);
    cpu.execute(load(4, 0, 0, 0x10));
    assert_eq!(cpu.regs.read(0), 0);
    // and as a source it is zero
    cpu.execute(r_type(0, 0, 2, 0, 1));
    assert_eq!(cpu.regs.read(2), 5);
}

#[test]
fn illegal_instructions_change_nothing() {
    let illegal: [DecodedInstruction; 7] = [
        r_type(0, 0x01, 3, 1, 2),
        load(3, 3, 1, 0),
        load(7, 3, 1, 0),
        store(3, 1, 2, 0),
        branch(2, 1, 1, 0x40),
        DecodedInstruction { opcode: OPCODE_I_ENV, rd: 3, funct3: 0, rs1: 1, rs2: 2, funct7: 0, imm: 0 },
        DecodedInstruction { opcode: 0, rd: 3, funct3: 0, rs1: 1, rs2: 2, funct7: 0, imm: 0 },
    ];
    for inst in illegal {
        let mut cpu = VirtualCPU::with_entry(0x700);
        cpu.regs.write(1, 0x900);
        cpu.regs.write(2, 0x77);
        cpu.regs.write(3, 0x33);
        let before = registers_of(&cpu);
        assert_eq!(cpu.execute(inst), Outcome::Illegal);
        assert_eq!(registers_of(&cpu), before);
        assert_eq!(cpu.regs.pc(), 0x700);
        assert!(!cpu.memory.is_written(0x900));
    }
}
