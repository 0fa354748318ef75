use vstd::prelude::*;

verus! {

/// Register-register arithmetic.
pub const OPCODE_R: u8 = 0b0110011;

/// Register-immediate arithmetic.
pub const OPCODE_I: u8 = 0b0010011;

/// Loads.
pub const OPCODE_I_LOAD: u8 = 0b0000011;

/// Indirect jump and link.
pub const OPCODE_I_JALR: u8 = 0b1100111;

/// Environment calls.
pub const OPCODE_I_ENV: u8 = 0b1110011;

/// Stores.
pub const OPCODE_S: u8 = 0b0100011;

/// Load upper immediate.
pub const OPCODE_LUI: u8 = 0b0110111;

/// Add upper immediate to the program counter.
pub const OPCODE_AUIPC: u8 = 0b0010111;

/// Conditional branches.
pub const OPCODE_B: u8 = 0b1100011;

/// Direct jump and link.
pub const OPCODE_JAL: u8 = 0b1101111;

/// The fields of one 32-bit instruction word.
///
/// `imm` is the immediate of the word's format, already extended to the 32-bit
/// container; formats without an immediate leave it zero.
#[derive(Clone, Copy, Debug, PartialEq, Eq, Structural)]
pub struct DecodedInstruction {
    pub opcode: u8,
    pub rd: u8,
    pub funct3: u8,
    pub rs1: u8,
    pub rs2: u8,
    pub funct7: u8,
    pub imm: u32,
}

impl DecodedInstruction {
    /// Every field fits the number of bits that the encoding gives it.
    pub open spec fn wf(&self) -> bool {
        &&& self.opcode < 128
        &&& self.rd < 32
        &&& self.funct3 < 8
        &&& self.rs1 < 32
        &&& self.rs2 < 32
        &&& self.funct7 < 128
    }

    pub fn is_well_formed(&self) -> (ok: bool)
        ensures
            ok == self.wf(),
    {
        self.opcode < 128 && self.rd < 32 && self.funct3 < 8 && self.rs1 < 32 && self.rs2 < 32
            && self.funct7 < 128
    }
}

/// Bits 0..=6 of the word.
pub open spec fn opcode_of(word: u32) -> u8 {
    (word % 128) as u8
}

/// Bits 7..=11 of the word.
pub open spec fn rd_of(word: u32) -> u8 {
    ((word / 0x80) % 32) as u8
}

/// Bits 12..=14 of the word.
pub open spec fn funct3_of(word: u32) -> u8 {
    ((word / 0x1000) % 8) as u8
}

/// Bits 15..=19 of the word.
pub open spec fn rs1_of(word: u32) -> u8 {
    ((word / 0x8000) % 32) as u8
}

/// Bits 20..=24 of the word.
pub open spec fn rs2_of(word: u32) -> u8 {
    ((word / 0x10_0000) % 32) as u8
}

/// Bits 25..=31 of the word.
pub open spec fn funct7_of(word: u32) -> u8 {
    (word / 0x200_0000) as u8
}

/// `value`, whose bit `bits - 1` is copied into every higher bit of the
/// 32-bit container.
pub open spec fn sign_extend_spec(value: u32, bits: u32) -> u32 {
    let high: u32 = if bits >= 32 {
        0u32
    } else {
        0xFFFF_FFFFu32 << bits
    };
    if (value >> ((bits - 1) as u32)) & 1 == 1 {
        value | high
    } else {
        value & !high
    }
}

/// The two's-complement container of a 12-bit quantity.
pub open spec fn extend12(raw: u32) -> u32 {
    if raw >= 0x800 {
        (raw + 0xFFFF_F000) as u32
    } else {
        raw
    }
}

/// The two's-complement container of a 13-bit quantity.
pub open spec fn extend13(raw: u32) -> u32 {
    if raw >= 0x1000 {
        (raw + 0xFFFF_E000) as u32
    } else {
        raw
    }
}

/// Immediate of the register-immediate format: bits 20..=31, signed.
pub open spec fn imm_i(word: u32) -> u32 {
    extend12(word / 0x10_0000)
}

/// Immediate of the store format: bits 25..=31 above bits 7..=11, signed.
pub open spec fn imm_s(word: u32) -> u32 {
    extend12(((word / 0x200_0000) * 32 + (word / 0x80) % 32) as u32)
}

/// Immediate of the branch format: bit 31, bit 7, bits 25..=30 and bits
/// 8..=11, from the top down, above a zero bit; signed.
pub open spec fn imm_b(word: u32) -> u32 {
    extend13(
        ((word / 0x8000_0000) * 0x1000 + ((word / 0x80) % 2) * 0x800 + ((word / 0x200_0000) % 64)
            * 32 + ((word / 0x100) % 16) * 2) as u32,
    )
}

/// Immediate of the upper-immediate format: bits 12..=31 in place, the low
/// twelve bits zero.
pub open spec fn imm_u(word: u32) -> u32 {
    ((word / 0x1000) * 0x1000) as u32
}

/// Immediate of the jump format: bit 31, bits 12..=19, bit 20 and bits
/// 21..=30, from the top down, above a zero bit.
pub open spec fn imm_j(word: u32) -> u32 {
    ((word / 0x8000_0000) * 0x10_0000 + ((word / 0x1000) % 256) * 0x1000 + ((word / 0x10_0000)
        % 2) * 0x800 + ((word / 0x20_0000) % 1024) * 2) as u32
}

/// The immediate that a word carries when its opcode is `opcode`.
pub open spec fn immediate_of(opcode: u8, word: u32) -> u32 {
    if opcode == OPCODE_I || opcode == OPCODE_I_LOAD || opcode == OPCODE_I_JALR || opcode
        == OPCODE_I_ENV {
        imm_i(word)
    } else if opcode == OPCODE_S {
        imm_s(word)
    } else if opcode == OPCODE_B {
        imm_b(word)
    } else if opcode == OPCODE_LUI || opcode == OPCODE_AUIPC {
        imm_u(word)
    } else if opcode == OPCODE_JAL {
        imm_j(word)
    } else {
        0
    }
}

/// The decoding of an instruction word.
pub open spec fn decoded(word: u32) -> DecodedInstruction {
    DecodedInstruction {
        opcode: opcode_of(word),
        rd: rd_of(word),
        funct3: funct3_of(word),
        rs1: rs1_of(word),
        rs2: rs2_of(word),
        funct7: funct7_of(word),
        imm: immediate_of(opcode_of(word), word),
    }
}

/// Copies bit `bits - 1` of `value` into every higher bit.
pub fn sign_extend(value: u32, bits: u32) -> (extended: u32)
    requires
        1 <= bits <= 32,
    ensures
        extended == sign_extend_spec(value, bits),
{
    let shift: u32 = 32 - bits;
    let extended = ((value << shift) as i32 >> shift) as u32;
    assert(((value << ((32 - bits) as u32)) as i32 >> ((32 - bits) as u32)) as u32
        == sign_extend_spec(value, bits)) by (bit_vector)
        requires
            1 <= bits <= 32,
    ;
    extended
}

/// Decodes the immediate of the register-immediate format.
pub fn decode_imm_i(word: u32) -> (imm: u32)
    ensures
        imm == imm_i(word),
{
    let raw = word >> 20;
    assert(sign_extend_spec(word >> 20, 12) == imm_i(word)) by (bit_vector);
    sign_extend(raw, 12)
}

/// Decodes the immediate of the store format.
pub fn decode_imm_s(word: u32) -> (imm: u32)
    ensures
        imm == imm_s(word),
{
    let raw = ((word >> 25) << 5) | ((word >> 7) & 0x1f);
    assert(sign_extend_spec(((word >> 25) << 5) | ((word >> 7) & 0x1f), 12) == imm_s(word))
        by (bit_vector);
    sign_extend(raw, 12)
}

/// Decodes the immediate of the branch format.
pub fn decode_imm_b(word: u32) -> (imm: u32)
    ensures
        imm == imm_b(word),
{
    let raw = (((word >> 31) & 0x1) << 12) | (((word >> 7) & 0x1) << 11) | (((word >> 25) & 0x3f)
        << 5) | (((word >> 8) & 0xf) << 1);
    assert(sign_extend_spec(
        (((word >> 31) & 0x1) << 12) | (((word >> 7) & 0x1) << 11) | (((word >> 25) & 0x3f) << 5)
            | (((word >> 8) & 0xf) << 1),
        13,
    ) == imm_b(word)) by (bit_vector);
    sign_extend(raw, 13)
}

/// Decodes the immediate of the upper-immediate format.
pub fn decode_imm_u(word: u32) -> (imm: u32)
    ensures
        imm == imm_u(word),
{
    assert(word & 0xfffff000 == imm_u(word)) by (bit_vector);
    word & 0xfffff000
}

/// Decodes the immediate of the jump format.
pub fn decode_imm_j(word: u32) -> (imm: u32)
    ensures
        imm == imm_j(word),
{
    assert((((word >> 31) & 0x1) << 20) | (((word >> 21) & 0x3ff) << 1) | (((word >> 20) & 0x1)
        << 11) | (((word >> 12) & 0xff) << 12) == imm_j(word)) by (bit_vector);
    (((word >> 31) & 0x1) << 20) | (((word >> 21) & 0x3ff) << 1) | (((word >> 20) & 0x1) << 11) | (((
    word >> 12) & 0xff) << 12)
}

/// Every field of a decoded word fits its bits.
pub proof fn lemma_decoded_is_well_formed(word: u32)
    ensures
        decoded(word).wf(),
{
}

/// The six fields of a word, each at its place, make up the word: no bit is
/// left out and none is read twice.
pub proof fn lemma_fields_partition_word(word: u32)
    ensures
        opcode_of(word) + 0x80 * rd_of(word) + 0x1000 * funct3_of(word) + 0x8000 * rs1_of(word)
            + 0x10_0000 * rs2_of(word) + 0x200_0000 * funct7_of(word) == word,
{
    assert(opcode_of(word) + 0x80 * rd_of(word) + 0x1000 * funct3_of(word) + 0x8000 * rs1_of(word)
        + 0x10_0000 * rs2_of(word) + 0x200_0000 * funct7_of(word) == word) by (bit_vector);
}

/// Branch targets are even: the branch immediate has a zero low bit.
pub proof fn lemma_branch_immediate_is_even(word: u32)
    ensures
        imm_b(word) % 2 == 0,
{
}

/// Jump targets are even: the jump immediate has a zero low bit.
pub proof fn lemma_jump_immediate_is_even(word: u32)
    ensures
        imm_j(word) % 2 == 0,
{
}

/// The upper immediate leaves its low twelve bits zero.
pub proof fn lemma_upper_immediate_low_bits(word: u32)
    ensures
        imm_u(word) % 0x1000 == 0,
{
}

/// Bit `i` of an extended value is bit `i` of the value below the sign bit,
/// and the sign bit from there up.
pub proof fn lemma_sign_extend_replicates(value: u32, bits: u32, i: u32)
    requires
        1 <= bits <= 32,
        i < 32,
    ensures
        (sign_extend_spec(value, bits) >> i) & 1 == (value >> (if i < bits {
            i
        } else {
            (bits - 1) as u32
        })) & 1,
{
    assert((sign_extend_spec(value, bits) >> i) & 1 == (value >> (if i < bits {
        i
    } else {
        (bits - 1) as u32
    })) & 1) by (bit_vector)
        requires
            1 <= bits <= 32,
            i < 32,
    ;
}

/// Over twelve bits, extension adds nothing to a value below 2^11 and fills
/// the twenty high bits of one from 2^11 on.
pub proof fn lemma_sign_extend_twelve(value: u32)
    requires
        value < 0x1000,
    ensures
        sign_extend_spec(value, 12) == extend12(value),
{
    assert(sign_extend_spec(value, 12) == extend12(value)) by (bit_vector)
        requires
            value < 0x1000,
    ;
}

/// Over thirteen bits, extension adds nothing to a value below 2^12 and
/// fills the nineteen high bits of one from 2^12 on.
pub proof fn lemma_sign_extend_thirteen(value: u32)
    requires
        value < 0x2000,
    ensures
        sign_extend_spec(value, 13) == extend13(value),
{
    assert(sign_extend_spec(value, 13) == extend13(value)) by (bit_vector)
        requires
            value < 0x2000,
    ;
}

/// Extension over the whole container changes nothing.
pub proof fn lemma_sign_extend_full_width(value: u32)
    ensures
        sign_extend_spec(value, 32) == value,
{
    assert(sign_extend_spec(value, 32) == value) by (bit_vector);
}

/// The integer that a 32-bit container stands for when read as two's
/// complement.
pub open spec fn signed32(a: u32) -> int {
    if a >= 0x8000_0000 {
        a - 0x1_0000_0000
    } else {
        a as int
    }
}

/// Read as two's complement, the extension of a `bits`-bit quantity is the
/// quantity itself below 2^(bits-1), and the quantity less 2^bits from there
/// on.
pub proof fn lemma_sign_extend_value(value: u32, bits: u32)
    requires
        1 <= bits <= 32,
        value < (1u64 << bits),
    ensures
        signed32(sign_extend_spec(value, bits)) == if value >= (1u64 << ((bits - 1) as u32)) {
            value - (1u64 << bits)
        } else {
            value as int
        },
{
    assert(signed32(sign_extend_spec(value, bits)) == if value >= (1u64 << ((bits - 1) as u32)) {
        value - (1u64 << bits)
    } else {
        value as int
    }) by (bit_vector)
        requires
            1 <= bits <= 32,
            value < (1u64 << bits),
    ;
}

} // verus!
