//! The RV32I instruction decoder: a pure function from a 32-bit
//! instruction word to a structured operation with a sign-extended
//! immediate, or a decode error.

use vstd::prelude::*;

verus! {

/// The seven instruction encodings of the RV32I base instruction set.
#[derive(Clone, Copy, Debug, PartialEq, Eq, Structural)]
pub enum InstructionType {
    R,
    I,
    S,
    B,
    U,
    J,
    Fence,
}

/// The ABI names of the 32 integer registers. The declaration order
/// gives each register its index, x0 (`Zero`) through x31 (`T6`).
#[derive(Clone, Copy, Debug, PartialEq, Eq, Structural)]
pub enum Register {
    // Zero constant
    Zero,
    // Return address
    RA,
    // Stack pointer
    SP,
    // Global pointer
    GP,
    // Thread pointer
    TP,
    // Temporary registers
    T0,
    T1,
    T2,
    // Callee-saved registers
    S0,
    S1,
    // Argument registers
    A0,
    A1,
    A2,
    A3,
    A4,
    A5,
    A6,
    A7,
    // Callee-saved registers
    S2,
    S3,
    S4,
    S5,
    S6,
    S7,
    S8,
    S9,
    S10,
    S11,
    // Temporary registers
    T3,
    T4,
    T5,
    T6,
}

/// The closed enumeration of RV32I operations.
#[derive(Clone, Copy, Debug, PartialEq, Eq, Structural)]
pub enum Opcode {
    Add,
    Sub,
    Xor,
    Or,
    And,
    Sll,
    Srl,
    Sra,
    Slt,
    Sltu,
    Addi,
    Xori,
    Ori,
    Andi,
    Slli,
    Srli,
    Srai,
    Slti,
    Sltiu,
    Lb,
    Lh,
    Lw,
    Lbu,
    Lhu,
    Sb,
    Sh,
    Sw,
    Beq,
    Bne,
    Blt,
    Bge,
    Bltu,
    Bgeu,
    Jal,
    Jalr,
    Lui,
    Auipc,
    Ecall,
    Ebreak,
    Eother,
    Fence,
}

/// A decoded instruction. `imm` is already sign-extended to 32 bits for
/// the signed formats, and carries the 12-bit left shift for the U format.
#[derive(Clone, Copy, Debug, PartialEq, Eq, Structural)]
pub struct DecodedInstruction {
    pub inst_type: InstructionType,
    pub opcode: Opcode,
    pub rd: u32,
    pub rs1: u32,
    pub rs2: u32,
    pub funct3: u32,
    pub funct7: u32,
    pub imm: u32,
}

impl DecodedInstruction {
    /// Register indices come from 5-bit fields, so they are below 32.
    pub open spec fn wf(self) -> bool {
        self.rd < 32 && self.rs1 < 32 && self.rs2 < 32
    }
}

/// Why a word failed to decode: either the low seven opcode bits match
/// no known format, or the format is known but the sub-opcode fields
/// name no defined operation.
#[derive(Clone, Copy, Debug, PartialEq, Eq, Structural)]
pub enum DecodeError {
    UnsupportedInstructionType,
    UnknownOpcode,
}

/// The mask with the low `n` bits set.
pub open spec fn low_mask(n: u8) -> u32
    recommends
        n < 32,
{
    ((1u32 << (n as u32)) - 1) as u32
}

proof fn lemma_shl1_at_least_one(n: u32)
    by (bit_vector)
    requires
        n < 32,
    ensures
        1u32 << n >= 1,
{
}

/// The mask with the low `n` bits set, as executable code.
pub fn mask(n: u8) -> (r: u32)
    requires
        n < 32,
    ensures
        r == low_mask(n),
{
    proof {
        lemma_shl1_at_least_one(n as u32);
    }
    (1u32 << (n as u32)) - 1
}

/// What sign extension from `width` bits to 32 bits means: when the
/// sign bit (bit `width - 1`) is set, every bit above it is set in the
/// result; otherwise the value is unchanged.
pub open spec fn spec_sext(val: u32, width: u32) -> u32
    recommends
        1 <= width <= 32,
{
    if width == 32 {
        val
    } else if (val >> (width - 1) as u32) & 1 == 1 {
        val | (0xffff_ffffu32 << width)
    } else {
        val
    }
}

/// Sign extension: widens a two's-complement value of `bit_count` bits
/// to 32 bits, replicating the most significant bit of the original
/// width.
pub fn sext(val: u32, bit_count: usize) -> (r: u32)
    requires
        1 <= bit_count <= 32,
    ensures
        r == spec_sext(val, bit_count as u32),
{
    if bit_count == 32 {
        return val;
    }
    // if the sign bit is 1 (negative in two's-complement reading),
    // pad the most significant side with 1's
    let sign_bit = (val >> (bit_count - 1) as u32) & 1;
    if sign_bit == 1 {
        val | (0xffff_ffffu32 << bit_count as u32)
    } else {
        val
    }
}

/// Copies the `count`-bit field of `src` whose highest bit is
/// `src_start` into `dest`, placing its highest bit at `dest_start`.
pub open spec fn spec_map_range(src: u32, dest: u32, src_start: u8, dest_start: u8, count: u8) -> u32
    recommends
        1 <= count < 32,
        src_start < 32,
        dest_start < 32,
        count <= src_start + 1,
        count <= dest_start + 1,
{
    dest | (((src >> ((src_start + 1 - count) as u32)) & low_mask(count)) << ((dest_start + 1
        - count) as u32))
}

/// Copies the bit range of `src` ending at bit `src_start` (inclusive,
/// `count` bits wide) into `dest` so that it ends at bit `dest_start`.
pub fn map_range(src: u32, dest: u32, src_start: u8, dest_start: u8, count: u8) -> (r: u32)
    requires
        1 <= count < 32,
        src_start < 32,
        dest_start < 32,
        count <= src_start + 1,
        count <= dest_start + 1,
    ensures
        r == spec_map_range(src, dest, src_start, dest_start, count),
{
    let right_shift_value = src_start + 1 - count;  // +1 because of 0 index
    let val_1_range = (src >> right_shift_value as u32) & mask(count);

    let left_shift_value = dest_start + 1 - count;  // +1 because of 0 index
    dest | (val_1_range << left_shift_value as u32)
}

/// I-type immediate: imm[11:0] <- inst[31:20], sign-extended from bit 11.
pub open spec fn imm_i(w: u32) -> u32 {
    spec_sext(spec_map_range(w, 0, 31, 11, 12), 12)
}

/// S-type immediate: imm[4:0] <- inst[11:7], imm[11:5] <- inst[31:25],
/// sign-extended from bit 11.
pub open spec fn imm_s(w: u32) -> u32 {
    spec_sext(spec_map_range(w, spec_map_range(w, 0, 11, 4, 5), 31, 11, 7), 12)
}

/// B-type immediate: imm[12] <- inst[31], imm[10:5] <- inst[30:25],
/// imm[4:1] <- inst[11:8], imm[11] <- inst[7], bit 0 is zero,
/// sign-extended from bit 12.
pub open spec fn imm_b(w: u32) -> u32 {
    spec_sext(
        spec_map_range(
            w,
            spec_map_range(w, spec_map_range(w, spec_map_range(w, 0, 31, 12, 1), 30, 10, 6), 11, 4, 4),
            7,
            11,
            1,
        ),
        13,
    )
}

/// U-type immediate: imm[31:12] <- inst[31:12], with the low 12 bits
/// zero (the 12-bit left shift is applied in the stored immediate).
pub open spec fn imm_u(w: u32) -> u32 {
    spec_map_range(w, 0, 31, 31, 20)
}

/// J-type immediate: imm[20] <- inst[31], imm[10:1] <- inst[30:21],
/// imm[11] <- inst[20], imm[19:12] <- inst[19:12], bit 0 is zero,
/// sign-extended from bit 20.
pub open spec fn imm_j(w: u32) -> u32 {
    spec_sext(
        spec_map_range(
            w,
            spec_map_range(
                w,
                spec_map_range(w, spec_map_range(w, 0, 31, 20, 1), 30, 10, 10),
                20,
                11,
                1,
            ),
            19,
            19,
            8,
        ),
        21,
    )
}

/// The immediate each format assembles from the instruction word.
pub open spec fn spec_immediate(t: InstructionType, w: u32) -> u32 {
    match t {
        InstructionType::R => 0,
        InstructionType::Fence => 0,
        InstructionType::I => imm_i(w),
        InstructionType::S => imm_s(w),
        InstructionType::B => imm_b(w),
        InstructionType::U => imm_u(w),
        InstructionType::J => imm_j(w),
    }
}

/// Assembles the immediate for the given format, sign-extending where
/// the format calls for it.
pub fn decode_immediate(instruction_type: &InstructionType, instruction: u32) -> (r: u32)
    ensures
        r == spec_immediate(*instruction_type, instruction),
{
    let mut imm: u32 = 0;
    match instruction_type {
        InstructionType::R | InstructionType::Fence => imm,
        InstructionType::I => {
            // inst[31:20] -> imm[11:0]
            sext(map_range(instruction, imm, 31, 11, 12), 12)
        },
        InstructionType::S => {
            // inst[11:7] -> imm[4:0]
            imm = map_range(instruction, imm, 11, 4, 5);
            // inst[31:25] -> imm[11:5]
            imm = map_range(instruction, imm, 31, 11, 7);
            // highest imm bit index = 11
            imm = sext(imm, 12);
            imm
        },
        InstructionType::B => {
            // inst[31] -> imm[12]
            imm = map_range(instruction, imm, 31, 12, 1);
            // inst[30:25] -> imm[10:5]
            imm = map_range(instruction, imm, 30, 10, 6);
            // inst[11:8] -> imm[4:1]
            imm = map_range(instruction, imm, 11, 4, 4);
            // inst[7] -> imm[11]
            imm = map_range(instruction, imm, 7, 11, 1);
            // highest imm bit index = 12
            imm = sext(imm, 13);
            imm
        },
        InstructionType::U => {
            // the U-type immediate is a 20-bit value that LUI and AUIPC
            // use shifted left by 12 bits; the shift is applied here, so
            // the mapping is inst[31:12] -> imm[31:12]
            imm = map_range(instruction, imm, 31, 31, 20);
            // already 32 bits, nothing to sign-extend
            imm
        },
        InstructionType::J => {
            // inst[31] -> imm[20]
            imm = map_range(instruction, imm, 31, 20, 1);
            // inst[30:21] -> imm[10:1]
            imm = map_range(instruction, imm, 30, 10, 10);
            // inst[20] -> imm[11]
            imm = map_range(instruction, imm, 20, 11, 1);
            // inst[19:12] -> imm[19:12]
            imm = map_range(instruction, imm, 19, 19, 8);
            // highest imm bit index = 20
            imm = sext(imm, 21);
            imm
        },
    }
}

/// Which encoding the low seven opcode bits select.
pub open spec fn spec_format(opcode_value: u32) -> Option<InstructionType> {
    if opcode_value == 0b0110011 {
        Some(InstructionType::R)
    } else if opcode_value == 0b0010011 || opcode_value == 0b0000011 || opcode_value == 0b1110011
        || opcode_value == 0b1100111 {
        Some(InstructionType::I)
    } else if opcode_value == 0b0100011 {
        Some(InstructionType::S)
    } else if opcode_value == 0b1100011 {
        Some(InstructionType::B)
    } else if opcode_value == 0b1101111 {
        Some(InstructionType::J)
    } else if opcode_value == 0b0110111 || opcode_value == 0b0010111 {
        Some(InstructionType::U)
    } else if opcode_value == 0b0001111 {
        Some(InstructionType::Fence)
    } else {
        None
    }
}

/// Which operation the sub-opcode fields select within a format.
pub open spec fn spec_opcode(
    opcode_value: u32,
    t: InstructionType,
    funct3: u32,
    funct7: u32,
    imm: u32,
) -> Result<Opcode, DecodeError> {
    match t {
        InstructionType::R => {
            if funct3 == 0x0 {
                if funct7 == 0x00 {
                    Ok(Opcode::Add)
                } else if funct7 == 0x20 {
                    Ok(Opcode::Sub)
                } else {
                    Err(DecodeError::UnknownOpcode)
                }
            } else if funct3 == 0x4 {
                Ok(Opcode::Xor)
            } else if funct3 == 0x6 {
                Ok(Opcode::Or)
            } else if funct3 == 0x7 {
                Ok(Opcode::And)
            } else if funct3 == 0x1 {
                Ok(Opcode::Sll)
            } else if funct3 == 0x5 {
                if funct7 == 0x00 {
                    Ok(Opcode::Srl)
                } else if funct7 == 0x20 {
                    Ok(Opcode::Sra)
                } else {
                    Err(DecodeError::UnknownOpcode)
                }
            } else if funct3 == 0x2 {
                Ok(Opcode::Slt)
            } else {
                Ok(Opcode::Sltu)
            }
        },
        InstructionType::I => {
            if opcode_value == 0b0010011 {
                if funct3 == 0x0 {
                    Ok(Opcode::Addi)
                } else if funct3 == 0x4 {
                    Ok(Opcode::Xori)
                } else if funct3 == 0x6 {
                    Ok(Opcode::Ori)
                } else if funct3 == 0x7 {
                    Ok(Opcode::Andi)
                } else if funct3 == 0x1 {
                    Ok(Opcode::Slli)
                } else if funct3 == 0x5 {
                    if (imm >> 5) & low_mask(7) == 0x00 {
                        Ok(Opcode::Srli)
                    } else if (imm >> 5) & low_mask(7) == 0x20 {
                        Ok(Opcode::Srai)
                    } else {
                        Err(DecodeError::UnknownOpcode)
                    }
                } else if funct3 == 0x2 {
                    Ok(Opcode::Slti)
                } else {
                    Ok(Opcode::Sltiu)
                }
            } else if opcode_value == 0b0000011 {
                if funct3 == 0x0 {
                    Ok(Opcode::Lb)
                } else if funct3 == 0x1 {
                    Ok(Opcode::Lh)
                } else if funct3 == 0x2 {
                    Ok(Opcode::Lw)
                } else if funct3 == 0x4 {
                    Ok(Opcode::Lbu)
                } else if funct3 == 0x5 {
                    Ok(Opcode::Lhu)
                } else {
                    Err(DecodeError::UnknownOpcode)
                }
            } else if opcode_value == 0b1100111 {
                Ok(Opcode::Jalr)
            } else if opcode_value == 0b1110011 {
                if imm == 0x0 {
                    Ok(Opcode::Ecall)
                } else if imm == 0x1 {
                    Ok(Opcode::Ebreak)
                } else {
                    Ok(Opcode::Eother)
                }
            } else {
                Err(DecodeError::UnknownOpcode)
            }
        },
        InstructionType::S => {
            if funct3 == 0x0 {
                Ok(Opcode::Sb)
            } else if funct3 == 0x1 {
                Ok(Opcode::Sh)
            } else if funct3 == 0x2 {
                Ok(Opcode::Sw)
            } else {
                Err(DecodeError::UnknownOpcode)
            }
        },
        InstructionType::B => {
            if funct3 == 0x0 {
                Ok(Opcode::Beq)
            } else if funct3 == 0x1 {
                Ok(Opcode::Bne)
            } else if funct3 == 0x4 {
                Ok(Opcode::Blt)
            } else if funct3 == 0x5 {
                Ok(Opcode::Bge)
            } else if funct3 == 0x6 {
                Ok(Opcode::Bltu)
            } else if funct3 == 0x7 {
                Ok(Opcode::Bgeu)
            } else {
                Err(DecodeError::UnknownOpcode)
            }
        },
        InstructionType::U => {
            if opcode_value == 0b0110111 {
                Ok(Opcode::Lui)
            } else if opcode_value == 0b0010111 {
                Ok(Opcode::Auipc)
            } else {
                Err(DecodeError::UnknownOpcode)
            }
        },
        InstructionType::J => Ok(Opcode::Jal),
        InstructionType::Fence => Ok(Opcode::Fence),
    }
}

/// Resolves the operation once the format is known, from `funct3`,
/// `funct7` and (for the system and shift-immediate groups) the
/// immediate bits.
pub fn decode_opcode(
    opcode_value: u32,
    inst_type: &InstructionType,
    funct3: u32,
    funct7: u32,
    imm: u32,
) -> (r: Result<Opcode, DecodeError>)
    ensures
        r == spec_opcode(opcode_value, *inst_type, funct3, funct7, imm),
{
    Ok(
        match inst_type {
            InstructionType::R => match funct3 {
                0x0 => match funct7 {
                    0x00 => Opcode::Add,
                    0x20 => Opcode::Sub,
                    _ => return Err(DecodeError::UnknownOpcode),
                },
                0x4 => Opcode::Xor,
                0x6 => Opcode::Or,
                0x7 => Opcode::And,
                0x1 => Opcode::Sll,
                0x5 => match funct7 {
                    0x00 => Opcode::Srl,
                    0x20 => Opcode::Sra,
                    _ => return Err(DecodeError::UnknownOpcode),
                },
                0x2 => Opcode::Slt,
                _ => Opcode::Sltu,
            },
            InstructionType::I => {
                match opcode_value {
                    // alu
                    0b0010011 => match funct3 {
                        0x0 => Opcode::Addi,
                        0x4 => Opcode::Xori,
                        0x6 => Opcode::Ori,
                        0x7 => Opcode::Andi,
                        0x1 => Opcode::Slli,
                        0x5 => match (imm >> 5) & mask(7) {
                            0x00 => Opcode::Srli,
                            0x20 => Opcode::Srai,
                            _ => return Err(DecodeError::UnknownOpcode),
                        },
                        0x2 => Opcode::Slti,
                        _ => Opcode::Sltiu,
                    },
                    // load
                    0b0000011 => match funct3 {
                        0x0 => Opcode::Lb,
                        0x1 => Opcode::Lh,
                        0x2 => Opcode::Lw,
                        0x4 => Opcode::Lbu,
                        0x5 => Opcode::Lhu,
                        _ => return Err(DecodeError::UnknownOpcode),
                    },
                    0b1100111 => Opcode::Jalr,
                    0b1110011 => match imm {
                        0x0 => Opcode::Ecall,
                        0x1 => Opcode::Ebreak,
                        _ => Opcode::Eother,
                    },
                    _ => return Err(DecodeError::UnknownOpcode),
                }
            },
            InstructionType::S => match funct3 {
                0x0 => Opcode::Sb,
                0x1 => Opcode::Sh,
                0x2 => Opcode::Sw,
                _ => return Err(DecodeError::UnknownOpcode),
            },
            InstructionType::B => match funct3 {
                0x0 => Opcode::Beq,
                0x1 => Opcode::Bne,
                0x4 => Opcode::Blt,
                0x5 => Opcode::Bge,
                0x6 => Opcode::Bltu,
                0x7 => Opcode::Bgeu,
                _ => return Err(DecodeError::UnknownOpcode),
            },
            InstructionType::U => match opcode_value {
                0b0110111 => Opcode::Lui,
                0b0010111 => Opcode::Auipc,
                _ => return Err(DecodeError::UnknownOpcode),
            },
            InstructionType::J => Opcode::Jal,
            InstructionType::Fence => Opcode::Fence,
        },
    )
}

/// What decoding a 32-bit word yields: the format from the low seven
/// bits, the register and sub-opcode fields from their fixed positions,
/// the assembled immediate, and the resolved operation.
pub open spec fn spec_decode(instruction: u32) -> Result<DecodedInstruction, DecodeError> {
    let opcode_value = instruction & low_mask(7);
    match spec_format(opcode_value) {
        None => Err(DecodeError::UnsupportedInstructionType),
        Some(inst_type) => {
            let rd = (instruction >> 7) & low_mask(5);
            let rs1 = (instruction >> 15) & low_mask(5);
            let rs2 = (instruction >> 20) & low_mask(5);
            let funct3 = (instruction >> 12) & low_mask(3);
            let funct7 = (instruction >> 25) & low_mask(7);
            let imm = spec_immediate(inst_type, instruction);
            match spec_opcode(opcode_value, inst_type, funct3, funct7, imm) {
                Err(e) => Err(e),
                Ok(opcode) => Ok(
                    DecodedInstruction { inst_type, opcode, rd, rs1, rs2, funct3, funct7, imm },
                ),
            }
        },
    }
}

proof fn lemma_five_bit_field(x: u32)
    by (bit_vector)
    ensures
        x & (((1u32 << 5) - 1) as u32) < 32,
{
}

/// Decodes a 32-bit instruction word, or says why it cannot be decoded.
pub fn decode_instruction(instruction: u32) -> (r: Result<DecodedInstruction, DecodeError>)
    ensures
        r == spec_decode(instruction),
        r matches Ok(i) ==> i.wf(),
{
    let opcode_value = instruction & mask(7);

    let inst_type = match opcode_value {
        0b0110011 => InstructionType::R,
        0b0010011 | 0b0000011 | 0b1110011 | 0b1100111 => InstructionType::I,
        0b0100011 => InstructionType::S,
        0b1100011 => InstructionType::B,
        0b1101111 => InstructionType::J,
        0b0110111 | 0b0010111 => InstructionType::U,
        0b0001111 => InstructionType::Fence,
        _ => return Err(DecodeError::UnsupportedInstructionType),
    };

    let rd = (instruction >> 7) & mask(5);
    let rs1 = (instruction >> 15) & mask(5);
    let rs2 = (instruction >> 20) & mask(5);
    let funct3 = (instruction >> 12) & mask(3);
    let funct7 = (instruction >> 25) & mask(7);

    proof {
        lemma_five_bit_field(instruction >> 7);
        lemma_five_bit_field(instruction >> 15);
        lemma_five_bit_field(instruction >> 20);
    }

    let imm = decode_immediate(&inst_type, instruction);

    let opcode = match decode_opcode(opcode_value, &inst_type, funct3, funct7, imm) {
        Ok(op) => op,
        Err(e) => return Err(e),
    };

    Ok(DecodedInstruction { opcode, inst_type, rd, rs1, rs2, funct3, funct7, imm })
}

/// For every instruction word, the immediate each signed format stores
/// is sign-extended: the bits above the format's width all replicate the
/// format's top bit (bit 11 for I and S, bit 12 for B, bit 20 for J), so
/// the high bits are either all zeros or all ones.
pub proof fn lemma_immediate_sign_extended(w: u32)
    by (bit_vector)
    ensures
        imm_i(w) >> 11 == 0u32 || imm_i(w) >> 11 == 0x1fffffu32,
        imm_s(w) >> 11 == 0u32 || imm_s(w) >> 11 == 0x1fffffu32,
        imm_b(w) >> 12 == 0u32 || imm_b(w) >> 12 == 0xfffffu32,
        imm_j(w) >> 20 == 0u32 || imm_j(w) >> 20 == 0xfffu32,
{
}

/// For every instruction word, the branch (B) and jump (J) immediates
/// have bit 0 clear: branch and jump targets are two-byte aligned.
pub proof fn lemma_branch_jump_immediate_aligned(w: u32)
    by (bit_vector)
    ensures
        imm_b(w) & 1 == 0u32,
        imm_j(w) & 1 == 0u32,
{
}

} // verus!

