use rv32i::decode_instruction::{
    decode_instruction, map_range, mask, sext, DecodeError, InstructionType, Opcode,
};

#[test]
fn test_map_range() {
    let val: u32 = 0b0000_0000_0000_0000_0000_0000_0000_0000;
    let target_val: u32 = 0b1111_1111_1111_1111_1111_1111_1111_1111;

    assert_eq!(
        map_range(target_val, val, 31, 20, 8),
        0b0000_0000_0001_1111_1110_0000_0000_0000
    );

    let val: u32 = 0b0000_0000_0000_1111_1111_0000_0000_0000;

    assert_eq!(
        map_range(target_val, val, 31, 0, 1),
        0b0000_0000_0000_1111_1111_0000_0000_0001
    );
}

#[test]
fn test_immediate_decoding() {
    // addi x10 x11 12 (I Type)
    assert_eq!(decode_instruction(0x00C58513).unwrap().imm, 12);
    // sw x8, 6(x4) (S Type)
    assert_eq!(decode_instruction(0x00822323).unwrap().imm, 6);
    // sw x8, -6(x4) (S Type)
    assert_eq!(decode_instruction(0xfe822d23).unwrap().imm, -6_i32 as u32);
    // beq x5, x6, 20 (B Type)
    assert_eq!(decode_instruction(0x00628a63).unwrap().imm, 20);
    // lui x5, 164 (U Type)
    assert_eq!(decode_instruction(0x000a42b7).unwrap().imm >> 12, 164);
    // jal x5, 44 (J Type)
    assert_eq!(decode_instruction(0x02c002ef).unwrap().imm, 44);
}

#[test]
fn test_decoded_fields() {
    // addi x10, x11, 12
    let i = decode_instruction(0x00C58513).unwrap();
    assert_eq!(i.opcode, Opcode::Addi);
    assert_eq!(i.inst_type, InstructionType::I);
    assert_eq!(i.rd, 10);
    assert_eq!(i.rs1, 11);
    assert_eq!(i.funct3, 0);

    // sw x8, 6(x4)
    let i = decode_instruction(0x00822323).unwrap();
    assert_eq!(i.opcode, Opcode::Sw);
    assert_eq!(i.inst_type, InstructionType::S);
    assert_eq!(i.rs1, 4);
    assert_eq!(i.rs2, 8);

    // beq x5, x6, 20
    let i = decode_instruction(0x00628a63).unwrap();
    assert_eq!(i.opcode, Opcode::Beq);
    assert_eq!(i.inst_type, InstructionType::B);
    assert_eq!(i.rs1, 5);
    assert_eq!(i.rs2, 6);

    // lui x5, 164
    let i = decode_instruction(0x000a42b7).unwrap();
    assert_eq!(i.opcode, Opcode::Lui);
    assert_eq!(i.inst_type, InstructionType::U);
    assert_eq!(i.rd, 5);

    // jal x5, 44
    let i = decode_instruction(0x02c002ef).unwrap();
    assert_eq!(i.opcode, Opcode::Jal);
    assert_eq!(i.inst_type, InstructionType::J);
    assert_eq!(i.rd, 5);
}

#[test]
fn test_register_register_decoding() {
    // add x3, x1, x2
    let i = decode_instruction(0x002081B3).unwrap();
    assert_eq!(i.opcode, Opcode::Add);
    assert_eq!(i.inst_type, InstructionType::R);
    assert_eq!(i.rd, 3);
    assert_eq!(i.rs1, 1);
    assert_eq!(i.rs2, 2);
    assert_eq!(i.imm, 0);

    // sub x3, x1, x2 (funct7 = 0x20)
    let i = decode_instruction(0x402081B3).unwrap();
    assert_eq!(i.opcode, Opcode::Sub);
    assert_eq!(i.funct7, 0x20);
}

#[test]
fn test_shift_immediate_decoding() {
    // srli x1, x2, 3
    let i = decode_instruction(0x00315093).unwrap();
    assert_eq!(i.opcode, Opcode::Srli);
    // srai x1, x2, 3 (imm[11:5] = 0x20)
    let i = decode_instruction(0x40315093).unwrap();
    assert_eq!(i.opcode, Opcode::Srai);
}

#[test]
fn test_system_decoding() {
    // ecall
    let i = decode_instruction(0x00000073).unwrap();
    assert_eq!(i.opcode, Opcode::Ecall);
    assert_eq!(i.imm, 0);
    // ebreak
    let i = decode_instruction(0x00100073).unwrap();
    assert_eq!(i.opcode, Opcode::Ebreak);
    // any other system immediate
    let i = decode_instruction(0x00200073).unwrap();
    assert_eq!(i.opcode, Opcode::Eother);
    // fence
    let i = decode_instruction(0x0000000F).unwrap();
    assert_eq!(i.opcode, Opcode::Fence);
    assert_eq!(i.imm, 0);
}

#[test]
fn test_decode_errors() {
    // opcode bits 0000000 name no format
    assert_eq!(
        decode_instruction(0x00000000).unwrap_err(),
        DecodeError::UnsupportedInstructionType
    );
    // S-type with funct3 = 3 names no store
    assert_eq!(
        decode_instruction(0x00003023).unwrap_err(),
        DecodeError::UnknownOpcode
    );
    // R-type with funct3 = 0 and funct7 = 1 is neither add nor sub
    assert_eq!(
        decode_instruction(0x022081B3).unwrap_err(),
        DecodeError::UnknownOpcode
    );
}

#[test]
fn test_sext() {
    // a negative byte extends with ones
    assert_eq!(sext(0xFF, 8), 0xFFFF_FFFF);
    // a positive byte is unchanged
    assert_eq!(sext(0x7F, 8), 0x7F);
    // twelve-bit values, both signs
    assert_eq!(sext(0xFFA, 12), 0xFFFF_FFFA);
    assert_eq!(sext(0x014, 12), 0x014);
    // the full width is the identity
    assert_eq!(sext(0x8000_0000, 32), 0x8000_0000);
    assert_eq!(sext(1, 1), 0xFFFF_FFFF);
}

#[test]
fn test_mask() {
    assert_eq!(mask(5), 0x1F);
    assert_eq!(mask(7), 0x7F);
    assert_eq!(mask(8), 0xFF);
    assert_eq!(mask(0), 0);
}
