use rv32i::elf::{parse_elf, parse_elf_header, parse_program_header, u32_le, ElfError, SegmentKind};
use rv32i::vm::VM;

/// A minimal ELF32 little-endian RISC-V executable with one code
/// segment of twelve bytes at virtual address 0x1000: a program that
/// exits with code 7 through system call 93.
fn minimal_elf() -> Vec<u8> {
    let mut f = vec![0u8; 0x80];
    f[0..4].copy_from_slice(&[0x7F, 0x45, 0x4C, 0x46]);
    f[4] = 1; // 32-bit
    f[5] = 1; // little-endian
    f[0x10] = 2; // executable
    f[0x12] = 0xF3; // RISC-V
    f[0x18..0x1C].copy_from_slice(&0x1000u32.to_le_bytes()); // entry point
    f[0x1C..0x20].copy_from_slice(&0x34u32.to_le_bytes()); // table offset
    f[0x2A..0x2C].copy_from_slice(&32u16.to_le_bytes()); // entry size
    f[0x2C..0x2E].copy_from_slice(&1u16.to_le_bytes()); // entry count
    // the program header, at offset 0x34
    f[0x34..0x38].copy_from_slice(&1u32.to_le_bytes()); // LOAD
    f[0x38..0x3C].copy_from_slice(&0x60u32.to_le_bytes()); // p_offset
    f[0x3C..0x40].copy_from_slice(&0x1000u32.to_le_bytes()); // p_vaddr
    f[0x44..0x48].copy_from_slice(&12u32.to_le_bytes()); // p_filesz
    f[0x48..0x4C].copy_from_slice(&12u32.to_le_bytes()); // p_memsz
    f[0x4C..0x50].copy_from_slice(&5u32.to_le_bytes()); // p_flags: code
    // the segment's bytes, at offset 0x60:
    // addi x17, x0, 93; addi x10, x0, 7; ecall
    f[0x60..0x64].copy_from_slice(&0x05D00893u32.to_le_bytes());
    f[0x64..0x68].copy_from_slice(&0x00700513u32.to_le_bytes());
    f[0x68..0x6C].copy_from_slice(&0x00000073u32.to_le_bytes());
    f
}

#[test]
fn test_u32_le() {
    assert_eq!(u32_le(&[0x78, 0x56, 0x34, 0x12]), 0x12345678);
    // missing bytes read as zero
    assert_eq!(u32_le(&[0x78, 0x56]), 0x00005678);
    assert_eq!(u32_le(&[]), 0);
    // only the first four bytes count
    assert_eq!(u32_le(&[1, 0, 0, 0, 0xFF]), 1);
}

#[test]
fn test_parse_elf_header_fields() {
    let f = minimal_elf();
    let h = parse_elf_header(&f).unwrap();
    assert_eq!(h.entry_point, 0x1000);
    assert_eq!(h.program_header_table_offset, 0x34);
    assert_eq!(h.program_header_entry_size, 32);
    assert_eq!(h.program_entry_count, 1);
}

#[test]
fn test_parse_program_header_load() {
    let f = minimal_elf();
    let ph = parse_program_header(&f, 0x34).unwrap().unwrap();
    assert_eq!(ph.virtual_address, 0x1000);
    assert!(ph.code);
    assert_eq!(ph.data.len(), 12);
    assert_eq!(&ph.data[0..4], &0x05D00893u32.to_le_bytes());
}

#[test]
fn test_parse_elf_image() {
    let f = minimal_elf();
    let image = parse_elf(&f).unwrap();
    assert_eq!(image.entry_point, 0x1000);
    assert_eq!(image.segments.len(), 1);
    assert_eq!(image.segments[0].virtual_address, 0x1000);
    assert_eq!(image.segments[0].kind, SegmentKind::Code);
    assert_eq!(image.segments[0].bytes.len(), 12);
}

#[test]
fn test_parse_elf_data_segment() {
    let mut f = minimal_elf();
    f[0x4C..0x50].copy_from_slice(&6u32.to_le_bytes()); // read and write
    let image = parse_elf(&f).unwrap();
    assert_eq!(image.segments[0].kind, SegmentKind::Data);
}

#[test]
fn test_parse_elf_skips_other_headers() {
    let mut f = minimal_elf();
    f[0x34..0x38].copy_from_slice(&2u32.to_le_bytes()); // not LOAD
    let image = parse_elf(&f).unwrap();
    assert_eq!(image.segments.len(), 0);
}

#[test]
fn test_parse_elf_errors() {
    assert_eq!(parse_elf(&[0u8; 10]).unwrap_err(), ElfError::Truncated);

    let mut f = minimal_elf();
    f[0] = 0x7E;
    assert_eq!(parse_elf(&f).unwrap_err(), ElfError::BadMagic);

    let mut f = minimal_elf();
    f[4] = 2; // 64-bit
    assert_eq!(parse_elf(&f).unwrap_err(), ElfError::UnsupportedClass);

    let mut f = minimal_elf();
    f[5] = 2; // big-endian
    assert_eq!(parse_elf(&f).unwrap_err(), ElfError::UnsupportedEndianness);

    let mut f = minimal_elf();
    f[0x10] = 1; // relocatable, not executable
    assert_eq!(parse_elf(&f).unwrap_err(), ElfError::UnsupportedType);

    let mut f = minimal_elf();
    f[0x12] = 0x3E; // not RISC-V
    assert_eq!(parse_elf(&f).unwrap_err(), ElfError::UnsupportedMachine);

    let mut f = minimal_elf();
    f[0x4C..0x50].copy_from_slice(&7u32.to_le_bytes()); // neither code nor data
    assert_eq!(parse_elf(&f).unwrap_err(), ElfError::BadSegmentFlags);

    let mut f = minimal_elf();
    f[0x44..0x48].copy_from_slice(&0x1000u32.to_le_bytes()); // reaches past the file
    assert_eq!(parse_elf(&f).unwrap_err(), ElfError::Truncated);

    let mut f = minimal_elf();
    f[0x1C..0x20].copy_from_slice(&0x79u32.to_le_bytes()); // table past the file
    assert_eq!(parse_elf(&f).unwrap_err(), ElfError::Truncated);
}

#[test]
fn test_init_from_elf_loads_segments() {
    let f = minimal_elf();
    let image = parse_elf(&f).unwrap();
    let vm = VM::init_from_elf(&image);
    assert_eq!(vm.pc, 0x1000);
    assert_eq!(vm.mem(0x1000), 0x93);
    assert_eq!(vm.mem(0x1001), 0x08);
    assert_eq!(vm.mem(0x1002), 0xD0);
    assert_eq!(vm.mem(0x1003), 0x05);
    // an address outside every segment reads as zero
    assert_eq!(vm.mem(0x2000), 0);
    assert_eq!(vm.reg(2), 0);
    assert!(!vm.halted);
}

#[test]
fn test_elf_program_runs_to_exit() {
    let f = minimal_elf();
    let image = parse_elf(&f).unwrap();
    let mut vm = VM::init_from_elf(&image);
    vm.run(100).unwrap();
    assert!(vm.halted);
    assert_eq!(vm.exit_code, 7);
}
