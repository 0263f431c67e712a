//! The execution engine: the per-opcode semantics of RV32I, realized
//! against the machine's registers, memory and program counter, and
//! stated in full by the specification function [`step`].

use vstd::prelude::*;

verus! {

use std::collections::HashMap;
use crate::decode_instruction::{DecodedInstruction, Opcode, low_mask, spec_sext, mask, sext};
use crate::elf::{word_of_bytes, u32_le};
use crate::vm::{
    MachineState, VM, read_reg, write_reg, mem_byte, mem_word, store_byte, wrap_offset,
    lemma_wrapping_add_offset,
};

broadcast use vstd::std_specs::hash::group_hash_axioms, vstd::array::group_array_axioms;

/// The engine's error: the write system calls accept only the file
/// descriptors 1 (standard output) and 2 (standard error).
#[derive(Clone, Copy, Debug, PartialEq, Eq, Structural)]
pub enum ExecError {
    InvalidFileDescriptor,
}

/// The machine with the program counter advanced past one instruction.
pub open spec fn bump_pc(s: MachineState) -> MachineState {
    MachineState { pc: s.pc.wrapping_add(4), ..s }
}

/// The machine with the program counter set to `pc`.
pub open spec fn set_pc(s: MachineState, pc: u32) -> MachineState {
    MachineState { pc, ..s }
}

/// Left shift: only the low five bits of the shift source matter.
pub open spec fn sll_value(a: u32, b: u32) -> u32 {
    a << (b & low_mask(5))
}

/// Logical right shift: vacated bits fill with zeros.
pub open spec fn srl_value(a: u32, b: u32) -> u32 {
    a >> (b & low_mask(5))
}

/// Arithmetic right shift: a logical shift followed by sign extension
/// from the width that remains.
pub open spec fn sra_value(a: u32, b: u32) -> u32 {
    spec_sext(a >> (b & low_mask(5)), (32 - (b & low_mask(5))) as u32)
}

/// The two's-complement signed reading of a 32-bit value.
pub open spec fn signed(v: u32) -> int {
    v as i32 as int
}

/// Signed set-less-than: 1 when `a < b` as two's-complement values.
pub open spec fn slt_value(a: u32, b: u32) -> u32 {
    if signed(a) < signed(b) {
        1u32
    } else {
        0u32
    }
}

/// Unsigned set-less-than: 1 when `a < b` as unsigned values.
pub open spec fn sltu_value(a: u32, b: u32) -> u32 {
    if a < b {
        1u32
    } else {
        0u32
    }
}

/// A sign-extended byte load from the low byte of the fetched word.
pub open spec fn lb_value(w: u32) -> u32 {
    spec_sext(w & low_mask(8), 8)
}

/// A sign-extended halfword load from the low half of the fetched word.
pub open spec fn lh_value(w: u32) -> u32 {
    spec_sext(w & low_mask(16), 16)
}

/// A zero-extended byte load.
pub open spec fn lbu_value(w: u32) -> u32 {
    w & low_mask(8)
}

/// A zero-extended halfword load.
pub open spec fn lhu_value(w: u32) -> u32 {
    w & low_mask(16)
}

/// Byte `k` (0 = least significant) of the word `v`.
pub open spec fn word_byte(v: u32, k: u32) -> u8
    recommends
        k < 4,
{
    ((v >> (8 * k) as u32) & low_mask(8)) as u8
}

/// The machine after storing the low byte of `v` at `addr`.
pub open spec fn sb_state(s: MachineState, addr: u32, v: u32) -> MachineState {
    store_byte(s, addr, word_byte(v, 0))
}

/// The machine after storing the low two bytes of `v` little-endian at
/// `addr`.
pub open spec fn sh_state(s: MachineState, addr: u32, v: u32) -> MachineState {
    store_byte(store_byte(s, addr, word_byte(v, 0)), addr.wrapping_add(1), word_byte(v, 1))
}

/// The machine after storing all four bytes of `v` little-endian at
/// `addr`.
pub open spec fn sw_state(s: MachineState, addr: u32, v: u32) -> MachineState {
    store_byte(
        store_byte(
            store_byte(store_byte(s, addr, word_byte(v, 0)), addr.wrapping_add(1), word_byte(v, 1)),
            addr.wrapping_add(2),
            word_byte(v, 2),
        ),
        addr.wrapping_add(3),
        word_byte(v, 3),
    )
}

/// The target of an indirect jump: base plus offset, with bit 0
/// cleared. The ISA asks for the masking; it matters only for odd
/// targets, which aligned RV32I code never produces.
pub open spec fn jalr_target(base: u32, offset: u32) -> u32 {
    base.wrapping_add(offset) & 0xffff_fffeu32
}

/// The ASCII decimal digits of `n`, most significant first.
pub open spec fn dec_digits(n: nat) -> Seq<u8>
    decreases n,
{
    if n < 10 {
        seq![(48 + n) as u8]
    } else {
        dec_digits(n / 10).push((48 + n % 10) as u8)
    }
}

/// What the write-integer system call emits: the decimal digits of the
/// value and a newline.
pub open spec fn dec_line(v: u32) -> Seq<u8> {
    dec_digits(v as nat).push(10u8)
}

/// The `len` bytes of memory starting at `addr`, with the addresses
/// wrapping modulo 2^32.
pub open spec fn mem_range(m: Map<u32, u8>, addr: u32, len: u32) -> Seq<u8> {
    Seq::new(len as nat, |k: int| mem_byte(m, wrap_offset(addr, k)))
}

/// The machine after a system call. The selector is in x17 (a7):
/// 1 writes x11 (a1) in decimal to the stream x10 (a0) names; 64 writes
/// the x12 (a2) bytes of memory at x11 to that stream; 93 halts with
/// exit code x10; any other selector is skipped. Meaningful for the two
/// write calls only when the file descriptor is 1 or 2 (see
/// [`step_ok`]).
pub open spec fn ecall_state(s: MachineState) -> MachineState
    recommends
        s.wf(),
{
    let selector = read_reg(s, 17);
    if selector == 1 {
        let line = dec_line(read_reg(s, 11));
        if read_reg(s, 10) == 1 {
            MachineState { out: s.out + line, ..s }
        } else {
            MachineState { err: s.err + line, ..s }
        }
    } else if selector == 64 {
        let bytes = mem_range(s.mem, read_reg(s, 11), read_reg(s, 12));
        if read_reg(s, 10) == 1 {
            MachineState { out: s.out + bytes, ..s }
        } else {
            MachineState { err: s.err + bytes, ..s }
        }
    } else if selector == 93 {
        MachineState { halted: true, exit_code: read_reg(s, 10), ..s }
    } else {
        s
    }
}

/// When the engine completes without an error: always, except for a
/// write system call (selector 1 or 64 in x17) whose file descriptor in
/// x10 is neither 1 nor 2.
pub open spec fn step_ok(s: MachineState, i: DecodedInstruction) -> bool {
    i.opcode is Ecall ==> ((read_reg(s, 17) == 1 || read_reg(s, 17) == 64) ==> (read_reg(s, 10)
        == 1 || read_reg(s, 10) == 2))
}

/// The full per-opcode semantics of the execution engine: the machine
/// after executing `i` in state `s`. Arithmetic wraps modulo 2^32;
/// loads and stores are little-endian with wrap-around addressing; the
/// program counter advances by four except for taken branches and
/// jumps, which set it to the computed target. Meaningful under
/// `step_ok(s, i)`.
pub open spec fn step(s: MachineState, i: DecodedInstruction) -> MachineState
    recommends
        s.wf(),
        i.wf(),
{
    let a = read_reg(s, i.rs1);
    let b = read_reg(s, i.rs2);
    let imm = i.imm;
    match i.opcode {
        Opcode::Add => bump_pc(write_reg(s, i.rd, a.wrapping_add(b))),
        Opcode::Sub => bump_pc(write_reg(s, i.rd, a.wrapping_sub(b))),
        Opcode::Xor => bump_pc(write_reg(s, i.rd, a ^ b)),
        Opcode::Or => bump_pc(write_reg(s, i.rd, a | b)),
        Opcode::And => bump_pc(write_reg(s, i.rd, a & b)),
        Opcode::Sll => bump_pc(write_reg(s, i.rd, sll_value(a, b))),
        Opcode::Srl => bump_pc(write_reg(s, i.rd, srl_value(a, b))),
        Opcode::Sra => bump_pc(write_reg(s, i.rd, sra_value(a, b))),
        Opcode::Slt => bump_pc(write_reg(s, i.rd, slt_value(a, b))),
        Opcode::Sltu => bump_pc(write_reg(s, i.rd, sltu_value(a, b))),
        Opcode::Addi => bump_pc(write_reg(s, i.rd, a.wrapping_add(imm))),
        Opcode::Xori => bump_pc(write_reg(s, i.rd, a ^ imm)),
        Opcode::Ori => bump_pc(write_reg(s, i.rd, a | imm)),
        Opcode::Andi => bump_pc(write_reg(s, i.rd, a & imm)),
        Opcode::Slli => bump_pc(write_reg(s, i.rd, sll_value(a, imm))),
        Opcode::Srli => bump_pc(write_reg(s, i.rd, srl_value(a, imm))),
        Opcode::Srai => bump_pc(write_reg(s, i.rd, sra_value(a, imm))),
        Opcode::Slti => bump_pc(write_reg(s, i.rd, slt_value(a, imm))),
        Opcode::Sltiu => bump_pc(write_reg(s, i.rd, sltu_value(a, imm))),
        Opcode::Lb => bump_pc(write_reg(s, i.rd, lb_value(mem_word(s.mem, a.wrapping_add(imm))))),
        Opcode::Lh => bump_pc(write_reg(s, i.rd, lh_value(mem_word(s.mem, a.wrapping_add(imm))))),
        Opcode::Lw => bump_pc(write_reg(s, i.rd, mem_word(s.mem, a.wrapping_add(imm)))),
        Opcode::Lbu => bump_pc(write_reg(s, i.rd, lbu_value(mem_word(s.mem, a.wrapping_add(imm))))),
        Opcode::Lhu => bump_pc(write_reg(s, i.rd, lhu_value(mem_word(s.mem, a.wrapping_add(imm))))),
        Opcode::Sb => bump_pc(sb_state(s, a.wrapping_add(imm), b)),
        Opcode::Sh => bump_pc(sh_state(s, a.wrapping_add(imm), b)),
        Opcode::Sw => bump_pc(sw_state(s, a.wrapping_add(imm), b)),
        Opcode::Beq => if a == b {
            set_pc(s, s.pc.wrapping_add(imm))
        } else {
            bump_pc(s)
        },
        Opcode::Bne => if a != b {
            set_pc(s, s.pc.wrapping_add(imm))
        } else {
            bump_pc(s)
        },
        Opcode::Blt => if signed(a) < signed(b) {
            set_pc(s, s.pc.wrapping_add(imm))
        } else {
            bump_pc(s)
        },
        Opcode::Bge => if signed(a) >= signed(b) {
            set_pc(s, s.pc.wrapping_add(imm))
        } else {
            bump_pc(s)
        },
        Opcode::Bltu => if a < b {
            set_pc(s, s.pc.wrapping_add(imm))
        } else {
            bump_pc(s)
        },
        Opcode::Bgeu => if a >= b {
            set_pc(s, s.pc.wrapping_add(imm))
        } else {
            bump_pc(s)
        },
        Opcode::Jal => set_pc(write_reg(s, i.rd, s.pc.wrapping_add(4)), s.pc.wrapping_add(imm)),
        Opcode::Jalr => set_pc(write_reg(s, i.rd, s.pc.wrapping_add(4)), jalr_target(a, imm)),
        Opcode::Lui => bump_pc(write_reg(s, i.rd, imm)),
        Opcode::Auipc => bump_pc(write_reg(s, i.rd, s.pc.wrapping_add(imm))),
        Opcode::Ecall => bump_pc(ecall_state(s)),
        // EBREAK has no behavior a user-mode program relies on; this
        // engine halts on it, with a distinguished exit code.
        Opcode::Ebreak => bump_pc(MachineState { halted: true, exit_code: 3, ..s }),
        Opcode::Eother => bump_pc(s),
        Opcode::Fence => bump_pc(s),
    }
}

/// The operations that transfer control: branches and jumps.
pub open spec fn is_control(op: Opcode) -> bool {
    match op {
        Opcode::Beq => true,
        Opcode::Bne => true,
        Opcode::Blt => true,
        Opcode::Bge => true,
        Opcode::Bltu => true,
        Opcode::Bgeu => true,
        Opcode::Jal => true,
        Opcode::Jalr => true,
        _ => false,
    }
}

/// The six branch operations.
pub open spec fn is_branch(op: Opcode) -> bool {
    match op {
        Opcode::Beq => true,
        Opcode::Bne => true,
        Opcode::Blt => true,
        Opcode::Bge => true,
        Opcode::Bltu => true,
        Opcode::Bgeu => true,
        _ => false,
    }
}

/// Whether a branch's predicate holds in state `s`.
pub open spec fn branch_taken(s: MachineState, i: DecodedInstruction) -> bool
    recommends
        s.wf(),
        i.wf(),
{
    let a = read_reg(s, i.rs1);
    let b = read_reg(s, i.rs2);
    match i.opcode {
        Opcode::Beq => a == b,
        Opcode::Bne => a != b,
        Opcode::Blt => signed(a) < signed(b),
        Opcode::Bge => signed(a) >= signed(b),
        Opcode::Bltu => a < b,
        Opcode::Bgeu => a >= b,
        _ => false,
    }
}

/// Every instruction that does not transfer control advances the
/// program counter by exactly four (modulo 2^32).
pub proof fn lemma_pc_advances_by_four(s: MachineState, i: DecodedInstruction)
    requires
        !is_control(i.opcode),
    ensures
        step(s, i).pc == s.pc.wrapping_add(4),
{
}

/// A branch whose predicate does not hold also advances the program
/// counter by exactly four.
pub proof fn lemma_branch_not_taken(s: MachineState, i: DecodedInstruction)
    requires
        is_branch(i.opcode),
        !branch_taken(s, i),
    ensures
        step(s, i).pc == s.pc.wrapping_add(4),
{
}

/// A taken branch sets the program counter to the branch's own address
/// plus the (sign-extended) offset, with no further increment.
pub proof fn lemma_branch_taken(s: MachineState, i: DecodedInstruction)
    requires
        is_branch(i.opcode),
        branch_taken(s, i),
    ensures
        step(s, i).pc == s.pc.wrapping_add(i.imm),
{
}

/// A jump-and-link with destination other than x0 leaves the address of
/// the following instruction in the destination register and jumps to
/// the instruction's own address plus the offset.
pub proof fn lemma_jal_links(s: MachineState, i: DecodedInstruction)
    requires
        s.wf(),
        i.wf(),
        i.opcode is Jal,
        i.rd != 0,
    ensures
        step(s, i).regs[i.rd as int] == s.pc.wrapping_add(4),
        step(s, i).pc == s.pc.wrapping_add(i.imm),
{
}

/// The architectural zero register: every instruction, whatever its
/// destination, leaves x0 at zero, and the machine stays well-formed.
pub proof fn lemma_zero_register_stays_zero(s: MachineState, i: DecodedInstruction)
    requires
        s.wf(),
        i.wf(),
    ensures
        step(s, i).regs[0] == 0,
        step(s, i).wf(),
{
}

/// The shift operations read only the low five bits of the shift
/// source: two sources that agree there shift identically.
pub proof fn lemma_shift_masking(a: u32, b1: u32, b2: u32)
    requires
        b1 & low_mask(5) == b2 & low_mask(5),
    ensures
        sll_value(a, b1) == sll_value(a, b2),
        srl_value(a, b1) == srl_value(a, b2),
        sra_value(a, b1) == sra_value(a, b2),
{
}

proof fn lemma_wrapped_addresses_distinct(a: u32)
    ensures
        a.wrapping_add(1) != a,
        a.wrapping_add(2) != a,
        a.wrapping_add(3) != a,
        a.wrapping_add(1) != a.wrapping_add(2),
        a.wrapping_add(1) != a.wrapping_add(3),
        a.wrapping_add(2) != a.wrapping_add(3),
{
}

proof fn lemma_word_of_bytes_roundtrip(v: u32)
    by (bit_vector)
    ensures
        word_of_bytes(word_byte(v, 0), word_byte(v, 1), word_byte(v, 2), word_byte(v, 3)) == v,
{
}

/// The memory round trip: a word store followed by a word load of the
/// same address (same base register and same offset) reads back exactly
/// the stored value.
pub proof fn lemma_store_then_load(s: MachineState, sw: DecodedInstruction, lw: DecodedInstruction)
    requires
        s.wf(),
        sw.wf(),
        lw.wf(),
        sw.opcode is Sw,
        lw.opcode is Lw,
        lw.rs1 == sw.rs1,
        lw.imm == sw.imm,
        lw.rd != 0,
    ensures
        step(step(s, sw), lw).regs[lw.rd as int] == read_reg(s, sw.rs2),
{
    let a = read_reg(s, sw.rs1).wrapping_add(sw.imm);
    let v = read_reg(s, sw.rs2);
    let s1 = step(s, sw);
    assert(s1.regs == s.regs);
    lemma_wrapped_addresses_distinct(a);
    assert(mem_byte(s1.mem, a) == word_byte(v, 0));
    assert(mem_byte(s1.mem, a.wrapping_add(1)) == word_byte(v, 1));
    assert(mem_byte(s1.mem, a.wrapping_add(2)) == word_byte(v, 2));
    assert(mem_byte(s1.mem, a.wrapping_add(3)) == word_byte(v, 3));
    lemma_word_of_bytes_roundtrip(v);
    assert(mem_word(s1.mem, a) == v);
}

proof fn lemma_shift_amount_low(b: u32)
    by (bit_vector)
    ensures
        b & (((1u32 << 5) - 1) as u32) < 32,
{
}

proof fn lemma_shr_zero(v: u32)
    by (bit_vector)
    ensures
        v >> 0u32 == v,
{
}

proof fn lemma_byte_field_bounds(v: u32)
    by (bit_vector)
    ensures
        v & (((1u32 << 8) - 1) as u32) < 256,
{
}

/// Appends the ASCII decimal digits of `value` and a newline, as the
/// write-integer system call emits them.
fn push_dec_line(out: &mut Vec<u8>, value: u32)
    ensures
        final(out)@ == old(out)@ + dec_line(value),
{
    let mut digits: Vec<u8> = Vec::new();
    let mut x: u32 = value;
    let first: u8 = (x % 10) as u8 + 48;
    digits.push(first);
    proof {
        assert(digits@.reverse() =~= seq![first]);
        if value >= 10 {
            assert(x / 10 >= 1) by (nonlinear_arith)
                requires
                    x >= 10,
            ;
        }
    }
    x = x / 10;
    while x != 0
        invariant
            x > 0 ==> dec_digits(value as nat) == dec_digits(x as nat) + digits@.reverse(),
            x == 0 ==> dec_digits(value as nat) == digits@.reverse(),
        decreases x,
    {
        let d: u8 = (x % 10) as u8 + 48;
        digits.push(d);
        proof {
            lemma_reverse_push(digits@.drop_last(), d);
            assert(digits@.drop_last().push(d) =~= digits@);
            if x >= 10 {
                assert(x / 10 >= 1) by (nonlinear_arith)
                    requires
                        x >= 10,
                ;
                assert(dec_digits(x as nat) == dec_digits((x / 10) as nat).push(d));
                assert(dec_digits((x / 10) as nat) + (seq![d] + digits@.drop_last().reverse())
                    =~= (dec_digits((x / 10) as nat).push(d)) + digits@.drop_last().reverse());
            } else {
                assert(dec_digits(x as nat) =~= seq![d]);
                assert(seq![d] + digits@.drop_last().reverse() =~= dec_digits(x as nat)
                    + digits@.drop_last().reverse());
            }
        }
        proof {
            assert(x / 10 < x) by (nonlinear_arith)
                requires
                    x >= 1,
            ;
        }
        x = x / 10;
    }
    let ghost out0 = out@;
    let ghost digits_snapshot = digits@;
    let mut j: usize = 0;
    while j < digits.len()
        invariant
            digits@ == digits_snapshot,
            j <= digits@.len(),
            out@ =~= out0 + digits@.reverse().take(j as int),
        decreases digits@.len() - j,
    {
        let b = digits[digits.len() - 1 - j];
        out.push(b);
        proof {
            assert(digits@.reverse()[j as int] == b);
            assert(digits@.reverse().take(j + 1) =~= digits@.reverse().take(j as int).push(b));
        }
        j = j + 1;
    }
    proof {
        assert(digits@.reverse().take(digits@.len() as int) =~= digits@.reverse());
    }
    out.push(10);
    proof {
        assert(out0 + digits@.reverse() + seq![10u8] =~= out0 + dec_line(value));
    }
}

/// Reversing after a push puts the pushed element first.
proof fn lemma_reverse_push(s: Seq<u8>, d: u8)
    ensures
        s.push(d).reverse() =~= seq![d] + s.reverse(),
{
}

/// The byte of the sparse memory at `addr`, zero when absent.
fn byte_at(mem: &HashMap<u32, u8>, addr: u32) -> (b: u8)
    ensures
        b == mem_byte(mem@, addr),
{
    match mem.get(&addr) {
        Some(b) => *b,
        None => 0,
    }
}

/// The little-endian word of memory at `addr`.
fn fetch_word(vm: &VM, addr: u32) -> (w: u32)
    ensures
        w == mem_word(vm@.mem, addr),
{
    let bytes = vm.mem32(addr);
    u32_le(vstd::array::array_as_slice(&bytes))
}

/// Executes one decoded instruction against the machine: registers,
/// memory, program counter, halt state and captured output change
/// exactly as [`step`] says. A write system call with a file descriptor
/// other than 1 or 2 returns an error and leaves the machine unchanged;
/// every other instruction succeeds. The architectural zero register
/// reads as zero afterwards, always.
pub fn execute_instruction(vm: &mut VM, instruction: DecodedInstruction) -> (r: Result<
    (),
    ExecError,
>)
    requires
        old(vm)@.wf(),
        instruction.wf(),
    ensures
        final(vm)@.wf(),
        final(vm)@.regs[0] == 0,
        step_ok(old(vm)@, instruction) ==> r is Ok && final(vm)@ == step(old(vm)@, instruction),
        !step_ok(old(vm)@, instruction) ==> r == Err::<(), ExecError>(
            ExecError::InvalidFileDescriptor,
        ) && final(vm)@ == old(vm)@,
{
    match instruction.opcode {
        // R-type instructions
        Opcode::Add => {
            let v = vm.reg(instruction.rs1).wrapping_add(vm.reg(instruction.rs2));
            vm.reg_mut(instruction.rd, v);
        },
        Opcode::Sub => {
            let v = vm.reg(instruction.rs1).wrapping_sub(vm.reg(instruction.rs2));
            vm.reg_mut(instruction.rd, v);
        },
        Opcode::Xor => {
            let v = vm.reg(instruction.rs1) ^ vm.reg(instruction.rs2);
            vm.reg_mut(instruction.rd, v);
        },
        Opcode::Or => {
            let v = vm.reg(instruction.rs1) | vm.reg(instruction.rs2);
            vm.reg_mut(instruction.rd, v);
        },
        Opcode::And => {
            let v = vm.reg(instruction.rs1) & vm.reg(instruction.rs2);
            vm.reg_mut(instruction.rd, v);
        },
        Opcode::Sll => {
            let shift = vm.reg(instruction.rs2) & mask(5);
            proof {
                lemma_shift_amount_low(read_reg(vm@, instruction.rs2));
            }
            let v = vm.reg(instruction.rs1) << shift;
            vm.reg_mut(instruction.rd, v);
        },
        Opcode::Srl => {
            let shift = vm.reg(instruction.rs2) & mask(5);
            proof {
                lemma_shift_amount_low(read_reg(vm@, instruction.rs2));
            }
            let v = vm.reg(instruction.rs1) >> shift;
            vm.reg_mut(instruction.rd, v);
        },
        Opcode::Sra => {
            let shift = vm.reg(instruction.rs2) & mask(5);
            proof {
                lemma_shift_amount_low(read_reg(vm@, instruction.rs2));
            }
            let v = sext(vm.reg(instruction.rs1) >> shift, 32 - shift as usize);
            vm.reg_mut(instruction.rd, v);
        },
        Opcode::Slt => {
            let v: u32 = if (vm.reg(instruction.rs1) as i32) < (vm.reg(instruction.rs2) as i32) {
                1
            } else {
                0
            };
            vm.reg_mut(instruction.rd, v);
        },
        Opcode::Sltu => {
            let v: u32 = if vm.reg(instruction.rs1) < vm.reg(instruction.rs2) {
                1
            } else {
                0
            };
            vm.reg_mut(instruction.rd, v);
        },
        // I-type arithmetic instructions
        Opcode::Addi => {
            let v = vm.reg(instruction.rs1).wrapping_add(instruction.imm);
            vm.reg_mut(instruction.rd, v);
        },
        Opcode::Xori => {
            let v = vm.reg(instruction.rs1) ^ instruction.imm;
            vm.reg_mut(instruction.rd, v);
        },
        Opcode::Ori => {
            let v = vm.reg(instruction.rs1) | instruction.imm;
            vm.reg_mut(instruction.rd, v);
        },
        Opcode::Andi => {
            let v = vm.reg(instruction.rs1) & instruction.imm;
            vm.reg_mut(instruction.rd, v);
        },
        Opcode::Slli => {
            let shift = instruction.imm & mask(5);
            proof {
                lemma_shift_amount_low(instruction.imm);
            }
            let v = vm.reg(instruction.rs1) << shift;
            vm.reg_mut(instruction.rd, v);
        },
        Opcode::Srli => {
            let shift = instruction.imm & mask(5);
            proof {
                lemma_shift_amount_low(instruction.imm);
            }
            let v = vm.reg(instruction.rs1) >> shift;
            vm.reg_mut(instruction.rd, v);
        },
        Opcode::Srai => {
            let shift = instruction.imm & mask(5);
            proof {
                lemma_shift_amount_low(instruction.imm);
            }
            let v = sext(vm.reg(instruction.rs1) >> shift, 32 - shift as usize);
            vm.reg_mut(instruction.rd, v);
        },
        Opcode::Slti => {
            let v: u32 = if (vm.reg(instruction.rs1) as i32) < (instruction.imm as i32) {
                1
            } else {
                0
            };
            vm.reg_mut(instruction.rd, v);
        },
        Opcode::Sltiu => {
            let v: u32 = if vm.reg(instruction.rs1) < instruction.imm {
                1
            } else {
                0
            };
            vm.reg_mut(instruction.rd, v);
        },
        // load instructions
        Opcode::Lb => {
            let mem_addr = vm.reg(instruction.rs1).wrapping_add(instruction.imm);
            let mem_data = fetch_word(vm, mem_addr);
            let v = sext(mem_data & mask(8), 8);
            vm.reg_mut(instruction.rd, v);
        },
        Opcode::Lh => {
            let mem_addr = vm.reg(instruction.rs1).wrapping_add(instruction.imm);
            let mem_data = fetch_word(vm, mem_addr);
            let v = sext(mem_data & mask(16), 16);
            vm.reg_mut(instruction.rd, v);
        },
        Opcode::Lw => {
            let mem_addr = vm.reg(instruction.rs1).wrapping_add(instruction.imm);
            let v = fetch_word(vm, mem_addr);
            vm.reg_mut(instruction.rd, v);
        },
        Opcode::Lbu => {
            let mem_addr = vm.reg(instruction.rs1).wrapping_add(instruction.imm);
            let mem_data = fetch_word(vm, mem_addr);
            let v = mem_data & mask(8);
            vm.reg_mut(instruction.rd, v);
        },
        Opcode::Lhu => {
            let mem_addr = vm.reg(instruction.rs1).wrapping_add(instruction.imm);
            let mem_data = fetch_word(vm, mem_addr);
            let v = mem_data & mask(16);
            vm.reg_mut(instruction.rd, v);
        },
        // store instructions
        Opcode::Sb => {
            let mem_addr = vm.reg(instruction.rs1).wrapping_add(instruction.imm);
            let reg_data = vm.reg(instruction.rs2);
            proof {
                lemma_byte_field_bounds(reg_data);
                lemma_shr_zero(reg_data);
            }
            vm.mem_mut(mem_addr, (reg_data & mask(8)) as u8);
        },
        Opcode::Sh => {
            let mem_addr = vm.reg(instruction.rs1).wrapping_add(instruction.imm);
            let reg_data = vm.reg(instruction.rs2);
            proof {
                lemma_byte_field_bounds(reg_data);
                lemma_byte_field_bounds(reg_data >> 8);
                lemma_shr_zero(reg_data);
            }
            vm.mem_mut(mem_addr, (reg_data & mask(8)) as u8);
            vm.mem_mut(mem_addr.wrapping_add(1), ((reg_data >> 8) & mask(8)) as u8);
        },
        Opcode::Sw => {
            let mem_addr = vm.reg(instruction.rs1).wrapping_add(instruction.imm);
            let reg_data = vm.reg(instruction.rs2);
            proof {
                lemma_byte_field_bounds(reg_data);
                lemma_byte_field_bounds(reg_data >> 8);
                lemma_byte_field_bounds(reg_data >> 16);
                lemma_byte_field_bounds(reg_data >> 24);
                lemma_shr_zero(reg_data);
            }
            vm.mem_mut(mem_addr, (reg_data & mask(8)) as u8);
            vm.mem_mut(mem_addr.wrapping_add(1), ((reg_data >> 8) & mask(8)) as u8);
            vm.mem_mut(mem_addr.wrapping_add(2), ((reg_data >> 16) & mask(8)) as u8);
            vm.mem_mut(mem_addr.wrapping_add(3), ((reg_data >> 24) & mask(8)) as u8);
        },
        // branch instructions
        Opcode::Beq => {
            if vm.reg(instruction.rs1) == vm.reg(instruction.rs2) {
                vm.pc = vm.pc.wrapping_add(instruction.imm);
                return Ok(());
            }
        },
        Opcode::Bne => {
            if vm.reg(instruction.rs1) != vm.reg(instruction.rs2) {
                vm.pc = vm.pc.wrapping_add(instruction.imm);
                return Ok(());
            }
        },
        Opcode::Blt => {
            if (vm.reg(instruction.rs1) as i32) < (vm.reg(instruction.rs2) as i32) {
                vm.pc = vm.pc.wrapping_add(instruction.imm);
                return Ok(());
            }
        },
        Opcode::Bge => {
            if (vm.reg(instruction.rs1) as i32) >= (vm.reg(instruction.rs2) as i32) {
                vm.pc = vm.pc.wrapping_add(instruction.imm);
                return Ok(());
            }
        },
        Opcode::Bltu => {
            if vm.reg(instruction.rs1) < vm.reg(instruction.rs2) {
                vm.pc = vm.pc.wrapping_add(instruction.imm);
                return Ok(());
            }
        },
        Opcode::Bgeu => {
            if vm.reg(instruction.rs1) >= vm.reg(instruction.rs2) {
                vm.pc = vm.pc.wrapping_add(instruction.imm);
                return Ok(());
            }
        },
        // jump instructions
        Opcode::Jal => {
            vm.reg_mut(instruction.rd, vm.pc.wrapping_add(4));
            vm.pc = vm.pc.wrapping_add(instruction.imm);
            return Ok(());
        },
        Opcode::Jalr => {
            let rs1_value = vm.reg(instruction.rs1);
            vm.reg_mut(instruction.rd, vm.pc.wrapping_add(4));
            // the ISA clears bit 0 of the indirect target
            vm.pc = rs1_value.wrapping_add(instruction.imm) & 0xffff_fffe;
            return Ok(());
        },
        Opcode::Lui => {
            vm.reg_mut(instruction.rd, instruction.imm);
        },
        Opcode::Auipc => {
            let v = vm.pc.wrapping_add(instruction.imm);
            vm.reg_mut(instruction.rd, v);
        },
        // system instructions
        Opcode::Ecall => {
            let function = vm.reg(17);
            if function == 1 {
                // write a register's value in decimal
                let file_descriptor = vm.reg(10);
                let value = vm.reg(11);
                if file_descriptor == 1 {
                    push_dec_line(&mut vm.stdout, value);
                } else if file_descriptor == 2 {
                    push_dec_line(&mut vm.stderr, value);
                } else {
                    return Err(ExecError::InvalidFileDescriptor);
                }
            } else if function == 64 {
                // write a range of memory bytes
                let file_descriptor = vm.reg(10);
                let addr = vm.reg(11);
                let len = vm.reg(12);
                if file_descriptor == 1 {
                    append_mem_range(&mut vm.stdout, &vm.memory, addr, len);
                } else if file_descriptor == 2 {
                    append_mem_range(&mut vm.stderr, &vm.memory, addr, len);
                } else {
                    return Err(ExecError::InvalidFileDescriptor);
                }
            } else if function == 93 {
                // halt
                let exit_code = vm.reg(10);
                vm.halted = true;
                vm.exit_code = exit_code;
            } else {
                // an unknown selector is skipped
            }
        },
        Opcode::Ebreak => {
            // an explicit halt, with a distinguished exit code
            vm.halted = true;
            vm.exit_code = 3;
        },
        Opcode::Eother => {
            // skipping execution of this instruction
        },
        Opcode::Fence => {
            // skipping execution of this instruction
        },
    }

    // update pc
    vm.pc = vm.pc.wrapping_add(4);
    Ok(())
}

/// Appends the `len` bytes of memory starting at `addr`, as the
/// write-string system call emits them.
fn append_mem_range(dst: &mut Vec<u8>, mem: &HashMap<u32, u8>, addr: u32, len: u32)
    ensures
        final(dst)@ == old(dst)@ + mem_range(mem@, addr, len),
{
    let ghost dst0 = dst@;
    let mut k: u32 = 0;
    while k < len
        invariant
            k <= len,
            dst@ =~= dst0 + mem_range(mem@, addr, k),
        decreases len - k,
    {
        let b = byte_at(mem, addr.wrapping_add(k));
        dst.push(b);
        proof {
            lemma_wrapping_add_offset(addr, k);
            assert(mem_range(mem@, addr, (k + 1) as u32) =~= mem_range(mem@, addr, k).push(b));
        }
        k = k + 1;
    }
    proof {
        assert(dst0 + mem_range(mem@, addr, len) =~= dst@);
    }
}

} // verus!
