//! The machine model: the register file, the sparse byte-addressed
//! memory, the program counter, the halt state, and the captured output
//! of the write system calls, together with the fetch-decode-execute
//! loop.

use vstd::prelude::*;

verus! {

use std::collections::HashMap;
use crate::elf::{word_of_bytes, spec_u32_le, u32_le, ProgramImage, SegmentView};
use crate::decode_instruction::{spec_decode, decode_instruction};
use crate::execute_instruction::{step, step_ok, execute_instruction, ExecError};

broadcast use vstd::std_specs::hash::group_hash_axioms, vstd::array::group_array_axioms;

/// The mathematical state of the machine. Memory is a partial map from
/// addresses to bytes; an address outside its domain reads as zero.
/// `out` and `err` are the bytes the write system calls have emitted to
/// standard output and standard error.
pub ghost struct MachineState {
    pub regs: Seq<u32>,
    pub pc: u32,
    pub mem: Map<u32, u8>,
    pub halted: bool,
    pub exit_code: u32,
    pub out: Seq<u8>,
    pub err: Seq<u8>,
}

impl MachineState {
    /// A well-formed machine has exactly 32 registers and keeps the
    /// architectural zero register x0 at zero.
    pub open spec fn wf(self) -> bool {
        self.regs.len() == 32 && self.regs[0] == 0
    }
}

/// The value of register `r`.
pub open spec fn read_reg(s: MachineState, r: u32) -> u32
    recommends
        r < 32,
{
    s.regs[r as int]
}

/// Register writes are mediated: a write to x0 is discarded, a write to
/// any other register updates it.
pub open spec fn write_reg(s: MachineState, r: u32, v: u32) -> MachineState
    recommends
        r < 32,
{
    if r == 0 {
        s
    } else {
        MachineState { regs: s.regs.update(r as int, v), ..s }
    }
}

/// A byte of the sparse memory; addresses never written read as zero.
pub open spec fn mem_byte(m: Map<u32, u8>, addr: u32) -> u8 {
    if m.contains_key(addr) {
        m[addr]
    } else {
        0
    }
}

/// The machine with one byte of memory replaced.
pub open spec fn store_byte(s: MachineState, addr: u32, b: u8) -> MachineState {
    MachineState { mem: s.mem.insert(addr, b), ..s }
}

/// The little-endian 32-bit word at `addr`; the address wraps modulo
/// 2^32.
pub open spec fn mem_word(m: Map<u32, u8>, addr: u32) -> u32 {
    word_of_bytes(
        mem_byte(m, addr),
        mem_byte(m, addr.wrapping_add(1)),
        mem_byte(m, addr.wrapping_add(2)),
        mem_byte(m, addr.wrapping_add(3)),
    )
}

/// `addr + k`, reduced modulo 2^32.
pub open spec fn wrap_offset(addr: u32, k: int) -> u32 {
    ((addr + k) % 0x1_0000_0000) as u32
}

/// Wrapping addition of a `u32` offset lands on `wrap_offset`.
pub proof fn lemma_wrapping_add_offset(addr: u32, k: u32)
    ensures
        addr.wrapping_add(k) == wrap_offset(addr, k as int),
{
    if addr + k <= u32::MAX {
        assert((addr + k) % 0x1_0000_0000 == addr + k) by (nonlinear_arith)
            requires
                0 <= addr + k <= 0xffff_ffff,
        ;
    } else {
        assert((addr + k) % 0x1_0000_0000 == addr + k - 0x1_0000_0000) by (nonlinear_arith)
            requires
                0x1_0000_0000 <= addr + k < 0x2_0000_0000,
        ;
    }
}

/// The bytes stored consecutively from `addr`, later bytes written
/// after (and so over) earlier ones; the addresses wrap modulo 2^32.
pub open spec fn store_range(m: Map<u32, u8>, addr: u32, bytes: Seq<u8>) -> Map<u32, u8>
    decreases bytes.len(),
{
    if bytes.len() == 0 {
        m
    } else {
        store_range(m, addr, bytes.drop_last()).insert(
            wrap_offset(addr, bytes.len() - 1),
            bytes.last(),
        )
    }
}

/// The segments copied into memory in order, each at its virtual
/// address; a later segment overwrites an earlier one where they
/// overlap.
pub open spec fn load_segments(m: Map<u32, u8>, segs: Seq<SegmentView>) -> Map<u32, u8>
    decreases segs.len(),
{
    if segs.len() == 0 {
        m
    } else {
        store_range(
            load_segments(m, segs.drop_last()),
            segs.last().virtual_address,
            segs.last().bytes,
        )
    }
}

/// Copies `bytes` into the sparse memory starting at `addr`.
fn store_range_exec(m: &mut HashMap<u32, u8>, addr: u32, bytes: &Vec<u8>)
    requires
        bytes@.len() <= 0x1_0000_0000,
    ensures
        final(m)@ == store_range(old(m)@, addr, bytes@),
{
    let ghost m0 = m@;
    let mut k: usize = 0;
    while k < bytes.len()
        invariant
            m@ == store_range(m0, addr, bytes@.take(k as int)),
            k <= bytes@.len(),
            bytes@.len() <= 0x1_0000_0000,
        decreases bytes@.len() - k,
    {
        m.insert(addr.wrapping_add(k as u32), bytes[k]);
        proof {
            lemma_wrapping_add_offset(addr, k as u32);
            assert(bytes@.take(k + 1).drop_last() =~= bytes@.take(k as int));
            assert(bytes@.take(k + 1).last() == bytes@[k as int]);
        }
        k = k + 1;
    }
    proof {
        assert(bytes@.take(bytes@.len() as int) =~= bytes@);
    }
}

/// One iteration of the fetch-decode-execute loop: a halted machine is
/// unchanged; a word that does not decode halts the machine with exit
/// code 1; otherwise the decoded instruction's semantics apply.
pub open spec fn machine_step(s: MachineState) -> MachineState {
    if s.halted {
        s
    } else {
        match spec_decode(mem_word(s.mem, s.pc)) {
            Result::Err(e) => MachineState { halted: true, exit_code: 1, ..s },
            Result::Ok(i) => step(s, i),
        }
    }
}

/// `n` iterations of the fetch-decode-execute loop.
pub open spec fn run_steps(s: MachineState, n: nat) -> MachineState
    decreases n,
{
    if n == 0 {
        s
    } else {
        machine_step(run_steps(s, (n - 1) as nat))
    }
}

/// A state on which the loop must stop with an error: the next
/// instruction decodes to a write system call whose file descriptor is
/// neither 1 nor 2.
pub open spec fn fd_fault(s: MachineState) -> bool {
    &&& !s.halted
    &&& spec_decode(mem_word(s.mem, s.pc)) is Ok
    &&& !step_ok(s, spec_decode(mem_word(s.mem, s.pc))->Ok_0)
}

/// The machine. Registers are the 32 integer registers x0 through x31;
/// memory is sparse and byte-addressed over the full 32-bit address
/// space; `stdout` and `stderr` collect what the write system calls
/// emit, for the host to forward.
pub struct VM {
    pub registers: Vec<u32>,
    pub memory: HashMap<u32, u8>,
    pub pc: u32,
    pub halted: bool,
    pub exit_code: u32,
    pub stdout: Vec<u8>,
    pub stderr: Vec<u8>,
}

impl View for VM {
    type V = MachineState;

    open spec fn view(&self) -> MachineState {
        MachineState {
            regs: self.registers@,
            pc: self.pc,
            mem: self.memory@,
            halted: self.halted,
            exit_code: self.exit_code,
            out: self.stdout@,
            err: self.stderr@,
        }
    }
}

impl VM {
    /// A zeroed machine: all registers zero, memory empty (so every
    /// address reads as zero), the program counter at zero, not halted,
    /// and nothing emitted yet.
    pub fn init() -> (vm: VM)
        ensures
            vm@.wf(),
            vm@.regs =~= Seq::new(32, |i: int| 0u32),
            vm@.pc == 0,
            vm@.mem =~= Map::<u32, u8>::empty(),
            !vm@.halted,
            vm@.exit_code == 0,
            vm@.out =~= Seq::<u8>::empty(),
            vm@.err =~= Seq::<u8>::empty(),
    {
        let mut registers: Vec<u32> = Vec::new();
        while registers.len() < 32
            invariant
                registers@.len() <= 32,
                forall|i: int| 0 <= i < registers@.len() ==> registers@[i] == 0u32,
            decreases 32 - registers@.len(),
        {
            registers.push(0);
        }
        VM {
            registers,
            memory: HashMap::new(),
            pc: 0,
            halted: false,
            exit_code: 0,
            stdout: Vec::new(),
            stderr: Vec::new(),
        }
    }

    /// The value of register `addr`.
    pub fn reg(&self, addr: u32) -> (v: u32)
        requires
            addr < 32,
            self@.wf(),
        ensures
            v == read_reg(self@, addr),
    {
        self.registers[addr as usize]
    }

    /// Writes `value` to register `addr`. A write to x0 is discarded,
    /// which keeps the architectural zero register at zero.
    pub fn reg_mut(&mut self, addr: u32, value: u32)
        requires
            addr < 32,
            old(self)@.wf(),
        ensures
            final(self)@ == write_reg(old(self)@, addr, value),
            final(self)@.wf(),
    {
        if addr != 0 {
            self.registers[addr as usize] = value;
        }
    }

    /// The byte of memory at `addr`; an address never written reads as
    /// zero.
    pub fn mem(&self, addr: u32) -> (b: u8)
        ensures
            b == mem_byte(self@.mem, addr),
    {
        match self.memory.get(&addr) {
            Some(b) => *b,
            None => 0,
        }
    }

    /// Writes one byte of memory at `addr`.
    pub fn mem_mut(&mut self, addr: u32, value: u8)
        ensures
            final(self)@ == store_byte(old(self)@, addr, value),
    {
        self.memory.insert(addr, value);
    }

    /// The four bytes of memory starting at `addr`, in address order;
    /// the addresses wrap modulo 2^32.
    pub fn mem32(&self, addr: u32) -> (bytes: [u8; 4])
        ensures
            bytes@ =~= seq![
                mem_byte(self@.mem, addr),
                mem_byte(self@.mem, addr.wrapping_add(1)),
                mem_byte(self@.mem, addr.wrapping_add(2)),
                mem_byte(self@.mem, addr.wrapping_add(3)),
            ],
            spec_u32_le(bytes@) == mem_word(self@.mem, addr),
    {
        [
            self.mem(addr),
            self.mem(addr.wrapping_add(1)),
            self.mem(addr.wrapping_add(2)),
            self.mem(addr.wrapping_add(3)),
        ]
    }

    /// Fetches the four instruction bytes at `pc`.
    pub fn load_instruction(&self, pc: u32) -> (bytes: [u8; 4])
        ensures
            spec_u32_le(bytes@) == mem_word(self@.mem, pc),
    {
        self.mem32(pc)
    }

    /// A machine initialized from a program image: each segment's bytes
    /// are copied into memory at the segment's virtual address, in
    /// order, and the program counter starts at the image's entry
    /// point. Everything else is as in [`VM::init`].
    pub fn init_from_elf(image: &ProgramImage) -> (vm: VM)
        requires
            image@.wf(),
        ensures
            vm@.wf(),
            vm@.regs =~= Seq::new(32, |i: int| 0u32),
            vm@.pc == image@.entry_point,
            vm@.mem == load_segments(Map::<u32, u8>::empty(), image@.segments),
            !vm@.halted,
            vm@.exit_code == 0,
            vm@.out =~= Seq::<u8>::empty(),
            vm@.err =~= Seq::<u8>::empty(),
    {
        let mut vm = VM::init();
        let mut i: usize = 0;
        while i < image.segments.len()
            invariant
                i <= image@.segments.len(),
                image@.wf(),
                vm@.mem == load_segments(Map::<u32, u8>::empty(), image@.segments.take(i as int)),
                vm@.wf(),
                vm@.regs =~= Seq::new(32, |j: int| 0u32),
                vm@.pc == 0,
                !vm@.halted,
                vm@.exit_code == 0,
                vm@.out =~= Seq::<u8>::empty(),
                vm@.err =~= Seq::<u8>::empty(),
            decreases image@.segments.len() - i,
        {
            let seg = &image.segments[i];
            proof {
                assert(image@.segments[i as int] == image.segments@[i as int]@);
                assert(image@.segments[i as int].bytes.len() <= 0x1_0000_0000);
            }
            store_range_exec(&mut vm.memory, seg.virtual_address, &seg.bytes);
            proof {
                assert(image@.segments.take(i + 1).drop_last() =~= image@.segments.take(i as int));
                assert(image@.segments.take(i + 1).last() == image@.segments[i as int]);
            }
            i = i + 1;
        }
        proof {
            assert(image@.segments.take(image@.segments.len() as int) =~= image@.segments);
        }
        vm.pc = image.entry_point;
        vm
    }

    /// Runs the fetch-decode-execute loop: repeatedly fetch the word at
    /// `pc`, decode it, and execute it, until the machine halts (a word
    /// that does not decode halts it with exit code 1), until a write
    /// system call names a file descriptor other than 1 or 2 (the error
    /// is returned and the machine is left at the offending state), or
    /// until `fuel` instructions have executed. The state reached is
    /// always exactly some number of [`machine_step`] iterations from
    /// the starting state.
    pub fn run(&mut self, fuel: u64) -> (r: Result<(), ExecError>)
        requires
            old(self)@.wf(),
        ensures
            final(self)@.wf(),
            r is Ok ==> exists|n: nat|
                n <= fuel && final(self)@ == run_steps(old(self)@, n) && (final(self)@.halted || n
                    == fuel),
            r is Err ==> r == Err::<(), ExecError>(ExecError::InvalidFileDescriptor) && exists|
                n: nat,
            |
                n < fuel && final(self)@ == run_steps(old(self)@, n) && fd_fault(final(self)@),
    {
        let ghost s0 = self@;
        let mut steps: u64 = 0;
        while !self.halted && steps < fuel
            invariant
                self@.wf(),
                steps <= fuel,
                self@ == run_steps(s0, steps as nat),
                s0 == old(self)@,
            decreases fuel - steps,
        {
            let ghost pre = self@;

            // fetch instruction
            let instruction = self.load_instruction(self.pc);

            // decode instruction
            match decode_instruction(u32_le(vstd::array::array_as_slice(&instruction))) {
                Result::Err(_) => {
                    // halting due to an instruction that does not decode
                    self.halted = true;
                    self.exit_code = 1;
                    proof {
                        assert(self@ == machine_step(pre));
                    }
                },
                Result::Ok(decoded) => {
                    // execute instruction
                    match execute_instruction(self, decoded) {
                        Result::Ok(()) => {
                            proof {
                                assert(self@ == machine_step(pre));
                            }
                        },
                        Result::Err(e) => {
                            proof {
                                assert(self@ == run_steps(s0, steps as nat));
                                assert(fd_fault(self@));
                            }
                            return Err(e);
                        },
                    }
                },
            }
            steps = steps + 1;
        }
        proof {
            assert(self@ == run_steps(s0, steps as nat));
        }
        Ok(())
    }
}

} // verus!
