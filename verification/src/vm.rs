//! The register virtual machine: 32 signed 32-bit registers, a byte-offset
//! program counter, a heap, an equal flag, read-only string data, and the
//! fetch/decode/execute loop over 4-byte instructions.
//!
//! Every step of execution is described by `spec_step`, a total function on
//! the machine state.  An ill-formed instruction — an operand byte past the
//! end of the program, a register index of 32 or more, division by zero, a
//! jump to a negative address, arithmetic the heap cannot follow, or
//! unterminated read-only data — makes the step a fault: execution stops
//! with the state unchanged.  `PRTS` appends the addressed bytes to the
//! `output` buffer; printing them is the caller's business.

use vstd::prelude::*;

use crate::instruction::Opcode;
use crate::instruction::opcode_of_byte;
use vstd::wrapping::i32_specs;

verus! {

/// The machine.
#[derive(Debug)]
pub struct VM {
    /// The register file: always exactly 32 entries.
    pub registers: Vec<i32>,
    /// Program counter: a byte offset into `program`.
    pub pc: usize,
    /// The bytecode being run.
    pub program: Vec<u8>,
    /// Heap memory, grown by `ALOC`.
    pub heap: Vec<u8>,
    /// Remainder of the last `DIV`.
    pub remainder: u32,
    /// Result of the last comparison.
    pub equal_flag: bool,
    /// Read-only section data, read by `PRTS`.
    pub ro_data: Vec<u8>,
    /// Bytes produced by `PRTS`, in order.
    pub output: Vec<u8>,
}

/// The mathematical image of the machine state.
pub ghost struct VmV {
    pub registers: Seq<i32>,
    pub pc: int,
    pub program: Seq<u8>,
    pub heap: Seq<u8>,
    pub remainder: u32,
    pub equal_flag: bool,
    pub ro_data: Seq<u8>,
    pub output: Seq<u8>,
}

impl View for VM {
    type V = VmV;

    open spec fn view(&self) -> VmV {
        VmV {
            registers: self.registers@,
            pc: self.pc as int,
            program: self.program@,
            heap: self.heap@,
            remainder: self.remainder,
            equal_flag: self.equal_flag,
            ro_data: self.ro_data@,
            output: self.output@,
        }
    }
}

/// Well-formedness: the register file has exactly 32 entries.
pub open spec fn spec_wf(v: VmV) -> bool {
    v.registers.len() == 32 && v.pc >= 0
}

/// The big-endian 16-bit value at `p[i..i+2)`.
pub open spec fn spec_imm16(p: Seq<u8>, i: int) -> int {
    p[i] as int * 256 + p[i + 1] as int
}

/// The first position at or after `i` holding a zero byte; the length when
/// none does.
pub open spec fn spec_find_zero(ro: Seq<u8>, i: int) -> int
    decreases ro.len() - i,
{
    if 0 <= i < ro.len() {
        if ro[i] == 0 {
            i
        } else {
            spec_find_zero(ro, i + 1)
        }
    } else {
        i
    }
}

/// One step of execution: the next state and whether execution stops.
/// Stopping cases: the program counter at or past the end, `HLT`, `IGL`
/// (each consuming the opcode byte), and any fault, which stops with the
/// state unchanged.  Every continuing non-jump instruction consumes its
/// whole 4-byte unit, unused slots included.  A jump may land at or past
/// the end of the program; the machine then stops at the next fetch.
pub open spec fn spec_step(v: VmV) -> (VmV, bool) {
    let n = v.program.len() as int;
    if v.pc >= n {
        (v, true)
    } else {
        match opcode_of_byte(v.program[v.pc]) {
            Opcode::LOAD => {
                if n - v.pc < 4 {
                    (v, true)
                } else {
                    let r = v.program[v.pc + 1] as int;
                    if r >= 32 {
                        (v, true)
                    } else {
                        let imm = spec_imm16(v.program, v.pc + 2);
                        (
                            VmV {
                                registers: v.registers.update(r, imm as i32),
                                pc: v.pc + 4,
                                ..v
                            },
                            false,
                        )
                    }
                }
            },
            Opcode::ADD => spec_step_arith(v, Opcode::ADD),
            Opcode::SUB => spec_step_arith(v, Opcode::SUB),
            Opcode::MUL => spec_step_arith(v, Opcode::MUL),
            Opcode::DIV => {
                if n - v.pc < 4 {
                    (v, true)
                } else {
                    let r1 = v.program[v.pc + 1] as int;
                    let r2 = v.program[v.pc + 2] as int;
                    let r3 = v.program[v.pc + 3] as int;
                    if r1 >= 32 || r2 >= 32 || r3 >= 32 {
                        (v, true)
                    } else {
                        let a = v.registers[r1];
                        let b = v.registers[r2];
                        match (a.checked_div(b), a.checked_rem(b)) {
                            (Some(q), Some(rm)) => (
                                VmV {
                                    registers: v.registers.update(r3, q),
                                    remainder: rm as u32,
                                    pc: v.pc + 4,
                                    ..v
                                },
                                false,
                            ),
                            _ => (v, true),
                        }
                    }
                }
            },
            Opcode::HLT => (VmV { pc: v.pc + 1, ..v }, true),
            Opcode::JMP => {
                if n - v.pc < 2 {
                    (v, true)
                } else {
                    let r = v.program[v.pc + 1] as int;
                    if r >= 32 || v.registers[r] < 0 {
                        (v, true)
                    } else {
                        (VmV { pc: v.registers[r] as int, ..v }, false)
                    }
                }
            },
            Opcode::JMPF => {
                if n - v.pc < 2 {
                    (v, true)
                } else {
                    let r = v.program[v.pc + 1] as int;
                    if r >= 32 || v.registers[r] < 0 || v.pc + 2 + v.registers[r]
                        > usize::MAX {
                        (v, true)
                    } else {
                        (VmV { pc: v.pc + 2 + v.registers[r], ..v }, false)
                    }
                }
            },
            Opcode::JMPB => {
                if n - v.pc < 2 {
                    (v, true)
                } else {
                    let r = v.program[v.pc + 1] as int;
                    if r >= 32 || v.registers[r] < 0 || v.registers[r] > v.pc + 2 {
                        (v, true)
                    } else {
                        (VmV { pc: v.pc + 2 - v.registers[r], ..v }, false)
                    }
                }
            },
            Opcode::EQ => spec_step_compare(v, Opcode::EQ),
            Opcode::NEQ => spec_step_compare(v, Opcode::NEQ),
            Opcode::GT => spec_step_compare(v, Opcode::GT),
            Opcode::LT => spec_step_compare(v, Opcode::LT),
            Opcode::GTE => spec_step_compare(v, Opcode::GTE),
            Opcode::LTE => spec_step_compare(v, Opcode::LTE),
            Opcode::JMPE => {
                if n - v.pc < 2 {
                    (v, true)
                } else {
                    let r = v.program[v.pc + 1] as int;
                    if r >= 32 {
                        (v, true)
                    } else if v.equal_flag {
                        if v.registers[r] < 0 {
                            (v, true)
                        } else {
                            (VmV { pc: v.registers[r] as int, ..v }, false)
                        }
                    } else {
                        if n - v.pc < 4 {
                            (v, true)
                        } else {
                            (VmV { pc: v.pc + 4, ..v }, false)
                        }
                    }
                }
            },
            Opcode::NOP => {
                if n - v.pc < 4 {
                    (v, true)
                } else {
                    (VmV { pc: v.pc + 4, ..v }, false)
                }
            },
            Opcode::ALOC => {
                if n - v.pc < 4 {
                    (v, true)
                } else {
                    let r = v.program[v.pc + 1] as int;
                    if r >= 32 || v.heap.len() > i32::MAX {
                        (v, true)
                    } else {
                        let new_end = v.heap.len() + v.registers[r];
                        if new_end < 0 || new_end > i32::MAX {
                            (v, true)
                        } else {
                            let heap2 = if new_end <= v.heap.len() {
                                v.heap.subrange(0, new_end)
                            } else {
                                v.heap + Seq::new((new_end - v.heap.len()) as nat, |i: int| 0u8)
                            };
                            (VmV { heap: heap2, pc: v.pc + 4, ..v }, false)
                        }
                    }
                }
            },
            Opcode::INC => {
                if n - v.pc < 4 {
                    (v, true)
                } else {
                    let r = v.program[v.pc + 1] as int;
                    if r >= 32 {
                        (v, true)
                    } else {
                        (
                            VmV {
                                registers: v.registers.update(
                                    r,
                                    i32_specs::wrapping_add(v.registers[r], 1),
                                ),
                                pc: v.pc + 4,
                                ..v
                            },
                            false,
                        )
                    }
                }
            },
            Opcode::DEC => {
                if n - v.pc < 4 {
                    (v, true)
                } else {
                    let r = v.program[v.pc + 1] as int;
                    if r >= 32 {
                        (v, true)
                    } else {
                        (
                            VmV {
                                registers: v.registers.update(
                                    r,
                                    i32_specs::wrapping_sub(v.registers[r], 1),
                                ),
                                pc: v.pc + 4,
                                ..v
                            },
                            false,
                        )
                    }
                }
            },
            Opcode::DJMPE => {
                if n - v.pc < 3 {
                    (v, true)
                } else {
                    let dest = spec_imm16(v.program, v.pc + 1);
                    if v.equal_flag {
                        (VmV { pc: dest + 1, ..v }, false)
                    } else {
                        if n - v.pc < 4 {
                            (v, true)
                        } else {
                            (VmV { pc: v.pc + 4, ..v }, false)
                        }
                    }
                }
            },
            Opcode::PRTS => {
                if n - v.pc < 4 {
                    (v, true)
                } else {
                    let start = spec_imm16(v.program, v.pc + 1);
                    let z = spec_find_zero(v.ro_data, start);
                    if z >= v.ro_data.len() {
                        (v, true)
                    } else {
                        (
                            VmV { output: v.output + v.ro_data.subrange(start, z), pc: v.pc + 4, ..v },
                            false,
                        )
                    }
                }
            },
            Opcode::IGL => (VmV { pc: v.pc + 1, ..v }, true),
        }
    }
}

/// The arithmetic step shared by `ADD`, `SUB` and `MUL`: three register
/// operands, two's-complement (wrapping) arithmetic into the third.
pub open spec fn spec_step_arith(v: VmV, op: Opcode) -> (VmV, bool) {
    let n = v.program.len() as int;
    if n - v.pc < 4 {
        (v, true)
    } else {
        let r1 = v.program[v.pc + 1] as int;
        let r2 = v.program[v.pc + 2] as int;
        let r3 = v.program[v.pc + 3] as int;
        if r1 >= 32 || r2 >= 32 || r3 >= 32 {
            (v, true)
        } else {
            let a = v.registers[r1];
            let b = v.registers[r2];
            let res = match op {
                Opcode::ADD => i32_specs::wrapping_add(a, b),
                Opcode::SUB => i32_specs::wrapping_sub(a, b),
                _ => i32_specs::wrapping_mul(a, b),
            };
            (VmV { registers: v.registers.update(r3, res), pc: v.pc + 4, ..v }, false)
        }
    }
}

/// The comparison step shared by `EQ` through `LTE`: two register operands,
/// the equal flag set from the comparison, the trailing byte consumed.
pub open spec fn spec_step_compare(v: VmV, op: Opcode) -> (VmV, bool) {
    let n = v.program.len() as int;
    if n - v.pc < 4 {
        (v, true)
    } else {
        let r1 = v.program[v.pc + 1] as int;
        let r2 = v.program[v.pc + 2] as int;
        if r1 >= 32 || r2 >= 32 {
            (v, true)
        } else {
            let a = v.registers[r1];
            let b = v.registers[r2];
            let flag = match op {
                Opcode::EQ => a == b,
                Opcode::NEQ => a != b,
                Opcode::GT => a > b,
                Opcode::LT => a < b,
                Opcode::GTE => a >= b,
                _ => a <= b,
            };
            (VmV { equal_flag: flag, pc: v.pc + 4, ..v }, false)
        }
    }
}

/// `k` steps of execution; stepping a stopped machine changes nothing.
pub open spec fn spec_steps(v: VmV, k: nat) -> VmV
    decreases k,
{
    if k == 0 {
        v
    } else {
        spec_steps(spec_step(v).0, (k - 1) as nat)
    }
}

pub proof fn lemma_steps_snoc(v: VmV, k: nat)
    ensures
        spec_steps(v, k + 1) == spec_step(spec_steps(v, k)).0,
    decreases k,
{
    if k > 0 {
        lemma_steps_snoc(spec_step(v).0, (k - 1) as nat);
    } else {
        assert(spec_steps(v, 1) == spec_steps(spec_step(v).0, 0));
    }
}

/// Whether the first four program bytes are the image magic prefix.
pub open spec fn spec_header_ok(v: VmV) -> bool {
    v.program.len() >= 4 && v.program.subrange(0, 4) == seq![45u8, 50u8, 49u8, 45u8]
}

impl VM {
    /// Appends one byte to the program.
    pub fn add_byte(&mut self, b: u8)
        ensures
            final(self)@ == (VmV { program: old(self)@.program.push(b), ..old(self)@ }),
    {
        self.program.push(b);
    }

    /// Appends a whole byte vector to the program.
    pub fn add_bytes(&mut self, b: Vec<u8>)
        ensures
            final(self)@ == (VmV { program: old(self)@.program + b@, ..old(self)@ }),
    {
        let mut rest = b;
        self.program.append(&mut rest);
    }

    /// Decodes the byte at the program counter and advances past it.
    pub fn decode_opcode(&mut self) -> (r: Opcode)
        requires
            old(self)@.pc < old(self)@.program.len(),
        ensures
            final(self)@ == (VmV { pc: old(self)@.pc + 1, ..old(self)@ }),
            r == opcode_of_byte(old(self)@.program[old(self)@.pc]),
    {
        let n = self.program.len();
        let opcode = Opcode::from_byte(self.program[self.pc]);
        self.pc += 1;
        opcode
    }

    /// Reads the next operand byte and advances past it.
    pub fn next_8_bits(&mut self) -> (r: u8)
        requires
            old(self)@.pc < old(self)@.program.len(),
        ensures
            final(self)@ == (VmV { pc: old(self)@.pc + 1, ..old(self)@ }),
            r == old(self)@.program[old(self)@.pc],
    {
        let n = self.program.len();
        let result = self.program[self.pc];
        self.pc += 1;
        result
    }

    /// Reads the next two operand bytes, big-endian, and advances past them.
    pub fn next_16_bits(&mut self) -> (r: u16)
        requires
            old(self)@.pc + 2 <= old(self)@.program.len(),
        ensures
            final(self)@ == (VmV { pc: old(self)@.pc + 2, ..old(self)@ }),
            r == spec_imm16(old(self)@.program, old(self)@.pc),
    {
        let n = self.program.len();
        let hi = self.program[self.pc] as u16;
        let lo = self.program[self.pc + 1] as u16;
        let result = hi * 256 + lo;
        self.pc += 2;
        result
    }

    /// Whether the loaded program starts with the image magic prefix.
    pub fn verify_header(&self) -> (r: bool)
        ensures
            r == spec_header_ok(self@),
    {
        if self.program.len() < 4 {
            return false;
        }
        let ok = self.program[0] == 45 && self.program[1] == 50 && self.program[2] == 49
            && self.program[3] == 45;
        proof {
            if ok {
                assert(self@.program.subrange(0, 4) =~= seq![45u8, 50u8, 49u8, 45u8]);
            } else {
                assert(self@.program.subrange(0, 4) =~= seq![
                    self@.program[0],
                    self@.program[1],
                    self@.program[2],
                    self@.program[3],
                ]);
            }
        }
        ok
    }

    fn execute_arith(&mut self, op: Opcode) -> (done: bool)
        requires
            spec_wf(old(self)@),
            old(self)@.pc < old(self)@.program.len(),
            op == Opcode::ADD || op == Opcode::SUB || op == Opcode::MUL,
        ensures
            (final(self)@, done) == spec_step_arith(old(self)@, op),
            spec_wf(final(self)@),
    {
        let n = self.program.len();
        if n - self.pc < 4 {
            return true;
        }
        let r1 = self.program[self.pc + 1] as usize;
        let r2 = self.program[self.pc + 2] as usize;
        let r3 = self.program[self.pc + 3] as usize;
        if r1 >= 32 || r2 >= 32 || r3 >= 32 {
            return true;
        }
        let a = self.registers[r1];
        let b = self.registers[r2];
        let res = match op {
            Opcode::ADD => a.wrapping_add(b),
            Opcode::SUB => a.wrapping_sub(b),
            _ => a.wrapping_mul(b),
        };
        self.registers[r3] = res;
        self.pc += 4;
        false
    }

    fn execute_compare(&mut self, op: Opcode) -> (done: bool)
        requires
            spec_wf(old(self)@),
            old(self)@.pc < old(self)@.program.len(),
            op == Opcode::EQ || op == Opcode::NEQ || op == Opcode::GT || op == Opcode::LT || op
                == Opcode::GTE || op == Opcode::LTE,
        ensures
            (final(self)@, done) == spec_step_compare(old(self)@, op),
            spec_wf(final(self)@),
    {
        let n = self.program.len();
        if n - self.pc < 4 {
            return true;
        }
        let r1 = self.program[self.pc + 1] as usize;
        let r2 = self.program[self.pc + 2] as usize;
        if r1 >= 32 || r2 >= 32 {
            return true;
        }
        let a = self.registers[r1];
        let b = self.registers[r2];
        let flag = match op {
            Opcode::EQ => a == b,
            Opcode::NEQ => a != b,
            Opcode::GT => a > b,
            Opcode::LT => a < b,
            Opcode::GTE => a >= b,
            _ => a <= b,
        };
        self.equal_flag = flag;
        self.pc += 4;
        false
    }

    /// Executes one instruction; `true` means execution stops.
    fn execute_instruction(&mut self) -> (done: bool)
        requires
            spec_wf(old(self)@),
        ensures
            final(self)@ == spec_step(old(self)@).0,
            done == spec_step(old(self)@).1,
            spec_wf(final(self)@),
    {
        let n = self.program.len();
        if self.pc >= n {
            return true;
        }
        match Opcode::from_byte(self.program[self.pc]) {
            Opcode::LOAD => {
                if n - self.pc < 4 {
                    return true;
                }
                let r = self.program[self.pc + 1] as usize;
                if r >= 32 {
                    return true;
                }
                let imm = (self.program[self.pc + 2] as u32) * 256 + (self.program[self.pc + 3]
                    as u32);
                self.registers[r] = imm as i32;
                self.pc += 4;
                false
            },
            Opcode::ADD => self.execute_arith(Opcode::ADD),
            Opcode::SUB => self.execute_arith(Opcode::SUB),
            Opcode::MUL => self.execute_arith(Opcode::MUL),
            Opcode::DIV => {
                if n - self.pc < 4 {
                    return true;
                }
                let r1 = self.program[self.pc + 1] as usize;
                let r2 = self.program[self.pc + 2] as usize;
                let r3 = self.program[self.pc + 3] as usize;
                if r1 >= 32 || r2 >= 32 || r3 >= 32 {
                    return true;
                }
                let a = self.registers[r1];
                let b = self.registers[r2];
                match (a.checked_div(b), a.checked_rem(b)) {
                    (Some(q), Some(rm)) => {
                        self.registers[r3] = q;
                        #[verifier::truncate]
                        let rmu: u32 = rm as u32;
                        self.remainder = rmu;
                        self.pc += 4;
                        false
                    },
                    _ => true,
                }
            },
            Opcode::HLT => {
                self.pc += 1;
                true
            },
            Opcode::JMP => {
                if n - self.pc < 2 {
                    return true;
                }
                let r = self.program[self.pc + 1] as usize;
                if r >= 32 {
                    return true;
                }
                let target = self.registers[r];
                if target < 0 {
                    return true;
                }
                self.pc = target as usize;
                false
            },
            Opcode::JMPF => {
                if n - self.pc < 2 {
                    return true;
                }
                let r = self.program[self.pc + 1] as usize;
                if r >= 32 {
                    return true;
                }
                let value = self.registers[r];
                if value < 0 {
                    return true;
                }
                match (self.pc + 2).checked_add(value as usize) {
                    Some(t) => {
                        self.pc = t;
                        false
                    },
                    None => true,
                }
            },
            Opcode::JMPB => {
                if n - self.pc < 2 {
                    return true;
                }
                let r = self.program[self.pc + 1] as usize;
                if r >= 32 {
                    return true;
                }
                let value = self.registers[r];
                if value < 0 {
                    return true;
                }
                let value = value as usize;
                if value > self.pc + 2 {
                    return true;
                }
                self.pc = self.pc + 2 - value;
                false
            },
            Opcode::EQ => self.execute_compare(Opcode::EQ),
            Opcode::NEQ => self.execute_compare(Opcode::NEQ),
            Opcode::GT => self.execute_compare(Opcode::GT),
            Opcode::LT => self.execute_compare(Opcode::LT),
            Opcode::GTE => self.execute_compare(Opcode::GTE),
            Opcode::LTE => self.execute_compare(Opcode::LTE),
            Opcode::JMPE => {
                if n - self.pc < 2 {
                    return true;
                }
                let r = self.program[self.pc + 1] as usize;
                if r >= 32 {
                    return true;
                }
                if self.equal_flag {
                    let target = self.registers[r];
                    if target < 0 {
                        return true;
                    }
                    self.pc = target as usize;
                    false
                } else {
                    if n - self.pc < 4 {
                        return true;
                    }
                    self.pc += 4;
                    false
                }
            },
            Opcode::NOP => {
                if n - self.pc < 4 {
                    return true;
                }
                self.pc += 4;
                false
            },
            Opcode::ALOC => {
                if n - self.pc < 4 {
                    return true;
                }
                let r = self.program[self.pc + 1] as usize;
                if r >= 32 {
                    return true;
                }
                if self.heap.len() > i32::MAX as usize {
                    return true;
                }
                let bytes = self.registers[r];
                let new_end = match (self.heap.len() as i32).checked_add(bytes) {
                    Some(e) => e,
                    None => {
                        return true;
                    },
                };
                if new_end < 0 {
                    return true;
                }
                let new_len = new_end as usize;
                if new_len <= self.heap.len() {
                    self.heap.truncate(new_len);
                } else {
                    let ghost heap0 = self.heap@;
                    while self.heap.len() < new_len
                        invariant
                            heap0.len() <= self.heap@.len() <= new_len,
                            new_len <= i32::MAX,
                            self.heap@.subrange(0, heap0.len() as int) == heap0,
                            forall|i: int|
                                heap0.len() <= i < self.heap@.len() ==> self.heap@[i] == 0u8,
                            self@ == (VmV { heap: self.heap@, ..old(self)@ }),
                            self.pc + 4 <= self.program@.len(),
                        decreases new_len - self.heap.len(),
                    {
                        self.heap.push(0);
                        proof {
                            assert(self.heap@.subrange(0, heap0.len() as int) =~= heap0);
                        }
                    }
                    proof {
                        assert(self.heap@ =~= heap0 + Seq::new(
                            (new_len - heap0.len()) as nat,
                            |i: int| 0u8,
                        ));
                    }
                }
                self.pc += 4;
                false
            },
            Opcode::INC => {
                if n - self.pc < 4 {
                    return true;
                }
                let r = self.program[self.pc + 1] as usize;
                if r >= 32 {
                    return true;
                }
                self.registers[r] = self.registers[r].wrapping_add(1);
                self.pc += 4;
                false
            },
            Opcode::DEC => {
                if n - self.pc < 4 {
                    return true;
                }
                let r = self.program[self.pc + 1] as usize;
                if r >= 32 {
                    return true;
                }
                self.registers[r] = self.registers[r].wrapping_sub(1);
                self.pc += 4;
                false
            },
            Opcode::DJMPE => {
                if n - self.pc < 3 {
                    return true;
                }
                let dest = ((self.program[self.pc + 1] as usize) * 256 + (self.program[self.pc + 2]
                    as usize));
                if self.equal_flag {
                    self.pc = dest + 1;
                    false
                } else {
                    if n - self.pc < 4 {
                        return true;
                    }
                    self.pc += 4;
                    false
                }
            },
            Opcode::PRTS => {
                if n - self.pc < 4 {
                    return true;
                }
                let start = (self.program[self.pc + 1] as usize) * 256 + (self.program[self.pc + 2]
                    as usize);
                let mut z = start;
                while z < self.ro_data.len() && self.ro_data[z] != 0
                    invariant
                        start <= z <= self.ro_data@.len() || z == start,
                        z <= self.ro_data@.len() || z == start,
                        spec_find_zero(self.ro_data@, start as int) == spec_find_zero(
                            self.ro_data@,
                            z as int,
                        ),
                    decreases self.ro_data@.len() - z,
                {
                    z += 1;
                }
                if z >= self.ro_data.len() {
                    return true;
                }
                let ghost out0 = self.output@;
                let mut m = start;
                while m < z
                    invariant
                        start <= m <= z < self.ro_data@.len(),
                        self.output@ == out0 + self.ro_data@.subrange(start as int, m as int),
                        self@ == (VmV { output: self.output@, ..old(self)@ }),
                    decreases z - m,
                {
                    let byte = self.ro_data[m];
                    self.output.push(byte);
                    proof {
                        assert(self.output@ =~= out0 + self.ro_data@.subrange(
                            start as int,
                            m as int + 1,
                        ));
                    }
                    m += 1;
                }
                self.pc += 4;
                false
            },
            Opcode::IGL => {
                self.pc += 1;
                true
            },
        }
    }

    /// Executes exactly one instruction, whatever the header.
    pub fn run_once(&mut self)
        requires
            spec_wf(old(self)@),
        ensures
            final(self)@ == spec_step(old(self)@).0,
            spec_wf(final(self)@),
    {
        self.execute_instruction();
    }

    /// Checks the header, starts execution at byte 64 — just past the
    /// header — and runs until the machine stops (or an astronomically
    /// large step bound is exhausted).  Returns `false`, changing nothing,
    /// when the header is wrong.
    pub fn run(&mut self) -> (ok: bool)
        requires
            spec_wf(old(self)@),
        ensures
            !spec_header_ok(old(self)@) ==> !ok && *final(self) == *old(self),
            spec_header_ok(old(self)@) ==> ok && ({
                let start = VmV { pc: 64, ..old(self)@ };
                exists|k: nat|
                    1 <= k <= u64::MAX && final(self)@ == #[trigger] spec_steps(start, k) && (
                    spec_step(spec_steps(start, (k - 1) as nat)).1 || k == u64::MAX)
            }),
            spec_wf(final(self)@),
    {
        if !self.verify_header() {
            return false;
        }
        self.pc = 64;
        let ghost start = self@;
        let mut steps: u64 = 0;
        let mut is_done = false;
        while !is_done && steps < u64::MAX
            invariant
                spec_wf(self@),
                self@ == spec_steps(start, steps as nat),
                steps == 0 ==> !is_done,
                is_done ==> spec_step(spec_steps(start, (steps - 1) as nat)).1,
            decreases u64::MAX - steps,
        {
            proof {
                lemma_steps_snoc(start, steps as nat);
            }
            is_done = self.execute_instruction();
            steps += 1;
        }
        true
    }

    /// A machine with registers 0 and 1 holding 5 and 10, for exercising
    /// the instruction set.
    pub fn get_test_vm() -> (r: VM)
        ensures
            spec_wf(r@),
            r@.registers[0] == 5 && r@.registers[1] == 10,
            forall|k: int| 2 <= k < 32 ==> r@.registers[k] == 0,
            r@.pc == 0 && r@.program == Seq::<u8>::empty() && r@.heap == Seq::<u8>::empty(),
            r@.ro_data == Seq::<u8>::empty() && r@.output == Seq::<u8>::empty(),
            r@.remainder == 0 && !r@.equal_flag,
    {
        let mut test_vm = VM::default();
        test_vm.registers[0] = 5;
        test_vm.registers[1] = 10;
        test_vm
    }
}

impl Default for VM {
    /// A machine with everything zeroed and empty.
    fn default() -> (r: VM)
        ensures
            spec_wf(r@),
            forall|k: int| 0 <= k < 32 ==> r@.registers[k] == 0,
            r@.pc == 0 && r@.program == Seq::<u8>::empty() && r@.heap == Seq::<u8>::empty(),
            r@.ro_data == Seq::<u8>::empty() && r@.output == Seq::<u8>::empty(),
            r@.remainder == 0 && !r@.equal_flag,
    {
        VM {
            registers: vec![0i32; 32],
            pc: 0,
            program: Vec::new(),
            heap: Vec::new(),
            remainder: 0,
            equal_flag: false,
            ro_data: Vec::new(),
            output: Vec::new(),
        }
    }
}

} // verus!
