//! The two-pass assembler driver.  Phase one walks the instruction records
//! collecting symbols, sections and read-only data; phase two emits the
//! bytecode.  The result is a binary image: a fixed 64-byte header followed
//! by the instruction stream.

use vstd::prelude::*;

use crate::assembler_errors::AssemblerError;
use crate::assembler_errors::ErrorV;
use crate::parser::InstructionV;
use crate::parser::Program;
use crate::parser::program;
use crate::parser::spec_has_operands;
use crate::parser::spec_directive_name;
use crate::parser::spec_instruction_bytes;
use crate::parser::spec_is_directive;
use crate::parser::spec_is_label;
use crate::parser::spec_is_opcode;
use crate::parser::spec_label_name;
use crate::parser::spec_parse_program;
use crate::parser::spec_program_bytes;
use crate::parser::spec_string_constant;
use crate::symbols::Symbol;
use crate::symbols::SymbolTable;
use crate::symbols::SymbolType;
use crate::symbols::SymbolV;
use crate::symbols::spec_has_symbol;
use crate::symbols::spec_set_symbol_offset;
use crate::text::str_eq;
use vstd::wrapping::u32_specs;

verus! {

/// The magic prefix every image starts with (ASCII `-21-`).
pub const PIE_HEADER_PREFIX: [u8; 4] = [45, 50, 49, 45];

/// The full header length in bytes; bytes after the prefix are zero.
pub const PIE_HEADER_LENGTH: usize = 64;

/// The 64 header bytes: the magic prefix, then zeros.
pub open spec fn spec_header() -> Seq<u8> {
    seq![45u8, 50u8, 49u8, 45u8] + Seq::new(60, |i: int| 0u8)
}

/// Which pass the assembler is in.
#[derive(Debug, Clone, Copy, PartialEq, Eq, Structural)]
pub enum AssemblerPhase {
    First,
    Second,
}

/// A section of the source.  `Unknown` is a sentinel for an unrecognized
/// name and is never stored.
#[derive(Debug, Clone, Copy)]
pub enum AssemblerSection {
    Data { starting_instruction: Option<u32> },
    Code { starting_instruction: Option<u32> },
    Unknown,
}

/// The section a name declares.
pub open spec fn spec_section_of_name(name: Seq<char>) -> AssemblerSection {
    if name == "data"@ {
        AssemblerSection::Data { starting_instruction: None }
    } else if name == "code"@ {
        AssemblerSection::Code { starting_instruction: None }
    } else {
        AssemblerSection::Unknown
    }
}

impl AssemblerSection {
    /// The section a name declares; unrecognized names give `Unknown`.
    pub fn from_name(name: &str) -> (r: AssemblerSection)
        ensures
            r == spec_section_of_name(name@),
    {
        if str_eq(name, "data") {
            AssemblerSection::Data { starting_instruction: None }
        } else if str_eq(name, "code") {
            AssemblerSection::Code { starting_instruction: None }
        } else {
            AssemblerSection::Unknown
        }
    }
}

impl<'a> From<&'a str> for AssemblerSection {
    /// The section a name declares; unrecognized names give `Unknown`.
    fn from(name: &'a str) -> (r: AssemblerSection) {
        AssemblerSection::from_name(name)
    }
}

impl<'a> vstd::std_specs::convert::FromSpecImpl<&'a str> for AssemblerSection {
    open spec fn obeys_from_spec() -> bool {
        true
    }

    open spec fn from_spec(name: &'a str) -> Self {
        spec_section_of_name(name@)
    }
}

impl Default for AssemblerPhase {
    /// The assembler starts in the first phase.
    fn default() -> (r: AssemblerPhase)
        ensures
            r == AssemblerPhase::First,
    {
        AssemblerPhase::First
    }
}

impl Default for AssemblerSection {
    /// The sentinel for an unrecognized section.
    fn default() -> (r: Self)
        ensures
            r is Unknown,
    {
        AssemblerSection::Unknown
    }
}

/// The mathematical image of the assembler's whole state.
pub ghost struct AsmV {
    pub phase: AssemblerPhase,
    pub symbols: Seq<SymbolV>,
    pub ro: Seq<u8>,
    pub bytecode: Seq<u8>,
    pub ro_offset: u32,
    pub sections: Seq<AssemblerSection>,
    pub current_section: Option<AssemblerSection>,
    pub current_instruction: u32,
    pub errors: Seq<ErrorV>,
}

/// The state a fresh assembler starts in.
pub open spec fn spec_initial_asm() -> AsmV {
    AsmV {
        phase: AssemblerPhase::First,
        symbols: Seq::empty(),
        ro: Seq::empty(),
        bytecode: Seq::empty(),
        ro_offset: 0,
        sections: Seq::empty(),
        current_section: None,
        current_instruction: 0,
        errors: Seq::empty(),
    }
}

/// Truncation to 32 bits.
pub open spec fn w32(x: int) -> u32 {
    (x % 0x1_0000_0000) as u32
}

/// Registering a label declaration: a duplicate name is an error, a fresh
/// one enters the symbol table without an offset.
pub open spec fn spec_process_label_declaration(st: AsmV, i: InstructionV) -> AsmV {
    match spec_label_name(i) {
        None => AsmV {
            errors: st.errors.push(
                ErrorV::StringConstantDeclaredWithoutLabel { instruction: st.current_instruction },
            ),
            ..st
        },
        Some(name) => {
            if spec_has_symbol(st.symbols, name) {
                AsmV { errors: st.errors.push(ErrorV::SymbolAlreadyDeclared), ..st }
            } else {
                AsmV {
                    symbols: st.symbols.push(
                        SymbolV { name, offset: None, symbol_type: SymbolType::Label },
                    ),
                    ..st
                }
            }
        },
    }
}

/// A directive without operands declares a section; a recognized name is
/// stored and becomes current, an unknown one is ignored.
pub open spec fn spec_process_section_header(st: AsmV, name: Seq<char>) -> AsmV {
    let sec = spec_section_of_name(name);
    if sec is Unknown {
        st
    } else {
        AsmV { sections: st.sections.push(sec), current_section: Some(sec), ..st }
    }
}

/// `.asciiz` during phase one: the owning label's offset is set to the
/// current read-only offset, the string's UTF-8 bytes and a zero terminator
/// are appended, and the offset advances (wrapping at 32 bits).  Without a
/// label the error is recorded.  During phase two this is a no-op.
pub open spec fn spec_handle_asciiz(st: AsmV, i: InstructionV) -> AsmV {
    if st.phase != AssemblerPhase::First {
        st
    } else {
        match spec_string_constant(i) {
            None => st,
            Some(s) => {
                match spec_label_name(i) {
                    None => AsmV {
                        errors: st.errors.push(
                            ErrorV::StringConstantDeclaredWithoutLabel {
                                instruction: st.current_instruction,
                            },
                        ),
                        ..st
                    },
                    Some(name) => {
                        let bytes = vstd::utf8::encode_utf8(s);
                        AsmV {
                            symbols: spec_set_symbol_offset(st.symbols, name, st.ro_offset),
                            ro: st.ro + bytes + seq![0u8],
                            ro_offset: w32(st.ro_offset + bytes.len() + 1),
                            ..st
                        }
                    },
                }
            },
        }
    }
}

/// Directive dispatch: with operands, `.asciiz` is handled and any other
/// name is an error; without operands the directive is a section header.
pub open spec fn spec_process_directive(st: AsmV, i: InstructionV) -> AsmV {
    match spec_directive_name(i) {
        None => st,
        Some(name) => {
            if spec_has_operands(i) {
                if name == "asciiz"@ {
                    spec_handle_asciiz(st, i)
                } else {
                    AsmV {
                        errors: st.errors.push(ErrorV::UnknownDirectiveFound { directive: name }),
                        ..st
                    }
                }
            } else {
                spec_process_section_header(st, name)
            }
        },
    }
}

/// One phase-one step: a label is registered when a section is current and
/// is an error before any section; a directive is processed; the
/// instruction counter advances.
pub open spec fn spec_phase1_step(st: AsmV, i: InstructionV) -> AsmV {
    let st1 = if spec_is_label(i) {
        if st.current_section is Some {
            spec_process_label_declaration(st, i)
        } else {
            AsmV {
                errors: st.errors.push(
                    ErrorV::NoSegmentDeclarationFound { instruction: st.current_instruction },
                ),
                ..st
            }
        }
    } else {
        st
    };
    let st2 = if spec_is_directive(i) {
        spec_process_directive(st1, i)
    } else {
        st1
    };
    AsmV { current_instruction: u32_specs::wrapping_add(st2.current_instruction, 1), ..st2 }
}

/// Phase one over a whole instruction sequence, in source order.
pub open spec fn spec_phase1_fold(st: AsmV, instrs: Seq<InstructionV>) -> AsmV
    decreases instrs.len(),
{
    if instrs.len() == 0 {
        st
    } else {
        spec_phase1_fold(spec_phase1_step(st, instrs[0]), instrs.drop_first())
    }
}

/// Phase one, ending in the second phase.
pub open spec fn spec_phase1(st: AsmV, instrs: Seq<InstructionV>) -> AsmV {
    AsmV { phase: AssemblerPhase::Second, ..spec_phase1_fold(st, instrs) }
}

/// One phase-two step: directives are re-dispatched (`.asciiz` is guarded
/// by phase and idempotent) and the instruction counter advances; the
/// emitted bytes are accounted separately.
pub open spec fn spec_phase2_step(st: AsmV, i: InstructionV) -> AsmV {
    let st1 = if spec_is_directive(i) {
        spec_process_directive(st, i)
    } else {
        st
    };
    AsmV { current_instruction: u32_specs::wrapping_add(st1.current_instruction, 1), ..st1 }
}

/// Phase two over a whole instruction sequence: the final state and the
/// bytes emitted, each opcode instruction encoded against the symbol table
/// as it stands when that instruction is reached.
pub open spec fn spec_phase2_fold(st: AsmV, instrs: Seq<InstructionV>) -> (AsmV, Seq<u8>)
    decreases instrs.len(),
{
    if instrs.len() == 0 {
        (st, Seq::empty())
    } else {
        let bytes0 = if spec_is_opcode(instrs[0]) {
            spec_instruction_bytes(instrs[0], st.symbols)
        } else {
            Seq::<u8>::empty()
        };
        let st1 = spec_phase2_step(st, instrs[0]);
        let (st2, rest) = spec_phase2_fold(st1, instrs.drop_first());
        (st2, bytes0 + rest)
    }
}

/// Phase two, starting with the instruction counter reset.
pub open spec fn spec_phase2(st: AsmV, instrs: Seq<InstructionV>) -> (AsmV, Seq<u8>) {
    spec_phase2_fold(AsmV { current_instruction: 0, ..st }, instrs)
}

proof fn lemma_w32_step(a: int, b: u32)
    requires
        a >= 0,
        b == w32(a),
    ensures
        u32_specs::wrapping_add(b, 1) == w32(a + 1),
{
    assert(0 <= a % 0x1_0000_0000 < 0x1_0000_0000) by (nonlinear_arith)
        requires
            a >= 0,
    ;
    assert(b as int == a % 0x1_0000_0000);
    assert((a + 1) % 0x1_0000_0000 == (a % 0x1_0000_0000 + 1) % 0x1_0000_0000)
        by (nonlinear_arith);
    if b == u32::MAX {
        assert((b as int + 1) % 0x1_0000_0000 == 0) by (nonlinear_arith)
            requires
                b == u32::MAX,
        ;
    } else {
        assert((b as int + 1) % 0x1_0000_0000 == b as int + 1) by (nonlinear_arith)
            requires
                0 <= b < u32::MAX,
        ;
    }
}

proof fn lemma_phase1_fold_snoc(st: AsmV, instrs: Seq<InstructionV>, x: InstructionV)
    ensures
        spec_phase1_fold(st, instrs.push(x)) == spec_phase1_step(spec_phase1_fold(st, instrs), x),
    decreases instrs.len(),
{
    if instrs.len() == 0 {
        assert(instrs.push(x)[0] == x);
        assert(instrs.push(x).drop_first() =~= Seq::<InstructionV>::empty());
        assert(spec_phase1_fold(spec_phase1_step(st, x), Seq::<InstructionV>::empty())
            == spec_phase1_step(st, x));
        assert(spec_phase1_fold(st, instrs) == st);
    } else {
        assert(instrs.push(x)[0] == instrs[0]);
        assert(instrs.push(x).drop_first() =~= instrs.drop_first().push(x));
        lemma_phase1_fold_snoc(spec_phase1_step(st, instrs[0]), instrs.drop_first(), x);
    }
}

proof fn lemma_phase2_fold_snoc(st: AsmV, instrs: Seq<InstructionV>, x: InstructionV)
    ensures
        spec_phase2_fold(st, instrs.push(x)).0 == spec_phase2_step(
            spec_phase2_fold(st, instrs).0,
            x,
        ),
        spec_phase2_fold(st, instrs.push(x)).1 == spec_phase2_fold(st, instrs).1 + (
        if spec_is_opcode(x) {
            spec_instruction_bytes(x, spec_phase2_fold(st, instrs).0.symbols)
        } else {
            Seq::<u8>::empty()
        }),
    decreases instrs.len(),
{
    if instrs.len() == 0 {
        assert(instrs.push(x)[0] == x);
        assert(instrs.push(x).drop_first() =~= Seq::<InstructionV>::empty());
        assert(spec_phase2_fold(spec_phase2_step(st, x), Seq::<InstructionV>::empty())
            == (spec_phase2_step(st, x), Seq::<u8>::empty()));
        assert(spec_phase2_fold(st, instrs) == (st, Seq::<u8>::empty()));
        assert(spec_phase2_fold(st, instrs.push(x)).1 =~= spec_phase2_fold(st, instrs).1 + (
        if spec_is_opcode(x) {
            spec_instruction_bytes(x, spec_phase2_fold(st, instrs).0.symbols)
        } else {
            Seq::<u8>::empty()
        }));
    } else {
        assert(instrs.push(x)[0] == instrs[0]);
        assert(instrs.push(x).drop_first() =~= instrs.drop_first().push(x));
        lemma_phase2_fold_snoc(spec_phase2_step(st, instrs[0]), instrs.drop_first(), x);
        assert(spec_phase2_fold(st, instrs.push(x)).1 =~= spec_phase2_fold(st, instrs).1 + (
        if spec_is_opcode(x) {
            spec_instruction_bytes(x, spec_phase2_fold(st, instrs).0.symbols)
        } else {
            Seq::<u8>::empty()
        }));
    }
}

/// In phase two the symbol table and the phase no longer change, so the
/// emitted body is exactly the program encoding against the phase-one
/// symbol table.
pub proof fn lemma_phase2_bytes(st: AsmV, instrs: Seq<InstructionV>)
    requires
        st.phase == AssemblerPhase::Second,
    ensures
        spec_phase2_fold(st, instrs).1 == spec_program_bytes(instrs, st.symbols),
        spec_phase2_fold(st, instrs).0.symbols == st.symbols,
        spec_phase2_fold(st, instrs).0.phase == st.phase,
    decreases instrs.len(),
{
    if instrs.len() > 0 {
        let st1 = spec_phase2_step(st, instrs[0]);
        assert(st1.symbols == st.symbols && st1.phase == st.phase);
        lemma_phase2_bytes(st1, instrs.drop_first());
        assert(spec_phase2_fold(st, instrs).1 =~= spec_program_bytes(instrs, st.symbols));
    }
}

/// The two-pass assembler.  Single use: construct, call `assemble` once.
#[derive(Debug)]
pub struct Assembler {
    phase: AssemblerPhase,
    pub symbols: SymbolTable,
    pub ro: Vec<u8>,
    pub bytecode: Vec<u8>,
    ro_offset: u32,
    sections: Vec<AssemblerSection>,
    current_section: Option<AssemblerSection>,
    current_instruction: u32,
    pub errors: Vec<AssemblerError>,
}

impl View for Assembler {
    type V = AsmV;

    closed spec fn view(&self) -> AsmV {
        AsmV {
            phase: self.phase,
            symbols: self.symbols@,
            ro: self.ro@,
            bytecode: self.bytecode@,
            ro_offset: self.ro_offset,
            sections: self.sections@,
            current_section: self.current_section,
            current_instruction: self.current_instruction,
            errors: Seq::new(self.errors@.len(), |k: int| self.errors@[k]@),
        }
    }
}

impl Assembler {
    /// A fresh assembler, in phase one with everything empty.
    pub fn new() -> (r: Assembler)
        ensures
            r@ == spec_initial_asm(),
    {
        let r = Assembler {
            current_instruction: 0,
            ro_offset: 0,
            ro: Vec::new(),
            bytecode: Vec::new(),
            sections: Vec::new(),
            errors: Vec::new(),
            phase: AssemblerPhase::First,
            symbols: SymbolTable::new(),
            current_section: None,
        };
        proof {
            assert(r@.symbols =~= spec_initial_asm().symbols);
            assert(r@.errors =~= spec_initial_asm().errors);
            assert(r@.ro =~= spec_initial_asm().ro);
            assert(r@.bytecode =~= spec_initial_asm().bytecode);
            assert(r@.sections =~= spec_initial_asm().sections);
        }
        r
    }

    fn push_error(&mut self, e: AssemblerError)
        ensures
            final(self)@ == (AsmV { errors: old(self)@.errors.push(e@), ..old(self)@ }),
    {
        let ghost ev = e@;
        self.errors.push(e);
        proof {
            assert(self@.errors =~= old(self)@.errors.push(ev));
        }
    }

    /// Registers one label declaration in the symbol table.
    pub fn process_label_declaration(&mut self, i: &crate::parser::AssemblerInstruction)
        ensures
            final(self)@ == spec_process_label_declaration(old(self)@, i@),
    {
        let name = match i.get_label_name() {
            Some(name) => name,
            None => {
                let ci = self.current_instruction;
                self.push_error(
                    AssemblerError::StringConstantDeclaredWithoutLabel { instruction: ci },
                );
                return ;
            },
        };
        if self.symbols.has_symbol(name.as_str()) {
            self.push_error(AssemblerError::SymbolAlreadyDeclared);
            return ;
        }
        let symbol = Symbol::new(name, SymbolType::Label);
        self.symbols.add_symbol(symbol);
    }

    fn process_section_header(&mut self, header_name: &str)
        ensures
            final(self)@ == spec_process_section_header(old(self)@, header_name@),
    {
        let new_section = AssemblerSection::from_name(header_name);
        if matches!(new_section, AssemblerSection::Unknown) {
            return ;
        }
        self.sections.push(new_section);
        self.current_section = Some(new_section);
    }

    fn handle_asciiz(&mut self, i: &crate::parser::AssemblerInstruction)
        ensures
            final(self)@ == spec_handle_asciiz(old(self)@, i@),
    {
        if matches!(self.phase, AssemblerPhase::Second) {
            return ;
        }
        let s = match i.get_string_constant() {
            Some(s) => s,
            None => {
                return ;
            },
        };
        match i.get_label_name() {
            Some(name) => {
                let off = self.ro_offset;
                self.symbols.set_symbol_offset(name.as_str(), off);
            },
            None => {
                let ci = self.current_instruction;
                self.push_error(
                    AssemblerError::StringConstantDeclaredWithoutLabel { instruction: ci },
                );
                return ;
            },
        };
        let bytes = s.as_str().as_bytes_vec();
        let ghost pre = self@;
        let ghost off0 = self.ro_offset;
        let ghost ro0 = self.ro@;
        let mut k: usize = 0;
        proof {
            assert(off0 as int % 0x1_0000_0000 == off0 as int) by (nonlinear_arith)
                requires
                    0 <= off0 <= u32::MAX,
            ;
            assert(ro0 + bytes@.subrange(0, 0) =~= ro0);
        }
        while k < bytes.len()
            invariant
                k <= bytes@.len(),
                self@ == (AsmV {
                    ro: ro0 + bytes@.subrange(0, k as int),
                    ro_offset: w32(off0 + k),
                    ..pre
                }),
            decreases bytes@.len() - k,
        {
            proof {
                lemma_w32_step(off0 + k, self.ro_offset);
            }
            self.ro.push(bytes[k]);
            proof {
                assert(self.ro@ =~= ro0 + bytes@.subrange(0, k as int + 1));
            }
            self.ro_offset = self.ro_offset.wrapping_add(1);
            k += 1;
        }
        proof {
            lemma_w32_step(off0 + bytes@.len(), self.ro_offset);
        }
        self.ro.push(0);
        self.ro_offset = self.ro_offset.wrapping_add(1);
        proof {
            assert(bytes@.subrange(0, bytes@.len() as int) =~= bytes@);
            assert(ro0 + vstd::utf8::encode_utf8(spec_string_constant(i@)->0) + seq![0u8]
                =~= self@.ro);
        }
    }

    fn process_directive(&mut self, i: &crate::parser::AssemblerInstruction)
        ensures
            final(self)@ == spec_process_directive(old(self)@, i@),
    {
        let directive_name = match i.get_directive_name() {
            Some(name) => name,
            None => {
                return ;
            },
        };
        if i.has_operands() {
            if str_eq(directive_name.as_str(), "asciiz") {
                self.handle_asciiz(i);
            } else {
                self.push_error(
                    AssemblerError::UnknownDirectiveFound { directive: directive_name },
                );
            }
        } else {
            self.process_section_header(directive_name.as_str());
        }
    }

    /// Phase one: walks the instructions in source order, collecting
    /// symbols, sections, read-only data and errors; emits no bytecode.
    pub fn process_first_phase(&mut self, p: &Program)
        ensures
            final(self)@ == spec_phase1(old(self)@, p@),
    {
        let mut idx: usize = 0;
        proof {
            assert(p@.take(0) =~= Seq::<InstructionV>::empty());
        }
        while idx < p.instructions.len()
            invariant
                idx <= p.instructions.len(),
                self@ == spec_phase1_fold(old(self)@, p@.take(idx as int)),
            decreases p.instructions.len() - idx,
        {
            let ghost pre = self@;
            let i = &p.instructions[idx];
            if i.is_label() {
                if self.current_section.is_some() {
                    self.process_label_declaration(i);
                } else {
                    let ci = self.current_instruction;
                    self.push_error(AssemblerError::NoSegmentDeclarationFound { instruction: ci });
                }
            }
            if i.is_directive() {
                self.process_directive(i);
            }
            self.current_instruction = self.current_instruction.wrapping_add(1);
            proof {
                assert(self@ == spec_phase1_step(pre, p@[idx as int]));
                lemma_phase1_fold_snoc(old(self)@, p@.take(idx as int), p@[idx as int]);
                assert(p@.take(idx as int + 1) =~= p@.take(idx as int).push(p@[idx as int]));
            }
            idx += 1;
        }
        proof {
            assert(p@.take(p@.len() as int) =~= p@);
        }
        self.phase = AssemblerPhase::Second;
    }

    /// Phase two: walks the instructions again, encoding each opcode
    /// instruction to 4 bytes and re-dispatching directives.
    pub fn process_second_phase(&mut self, p: &Program) -> (r: Vec<u8>)
        ensures
            final(self)@ == spec_phase2(old(self)@, p@).0,
            r@ == spec_phase2(old(self)@, p@).1,
            old(self)@.phase == AssemblerPhase::Second ==> r@ == spec_program_bytes(
                p@,
                old(self)@.symbols,
            ),
    {
        proof {
            if self@.phase == AssemblerPhase::Second {
                lemma_phase2_bytes(
                    AsmV { current_instruction: 0, ..self@ },
                    p@,
                );
            }
        }
        self.current_instruction = 0;
        let ghost st0 = self@;
        let mut out: Vec<u8> = Vec::new();
        let mut idx: usize = 0;
        proof {
            assert(p@.take(0) =~= Seq::<InstructionV>::empty());
        }
        while idx < p.instructions.len()
            invariant
                idx <= p.instructions.len(),
                self@ == spec_phase2_fold(st0, p@.take(idx as int)).0,
                out@ == spec_phase2_fold(st0, p@.take(idx as int)).1,
            decreases p.instructions.len() - idx,
        {
            let ghost pre = self@;
            let ghost outpre = out@;
            let i = &p.instructions[idx];
            if i.is_opcode() {
                let mut bytes = i.to_bytes(&self.symbols);
                out.append(&mut bytes);
            }
            if i.is_directive() {
                self.process_directive(i);
            }
            self.current_instruction = self.current_instruction.wrapping_add(1);
            proof {
                assert(self@ == spec_phase2_step(pre, p@[idx as int]));
                assert(out@ == outpre + (if spec_is_opcode(p@[idx as int]) {
                    spec_instruction_bytes(p@[idx as int], pre.symbols)
                } else {
                    Seq::<u8>::empty()
                }));
                lemma_phase2_fold_snoc(st0, p@.take(idx as int), p@[idx as int]);
                assert(p@.take(idx as int + 1) =~= p@.take(idx as int).push(p@[idx as int]));
            }
            idx += 1;
        }
        proof {
            assert(p@.take(p@.len() as int) =~= p@);
        }
        out
    }

    fn write_pie_header(&self) -> (r: Vec<u8>)
        ensures
            r@ == spec_header(),
    {
        let mut header: Vec<u8> = Vec::new();
        header.push(45);
        header.push(50);
        header.push(49);
        header.push(45);
        while header.len() < PIE_HEADER_LENGTH
            invariant
                4 <= header@.len() <= 64,
                header@[0] == 45u8 && header@[1] == 50u8 && header@[2] == 49u8 && header@[3]
                    == 45u8,
                forall|k: int| 4 <= k < header@.len() ==> header@[k] == 0u8,
            decreases PIE_HEADER_LENGTH - header.len(),
        {
            header.push(0);
        }
        proof {
            assert(header@ =~= spec_header());
        }
        header
    }

    fn clone_errors(&self) -> (r: Vec<AssemblerError>)
        ensures
            r.deep_view() == self@.errors,
    {
        let mut out: Vec<AssemblerError> = Vec::new();
        let mut k: usize = 0;
        while k < self.errors.len()
            invariant
                k <= self.errors@.len(),
                out@.len() == k,
                forall|j: int| 0 <= j < k ==> out@[j]@ == self@.errors[j],
            decreases self.errors@.len() - k,
        {
            let e = self.errors[k].duplicate();
            let ghost ev = e@;
            out.push(e);
            proof {
                assert(out@[k as int]@ == ev);
            }
            k += 1;
        }
        proof {
            assert(out.deep_view() =~= self@.errors);
        }
        out
    }

    /// Assembles a source text into a binary image, or returns the errors
    /// collected.  On success the image is the 64-byte header followed by
    /// the phase-two bytecode; parse failure, any phase-one error and a
    /// section count other than two each yield `Err`, exactly as stated.
    pub fn assemble(&mut self, raw: &str) -> (r: Result<Vec<u8>, Vec<AssemblerError>>)
        requires
            old(self)@ == spec_initial_asm(),
        ensures
            match spec_parse_program(raw@) {
                None => {
                    &&& r matches Err(errs)
                    &&& errs.deep_view().len() == 1
                    &&& errs.deep_view()[0] is ParseError
                    &&& *final(self) == *old(self)
                },
                Some(instrs) => {
                    let st1 = spec_phase1(spec_initial_asm(), instrs);
                    if st1.errors.len() > 0 {
                        r matches Err(errs) && errs.deep_view() == st1.errors && final(self)@
                            == st1
                    } else if st1.sections.len() != 2 {
                        r matches Err(errs) && errs.deep_view() == st1.errors.push(
                            ErrorV::InsufficientSections,
                        ) && final(self)@ == (AsmV {
                            errors: st1.errors.push(ErrorV::InsufficientSections),
                            ..st1
                        })
                    } else {
                        r matches Ok(image) && image@ == spec_header() + spec_phase2(
                            st1,
                            instrs,
                        ).1 && final(self)@ == spec_phase2(st1, instrs).0
                    }
                },
            },
            r matches Ok(image) ==> image@.len() >= 64 && image@.subrange(0, 4) == seq![
                45u8,
                50u8,
                49u8,
                45u8,
            ] && (forall|k: int| 4 <= k < 64 ==> image@[k] == 0u8),
    {
        match program(raw) {
            Ok(p) => {
                let mut assembled = self.write_pie_header();
                self.process_first_phase(&p);
                if self.errors.len() > 0 {
                    return Err(self.clone_errors());
                }
                if self.sections.len() != 2 {
                    self.push_error(AssemblerError::InsufficientSections);
                    return Err(self.clone_errors());
                }
                let mut body = self.process_second_phase(&p);
                let ghost headerv = assembled@;
                let ghost bodyv = body@;
                assembled.append(&mut body);
                proof {
                    assert(assembled@ =~= headerv + bodyv);
                    assert(headerv + bodyv =~= spec_header() + bodyv);
                    assert(assembled@.subrange(0, 4) =~= seq![45u8, 50u8, 49u8, 45u8]);
                }
                Ok(assembled)
            },
            Err(e) => {
                let errs = vec![AssemblerError::ParseError { error: e }];
                proof {
                    assert(errs.deep_view().len() == 1);
                }
                Err(errs)
            },
        }
    }
}

} // verus!
