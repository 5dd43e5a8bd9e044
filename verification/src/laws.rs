//! Laws of the assembler and the machine, stated and proved over the models
//! the modules export: the width of every emitted instruction, the shape of
//! the image header, how the program counter moves, how many sections phase
//! one records, the meaning of the comparison opcodes, and the rejection of
//! duplicate labels.

use vstd::prelude::*;

use crate::assembler::AsmV;
use crate::assembler::AssemblerPhase;
use crate::assembler::lemma_phase2_bytes;
use crate::assembler::spec_header;
use crate::assembler::spec_initial_asm;
use crate::assembler::spec_phase1;
use crate::assembler::spec_phase1_fold;
use crate::assembler::spec_phase1_step;
use crate::assembler::spec_phase2;
use crate::assembler::spec_phase2_fold;
use crate::assembler::spec_phase2_step;
use crate::assembler::spec_process_directive;
use crate::assembler::spec_process_label_declaration;
use crate::assembler::spec_section_of_name;
use crate::assembler_errors::ErrorV;
use crate::instruction::Opcode;
use crate::instruction::opcode_of_byte;
use crate::instruction::opcode_of_mnemonic;
use crate::parser::InstructionV;
use crate::parser::TokenV;
use crate::parser::LineV;
use crate::parser::is_letter;
use crate::parser::spec_directive_name;
use crate::parser::spec_finish_line;
use crate::parser::spec_parse_line;
use crate::parser::spec_parse_lines;
use crate::parser::spec_parse_operand;
use crate::parser::spec_parse_program;
use crate::parser::spec_scan_letters;
use crate::parser::spec_scan_to_nl;
use crate::parser::spec_skip_ws;
use crate::parser::spec_has_operands;
use crate::parser::spec_instruction_bytes;
use crate::parser::spec_is_directive;
use crate::parser::spec_is_label;
use crate::parser::spec_is_opcode;
use crate::parser::spec_label_name;
use crate::parser::spec_operand_bytes;
use crate::parser::spec_program_bytes;
use crate::parser::spec_string_constant;
use crate::symbols::SymbolV;
use crate::symbols::spec_has_symbol;
use crate::symbols::spec_set_symbol_offset;
use crate::vm::VmV;
use crate::vm::spec_imm16;
use crate::vm::spec_step;
use crate::vm::spec_wf;

verus! {

// ---------------------------------------------------------------------------
// Encoding width
// ---------------------------------------------------------------------------

/// How many bytes one operand slot contributes, whatever the symbol table.
pub open spec fn spec_operand_width(t: Option<TokenV>) -> int {
    match t {
        Some(TokenV::Register { .. }) => 1,
        Some(TokenV::IntegerOperand { .. }) => 2,
        Some(TokenV::LabelUsage { .. }) => 2,
        _ => 0,
    }
}

/// An opcode instruction whose operands fit one 4-byte unit: the opcode
/// byte and at most three operand bytes.
pub open spec fn spec_well_formed_instruction(i: InstructionV) -> bool {
    &&& i.opcode matches Some(TokenV::Op { .. })
    &&& spec_operand_width(i.operand1) + spec_operand_width(i.operand2) + spec_operand_width(
        i.operand3,
    ) <= 3
}

/// The number of opcode instructions in a sequence.
pub open spec fn spec_opcode_count(instrs: Seq<InstructionV>) -> int
    decreases instrs.len(),
{
    if instrs.len() == 0 {
        0
    } else {
        (if spec_is_opcode(instrs[0]) {
            1int
        } else {
            0int
        }) + spec_opcode_count(instrs.drop_first())
    }
}

/// Encoding width: every well-formed opcode instruction encodes to exactly
/// 4 bytes, whatever the symbol table holds.
pub proof fn lemma_encoding_width(i: InstructionV, st: Seq<SymbolV>)
    requires
        spec_well_formed_instruction(i),
    ensures
        spec_instruction_bytes(i, st).len() == 4,
{
    assert(spec_operand_bytes(i.operand1, st).len() == spec_operand_width(i.operand1));
    assert(spec_operand_bytes(i.operand2, st).len() == spec_operand_width(i.operand2));
    assert(spec_operand_bytes(i.operand3, st).len() == spec_operand_width(i.operand3));
}

/// Encoding width over a whole program: the emitted body is exactly 4 bytes
/// per opcode instruction, so a successful image is `64 + 4 * count` bytes.
pub proof fn lemma_program_encoding_width(instrs: Seq<InstructionV>, st: Seq<SymbolV>)
    requires
        forall|j: int|
            0 <= j < instrs.len() && spec_is_opcode(#[trigger] instrs[j])
                ==> spec_well_formed_instruction(instrs[j]),
    ensures
        spec_program_bytes(instrs, st).len() == 4 * spec_opcode_count(instrs),
    decreases instrs.len(),
{
    if instrs.len() > 0 {
        if spec_is_opcode(instrs[0]) {
            lemma_encoding_width(instrs[0], st);
        } else {
            assert(spec_instruction_bytes(instrs[0], st) == Seq::<u8>::empty());
        }
        assert forall|j: int|
            0 <= j < instrs.drop_first().len() && spec_is_opcode(
                #[trigger] instrs.drop_first()[j],
            ) implies spec_well_formed_instruction(instrs.drop_first()[j]) by {
            assert(instrs.drop_first()[j] == instrs[j + 1]);
        }
        lemma_program_encoding_width(instrs.drop_first(), st);
    }
}

// ---------------------------------------------------------------------------
// Header shape
// ---------------------------------------------------------------------------

/// Header: the image header is exactly 64 bytes, opens with the magic
/// prefix, and is zero everywhere after it.
pub proof fn lemma_header_shape()
    ensures
        spec_header().len() == 64,
        spec_header().subrange(0, 4) == seq![45u8, 50u8, 49u8, 45u8],
        forall|k: int| 4 <= k < 64 ==> spec_header()[k] == 0u8,
{
    assert(spec_header().subrange(0, 4) =~= seq![45u8, 50u8, 49u8, 45u8]);
}

// ---------------------------------------------------------------------------
// Program counter movement
// ---------------------------------------------------------------------------

/// PC movement: a step that continues execution advances the program
/// counter by exactly 4 — every byte slot of the unit is consumed, even
/// unused ones — except that the jump opcodes set it as their semantics
/// say.
#[verifier::rlimit(60)]
pub proof fn lemma_pc_movement(v: VmV)
    requires
        spec_wf(v),
        !spec_step(v).1,
    ensures
        ({
            let op = opcode_of_byte(v.program[v.pc]);
            let pc2 = spec_step(v).0.pc;
            &&& (op != Opcode::JMP && op != Opcode::JMPF && op != Opcode::JMPB && op
                != Opcode::JMPE && op != Opcode::DJMPE) ==> pc2 == v.pc + 4
            &&& op == Opcode::JMP ==> pc2 == v.registers[v.program[v.pc + 1] as int]
            &&& op == Opcode::JMPF ==> pc2 == v.pc + 2 + v.registers[v.program[v.pc + 1] as int]
            &&& op == Opcode::JMPB ==> pc2 == v.pc + 2 - v.registers[v.program[v.pc + 1] as int]
            &&& op == Opcode::JMPE && v.equal_flag ==> pc2 == v.registers[v.program[v.pc
                + 1] as int]
            &&& op == Opcode::JMPE && !v.equal_flag ==> pc2 == v.pc + 4
            &&& op == Opcode::DJMPE && v.equal_flag ==> pc2 == spec_imm16(v.program, v.pc + 1)
                + 1
            &&& op == Opcode::DJMPE && !v.equal_flag ==> pc2 == v.pc + 4
        }),
{
}

// ---------------------------------------------------------------------------
// Comparison opcodes
// ---------------------------------------------------------------------------

/// Comparison flag: a comparison instruction with register operands in
/// range, on registers holding any pair `a`, `b`, continues execution with
/// the equal flag set to exactly the stated comparison of `a` and `b`, the
/// program counter advanced by 4, and everything else unchanged.
pub proof fn lemma_comparison_flag(v: VmV)
    requires
        spec_wf(v),
        0 <= v.pc && v.pc + 4 <= v.program.len(),
        ({
            let op = opcode_of_byte(v.program[v.pc]);
            op == Opcode::EQ || op == Opcode::NEQ || op == Opcode::GT || op == Opcode::LT || op
                == Opcode::GTE || op == Opcode::LTE
        }),
        v.program[v.pc + 1] < 32,
        v.program[v.pc + 2] < 32,
    ensures
        !spec_step(v).1,
        ({
            let op = opcode_of_byte(v.program[v.pc]);
            let a = v.registers[v.program[v.pc + 1] as int];
            let b = v.registers[v.program[v.pc + 2] as int];
            let flag = spec_step(v).0.equal_flag;
            &&& op == Opcode::EQ ==> flag == (a == b)
            &&& op == Opcode::NEQ ==> flag == (a != b)
            &&& op == Opcode::GT ==> flag == (a > b)
            &&& op == Opcode::LT ==> flag == (a < b)
            &&& op == Opcode::GTE ==> flag == (a >= b)
            &&& op == Opcode::LTE ==> flag == (a <= b)
        }),
        spec_step(v).0.pc == v.pc + 4,
        spec_step(v).0.registers == v.registers,
        spec_step(v).0.heap == v.heap,
        spec_step(v).0.program == v.program,
        spec_step(v).0.ro_data == v.ro_data,
        spec_step(v).0.output == v.output,
        spec_step(v).0.remainder == v.remainder,
{
}

// ---------------------------------------------------------------------------
// Section counting
// ---------------------------------------------------------------------------

/// A directive line that declares a recognized section.
pub open spec fn spec_is_section_header(i: InstructionV) -> bool {
    &&& spec_is_directive(i)
    &&& !spec_has_operands(i)
    &&& match spec_directive_name(i) {
        Some(n) => !(spec_section_of_name(n) is Unknown),
        None => false,
    }
}

/// The number of recognized section headers in a sequence.
pub open spec fn spec_section_header_count(instrs: Seq<InstructionV>) -> int
    decreases instrs.len(),
{
    if instrs.len() == 0 {
        0
    } else {
        (if spec_is_section_header(instrs[0]) {
            1int
        } else {
            0int
        }) + spec_section_header_count(instrs.drop_first())
    }
}

proof fn lemma_phase1_step_sections(st: AsmV, i: InstructionV)
    ensures
        spec_phase1_step(st, i).sections.len() == st.sections.len() + (
        if spec_is_section_header(i) {
            1int
        } else {
            0int
        }),
{
}

proof fn lemma_phase1_fold_sections(st: AsmV, instrs: Seq<InstructionV>)
    ensures
        spec_phase1_fold(st, instrs).sections.len() == st.sections.len()
            + spec_section_header_count(instrs),
    decreases instrs.len(),
{
    if instrs.len() > 0 {
        lemma_phase1_step_sections(st, instrs[0]);
        lemma_phase1_fold_sections(spec_phase1_step(st, instrs[0]), instrs.drop_first());
    }
}

/// Section requirement: phase one records exactly one stored section per
/// recognized section header, so a source with fewer (or more) than two
/// section headers fails the assembler's two-section check and is answered
/// with `InsufficientSections`.
pub proof fn lemma_section_requirement(st: AsmV, instrs: Seq<InstructionV>)
    ensures
        spec_phase1(st, instrs).sections.len() == st.sections.len() + spec_section_header_count(
            instrs,
        ),
{
    lemma_phase1_fold_sections(st, instrs);
}

// ---------------------------------------------------------------------------
// Symbol uniqueness
// ---------------------------------------------------------------------------

proof fn lemma_set_offset_names(st: Seq<SymbolV>, name: Seq<char>, offset: u32)
    ensures
        spec_set_symbol_offset(st, name, offset).len() == st.len(),
        forall|k: int|
            0 <= k < st.len() ==> spec_set_symbol_offset(st, name, offset)[k].name == st[k].name,
    decreases st.len(),
{
    if st.len() > 0 && st[0].name != name {
        lemma_set_offset_names(st.drop_first(), name, offset);
        assert forall|k: int|
            0 <= k < st.len() implies spec_set_symbol_offset(st, name, offset)[k].name
            == st[k].name by {
            if k > 0 {
                assert(spec_set_symbol_offset(st, name, offset)[k] == spec_set_symbol_offset(
                    st.drop_first(),
                    name,
                    offset,
                )[k - 1]);
                assert(st.drop_first()[k - 1] == st[k]);
            }
        }
    }
}

/// The monotone part of what one state change leaves alone: errors and
/// symbol names already present stay, at the same indices, and a current
/// section stays current.
spec fn asm_grows(st: AsmV, st2: AsmV) -> bool {
    &&& st2.errors.len() >= st.errors.len()
    &&& (forall|k: int| 0 <= k < st.errors.len() ==> st2.errors[k] == st.errors[k])
    &&& st2.symbols.len() >= st.symbols.len()
    &&& (forall|k: int| 0 <= k < st.symbols.len() ==> st2.symbols[k].name == st.symbols[k].name)
    &&& (st.current_section is Some ==> st2.current_section is Some)
}

proof fn lemma_process_directive_grows(st: AsmV, i: InstructionV)
    ensures
        asm_grows(st, spec_process_directive(st, i)),
{
    match spec_directive_name(i) {
        Some(name) => {
            if spec_has_operands(i) && name == "asciiz"@ && st.phase == AssemblerPhase::First {
                match spec_string_constant(i) {
                    Some(s) => {
                        match spec_label_name(i) {
                            Some(ln) => {
                                lemma_set_offset_names(st.symbols, ln, st.ro_offset);
                            },
                            None => {},
                        }
                    },
                    None => {},
                }
            }
        },
        None => {},
    }
}

proof fn lemma_phase1_step_grows(st: AsmV, i: InstructionV)
    ensures
        asm_grows(st, spec_phase1_step(st, i)),
{
    let st1 = if spec_is_label(i) {
        if st.current_section is Some {
            spec_process_label_declaration(st, i)
        } else {
            AsmV {
                errors: st.errors.push(
                    ErrorV::NoSegmentDeclarationFound { instruction: st.current_instruction },
                ),
                ..st
            }
        }
    } else {
        st
    };
    assert(asm_grows(st, st1));
    if spec_is_directive(i) {
        lemma_process_directive_grows(st1, i);
    }
}

proof fn lemma_phase1_fold_grows(st: AsmV, instrs: Seq<InstructionV>)
    ensures
        asm_grows(st, spec_phase1_fold(st, instrs)),
    decreases instrs.len(),
{
    if instrs.len() > 0 {
        lemma_phase1_step_grows(st, instrs[0]);
        lemma_phase1_fold_grows(spec_phase1_step(st, instrs[0]), instrs.drop_first());
    }
}

proof fn lemma_phase1_fold_concat(st: AsmV, s1: Seq<InstructionV>, s2: Seq<InstructionV>)
    ensures
        spec_phase1_fold(st, s1 + s2) == spec_phase1_fold(spec_phase1_fold(st, s1), s2),
    decreases s1.len(),
{
    if s1.len() == 0 {
        assert(s1 + s2 =~= s2);
    } else {
        assert((s1 + s2)[0] == s1[0]);
        assert((s1 + s2).drop_first() =~= s1.drop_first() + s2);
        lemma_phase1_fold_concat(spec_phase1_step(st, s1[0]), s1.drop_first(), s2);
    }
}

proof fn lemma_phase1_fold_one(st: AsmV, i: InstructionV)
    ensures
        spec_phase1_fold(st, seq![i]) == spec_phase1_step(st, i),
{
    assert(seq![i].drop_first() =~= Seq::<InstructionV>::empty());
    assert(spec_phase1_fold(spec_phase1_step(st, i), Seq::<InstructionV>::empty())
        == spec_phase1_step(st, i));
}

/// After processing a label declaration under a current section, the name
/// stands in the symbol table.
proof fn lemma_label_step_registers(st: AsmV, i: InstructionV, name: Seq<char>)
    requires
        st.current_section is Some,
        spec_label_name(i) == Some(name),
    ensures
        spec_has_symbol(spec_phase1_step(st, i).symbols, name),
{
    assert(spec_is_label(i));
    let st1 = spec_process_label_declaration(st, i);
    if spec_has_symbol(st.symbols, name) {
        assert(st1.symbols == st.symbols);
    } else {
        assert(st1.symbols[st.symbols.len() as int].name == name);
    }
    assert(spec_has_symbol(st1.symbols, name));
    let k = choose|k: int| 0 <= k < st1.symbols.len() && st1.symbols[k].name == name;
    if spec_is_directive(i) {
        lemma_process_directive_grows(st1, i);
    }
    assert(spec_phase1_step(st, i).symbols[k].name == name);
}

/// Processing a label declaration whose name is already in the table, under
/// a current section, records `SymbolAlreadyDeclared`.
proof fn lemma_label_step_duplicate(st: AsmV, i: InstructionV, name: Seq<char>)
    requires
        st.current_section is Some,
        spec_label_name(i) == Some(name),
        spec_has_symbol(st.symbols, name),
    ensures
        spec_phase1_step(st, i).errors.contains(ErrorV::SymbolAlreadyDeclared),
{
    assert(spec_is_label(i));
    let st1 = spec_process_label_declaration(st, i);
    assert(st1.errors == st.errors.push(ErrorV::SymbolAlreadyDeclared));
    assert(st1.errors[st.errors.len() as int] == ErrorV::SymbolAlreadyDeclared);
    assert(st1.errors.contains(ErrorV::SymbolAlreadyDeclared));
    let k = choose|k: int|
        0 <= k < st1.errors.len() && st1.errors[k] == ErrorV::SymbolAlreadyDeclared;
    if spec_is_directive(i) {
        lemma_process_directive_grows(st1, i);
    }
    assert(spec_phase1_step(st, i).errors[k] == ErrorV::SymbolAlreadyDeclared);
}

/// Symbol uniqueness: when two instructions declare the same label name,
/// and a section is current by the time the first is reached (so that
/// labels are being registered at all), phase one reports
/// `SymbolAlreadyDeclared`.
pub proof fn lemma_symbol_uniqueness(
    st: AsmV,
    instrs: Seq<InstructionV>,
    a: int,
    b: int,
    name: Seq<char>,
)
    requires
        0 <= a < b < instrs.len(),
        spec_label_name(instrs[a]) == Some(name),
        spec_label_name(instrs[b]) == Some(name),
        spec_phase1_fold(st, instrs.take(a)).current_section is Some,
    ensures
        spec_phase1(st, instrs).errors.contains(ErrorV::SymbolAlreadyDeclared),
{
    let sta = spec_phase1_fold(st, instrs.take(a));
    let sta1 = spec_phase1_step(sta, instrs[a]);
    lemma_label_step_registers(sta, instrs[a], name);
    lemma_phase1_step_grows(sta, instrs[a]);
    // Walk from just after `a` to just before `b`.
    let mid = instrs.subrange(a + 1, b);
    lemma_phase1_fold_concat(st, instrs.take(a), seq![instrs[a]] + mid);
    lemma_phase1_fold_concat(sta, seq![instrs[a]], mid);
    lemma_phase1_fold_one(sta, instrs[a]);
    assert(instrs.take(b) =~= instrs.take(a) + (seq![instrs[a]] + mid));
    let stb = spec_phase1_fold(sta1, mid);
    assert(stb == spec_phase1_fold(st, instrs.take(b)));
    lemma_phase1_fold_grows(sta1, mid);
    // The name is still in the table, and a section is still current.
    let k = choose|k: int| 0 <= k < sta1.symbols.len() && sta1.symbols[k].name == name;
    assert(stb.symbols[k].name == name);
    assert(spec_has_symbol(stb.symbols, name));
    // The duplicate declaration at `b` is reported.
    lemma_label_step_duplicate(stb, instrs[b], name);
    let stb1 = spec_phase1_step(stb, instrs[b]);
    // And the report survives to the end of the phase.
    let rest = instrs.subrange(b + 1, instrs.len() as int);
    lemma_phase1_fold_concat(st, instrs.take(b), seq![instrs[b]] + rest);
    lemma_phase1_fold_concat(stb, seq![instrs[b]], rest);
    lemma_phase1_fold_one(stb, instrs[b]);
    assert(instrs =~= instrs.take(b) + (seq![instrs[b]] + rest));
    assert(spec_phase1_fold(st, instrs) == spec_phase1_fold(stb1, rest));
    lemma_phase1_fold_grows(stb1, rest);
    let m = choose|m: int|
        0 <= m < stb1.errors.len() && stb1.errors[m] == ErrorV::SymbolAlreadyDeclared;
    assert(spec_phase1_fold(st, instrs).errors[m] == ErrorV::SymbolAlreadyDeclared);
}

// ---------------------------------------------------------------------------
// Phase two emits the program encoding
// ---------------------------------------------------------------------------

/// Encoding width at the image level: a successful assembly of a program
/// whose opcode instructions are all well formed is exactly the 64 header
/// bytes plus 4 bytes per opcode instruction.
pub proof fn lemma_image_length(st1: AsmV, instrs: Seq<InstructionV>)
    requires
        st1.phase == AssemblerPhase::Second,
        forall|j: int|
            0 <= j < instrs.len() && spec_is_opcode(#[trigger] instrs[j])
                ==> spec_well_formed_instruction(instrs[j]),
    ensures
        (spec_header() + spec_phase2(st1, instrs).1).len() == 64 + 4 * spec_opcode_count(instrs),
{
    lemma_phase2_bytes(AsmV { current_instruction: 0, ..st1 }, instrs);
    lemma_program_encoding_width(instrs, st1.symbols);
    lemma_header_shape();
}

/// The same, phrased against `assemble`'s own contract: when a source
/// parses to `instrs` and `assemble` succeeds, its ensures gives the image
/// as `spec_header() + spec_phase2(spec_phase1(spec_initial_asm(), instrs),
/// instrs).1`, and with every opcode instruction well formed that image is
/// exactly `64 + 4 * count` bytes.  The width hypothesis is needed: a
/// parseable line with operands wider than the unit (three 2-byte
/// operands, say) emits more than 4 bytes.
pub proof fn lemma_assemble_image_length(instrs: Seq<InstructionV>)
    requires
        forall|j: int|
            0 <= j < instrs.len() && spec_is_opcode(#[trigger] instrs[j])
                ==> spec_well_formed_instruction(instrs[j]),
    ensures
        (spec_header() + spec_phase2(spec_phase1(spec_initial_asm(), instrs), instrs).1).len()
            == 64 + 4 * spec_opcode_count(instrs),
{
    lemma_image_length(spec_phase1(spec_initial_asm(), instrs), instrs);
}

// ---------------------------------------------------------------------------
// What shapes the grammar can produce
// ---------------------------------------------------------------------------

/// An operand slot as the grammar fills it: empty, or one of the four
/// operand token kinds.
pub open spec fn spec_operand_slot_ok(t: Option<TokenV>) -> bool {
    match t {
        None => true,
        Some(tok) => tok is Register || tok is IntegerOperand || tok is LabelUsage
            || tok is IrString,
    }
}

/// An instruction record as the grammar builds it: the opcode slot holds an
/// opcode token, the label slot a label declaration, the directive slot a
/// directive name, every operand slot an operand token, and exactly one of
/// opcode and directive is present.
pub open spec fn spec_instruction_shape_ok(i: InstructionV) -> bool {
    &&& match i.opcode {
        None => true,
        Some(t) => t is Op,
    }
    &&& match i.label {
        None => true,
        Some(t) => t is LabelDeclaration,
    }
    &&& match i.directive {
        None => true,
        Some(t) => t is Directive,
    }
    &&& spec_operand_slot_ok(i.operand1)
    &&& spec_operand_slot_ok(i.operand2)
    &&& spec_operand_slot_ok(i.operand3)
    &&& (spec_is_opcode(i) <==> !spec_is_directive(i))
}

proof fn lemma_operand_token_shape(l: Seq<char>, i: int)
    ensures
        spec_parse_operand(l, i) matches Some((t, _)) ==> (t is Register || t is IntegerOperand
            || t is LabelUsage || t is IrString),
{
}

proof fn lemma_finish_line_shape(
    l: Seq<char>,
    i: int,
    label: Option<TokenV>,
    opcode: Option<TokenV>,
    directive: Option<TokenV>,
)
    requires
        match label {
            None => true,
            Some(t) => t is LabelDeclaration,
        },
        match opcode {
            None => true,
            Some(t) => t is Op,
        },
        match directive {
            None => true,
            Some(t) => t is Directive,
        },
        opcode is Some <==> directive is None,
    ensures
        spec_finish_line(l, i, label, opcode, directive) matches LineV::Ins { ins }
            ==> spec_instruction_shape_ok(ins),
{
    let p1 = spec_skip_ws(l, i);
    lemma_operand_token_shape(l, p1);
    match spec_parse_operand(l, p1) {
        None => {},
        Some((t1, q1)) => {
            let p2 = spec_skip_ws(l, q1);
            lemma_operand_token_shape(l, p2);
            match spec_parse_operand(l, p2) {
                None => {},
                Some((t2, q2)) => {
                    let p3 = spec_skip_ws(l, q2);
                    lemma_operand_token_shape(l, p3);
                },
            }
        },
    }
}

proof fn lemma_parse_line_shape(l: Seq<char>)
    ensures
        spec_parse_line(l) matches LineV::Ins { ins } ==> spec_instruction_shape_ok(ins),
{
    let i0 = spec_skip_ws(l, 0);
    if i0 < l.len() {
        let e0 = spec_scan_letters(l, i0);
        let has_label = is_letter(l[i0]) && e0 < l.len() && l[e0] == ':';
        let label = if has_label {
            Some(TokenV::LabelDeclaration { name: l.subrange(i0, e0) })
        } else {
            None
        };
        let j = if has_label {
            spec_skip_ws(l, e0 + 1)
        } else {
            i0
        };
        if j < l.len() {
            if l[j] == '.' {
                if j + 1 < l.len() && is_letter(l[j + 1]) {
                    let e = spec_scan_letters(l, j + 1);
                    lemma_finish_line_shape(
                        l,
                        e,
                        label,
                        None,
                        Some(TokenV::Directive { name: l.subrange(j + 1, e) }),
                    );
                }
            } else if is_letter(l[j]) {
                let e = spec_scan_letters(l, j);
                lemma_finish_line_shape(
                    l,
                    e,
                    label,
                    Some(TokenV::Op { code: opcode_of_mnemonic(l.subrange(j, e)) }),
                    None,
                );
            }
        }
    }
}

proof fn lemma_parse_lines_shape(s: Seq<char>)
    ensures
        spec_parse_lines(s) matches Some(instrs) ==> forall|j: int|
            0 <= j < instrs.len() ==> spec_instruction_shape_ok(#[trigger] instrs[j]),
    decreases s.len(),
{
    if s.len() > 0 {
        let e0 = spec_scan_to_nl(s, 0);
        let e = if e0 < 0 {
            0
        } else if e0 > s.len() {
            s.len() as int
        } else {
            e0
        };
        lemma_parse_line_shape(s.subrange(0, e));
        if e < s.len() {
            lemma_parse_lines_shape(s.subrange(e + 1, s.len() as int));
        }
    }
}

/// Grammar shape: every instruction a successful parse yields carries
/// exactly one of opcode and directive, an opcode token in the opcode slot,
/// a label declaration in the label slot, a directive name in the directive
/// slot, and operand tokens in the operand slots.
pub proof fn lemma_parsed_program_shape(s: Seq<char>)
    ensures
        spec_parse_program(s) matches Some(instrs) ==> forall|j: int|
            0 <= j < instrs.len() ==> spec_instruction_shape_ok(#[trigger] instrs[j]),
{
    lemma_parse_lines_shape(s);
}

} // verus!

