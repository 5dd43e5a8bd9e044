//! The assembly language front end: tokens, instruction records, the
//! recursive-descent parser for the line-oriented grammar, and the encoding
//! of parsed instructions into 4-byte units.
//!
//! Grammar, one instruction per line:
//!
//! ```text
//! instruction := (label_decl)? (opcode operand{0..3} | directive operand{0..3})
//! label_decl  := identifier ":"
//! directive   := "." identifier
//! operand     := "$" digits | "#" digits | "@" identifier | "'" text "'"
//! ```
//!
//! Whitespace between tokens is insignificant; a newline ends an instruction;
//! blank lines are skipped.  The parser returns the full program or fails as
//! a whole.

use vstd::prelude::*;

use crate::instruction::Opcode;
use crate::instruction::byte_of_opcode;
use crate::instruction::opcode_of_mnemonic;
use crate::symbols::SymbolTable;
use crate::symbols::SymbolV;
use crate::symbols::spec_symbol_value;
use crate::text::str_to_chars;

verus! {

/// One lexical token of the assembly language.
#[derive(Debug)]
pub enum Token {
    Op { code: Opcode },
    Register { reg_num: u8 },
    IntegerOperand { value: i32 },
    LabelDeclaration { name: String },
    LabelUsage { name: String },
    Directive { name: String },
    IrString { name: String },
}

/// The mathematical image of one token.
pub ghost enum TokenV {
    Op { code: Opcode },
    Register { reg_num: u8 },
    IntegerOperand { value: i32 },
    LabelDeclaration { name: Seq<char> },
    LabelUsage { name: Seq<char> },
    Directive { name: Seq<char> },
    IrString { name: Seq<char> },
}

impl View for Token {
    type V = TokenV;

    open spec fn view(&self) -> TokenV {
        match self {
            Token::Op { code } => TokenV::Op { code: *code },
            Token::Register { reg_num } => TokenV::Register { reg_num: *reg_num },
            Token::IntegerOperand { value } => TokenV::IntegerOperand { value: *value },
            Token::LabelDeclaration { name } => TokenV::LabelDeclaration { name: name@ },
            Token::LabelUsage { name } => TokenV::LabelUsage { name: name@ },
            Token::Directive { name } => TokenV::Directive { name: name@ },
            Token::IrString { name } => TokenV::IrString { name: name@ },
        }
    }
}

impl PartialEq for Token {
    fn eq(&self, other: &Token) -> (r: bool) {
        match (self, other) {
            (Token::Op { code: a }, Token::Op { code: b }) => *a == *b,
            (Token::Register { reg_num: a }, Token::Register { reg_num: b }) => *a == *b,
            (Token::IntegerOperand { value: a }, Token::IntegerOperand { value: b }) => *a == *b,
            (Token::LabelDeclaration { name: a }, Token::LabelDeclaration { name: b }) => *a == *b,
            (Token::LabelUsage { name: a }, Token::LabelUsage { name: b }) => *a == *b,
            (Token::Directive { name: a }, Token::Directive { name: b }) => *a == *b,
            (Token::IrString { name: a }, Token::IrString { name: b }) => *a == *b,
            _ => false,
        }
    }
}

impl vstd::std_specs::cmp::PartialEqSpecImpl for Token {
    open spec fn obeys_eq_spec() -> bool {
        true
    }

    open spec fn eq_spec(&self, other: &Token) -> bool {
        self@ == other@
    }
}

/// The view of an optional token.
pub open spec fn opt_token_view(t: &Option<Token>) -> Option<TokenV> {
    match t {
        Some(tok) => Some(tok@),
        None => None,
    }
}

/// One line of source: exactly one of `{opcode, directive}` is present, an
/// optional owning label, and up to three operand tokens.
#[derive(Debug)]
pub struct AssemblerInstruction {
    pub opcode: Option<Token>,
    pub label: Option<Token>,
    pub directive: Option<Token>,
    pub operand1: Option<Token>,
    pub operand2: Option<Token>,
    pub operand3: Option<Token>,
}

/// The mathematical image of one instruction record.
pub ghost struct InstructionV {
    pub opcode: Option<TokenV>,
    pub label: Option<TokenV>,
    pub directive: Option<TokenV>,
    pub operand1: Option<TokenV>,
    pub operand2: Option<TokenV>,
    pub operand3: Option<TokenV>,
}

impl View for AssemblerInstruction {
    type V = InstructionV;

    open spec fn view(&self) -> InstructionV {
        InstructionV {
            opcode: opt_token_view(&self.opcode),
            label: opt_token_view(&self.label),
            directive: opt_token_view(&self.directive),
            operand1: opt_token_view(&self.operand1),
            operand2: opt_token_view(&self.operand2),
            operand3: opt_token_view(&self.operand3),
        }
    }
}

/// Whether the instruction carries a label declaration.
pub open spec fn spec_is_label(i: InstructionV) -> bool {
    i.label is Some
}

/// Whether the instruction carries an opcode.
pub open spec fn spec_is_opcode(i: InstructionV) -> bool {
    i.opcode is Some
}

/// Whether the instruction carries a directive.
pub open spec fn spec_is_directive(i: InstructionV) -> bool {
    i.directive is Some
}

/// Whether any operand slot is filled.
pub open spec fn spec_has_operands(i: InstructionV) -> bool {
    i.operand1 is Some || i.operand2 is Some || i.operand3 is Some
}

/// The name of the instruction's label declaration, if it has one.
pub open spec fn spec_label_name(i: InstructionV) -> Option<Seq<char>> {
    match i.label {
        Some(TokenV::LabelDeclaration { name }) => Some(name),
        _ => None,
    }
}

/// The name of the instruction's directive, if it has one.
pub open spec fn spec_directive_name(i: InstructionV) -> Option<Seq<char>> {
    match i.directive {
        Some(TokenV::Directive { name }) => Some(name),
        _ => None,
    }
}

/// The string constant in the first operand slot, if there is one.
pub open spec fn spec_string_constant(i: InstructionV) -> Option<Seq<char>> {
    match i.operand1 {
        Some(TokenV::IrString { name }) => Some(name),
        _ => None,
    }
}

impl AssemblerInstruction {
    /// Whether the instruction carries a label declaration.
    pub fn is_label(&self) -> (r: bool)
        ensures
            r == spec_is_label(self@),
    {
        self.label.is_some()
    }

    /// Whether the instruction carries an opcode.
    pub fn is_opcode(&self) -> (r: bool)
        ensures
            r == spec_is_opcode(self@),
    {
        self.opcode.is_some()
    }

    /// Whether the instruction carries a directive.
    pub fn is_directive(&self) -> (r: bool)
        ensures
            r == spec_is_directive(self@),
    {
        self.directive.is_some()
    }

    /// Whether any operand slot is filled.
    pub fn has_operands(&self) -> (r: bool)
        ensures
            r == spec_has_operands(self@),
    {
        self.operand1.is_some() || self.operand2.is_some() || self.operand3.is_some()
    }

    /// The name of the instruction's label declaration, if it has one.
    pub fn get_label_name(&self) -> (r: Option<String>)
        ensures
            match (r, spec_label_name(self@)) {
                (Some(s), Some(n)) => s@ == n,
                (None, None) => true,
                _ => false,
            },
    {
        match &self.label {
            Some(Token::LabelDeclaration { name }) => Some(name.clone()),
            _ => None,
        }
    }

    /// The name of the instruction's directive, if it has one.
    pub fn get_directive_name(&self) -> (r: Option<String>)
        ensures
            match (r, spec_directive_name(self@)) {
                (Some(s), Some(n)) => s@ == n,
                (None, None) => true,
                _ => false,
            },
    {
        match &self.directive {
            Some(Token::Directive { name }) => Some(name.clone()),
            _ => None,
        }
    }

    /// The string constant in the first operand slot, if there is one.
    pub fn get_string_constant(&self) -> (r: Option<String>)
        ensures
            match (r, spec_string_constant(self@)) {
                (Some(s), Some(n)) => s@ == n,
                (None, None) => true,
                _ => false,
            },
    {
        match &self.operand1 {
            Some(Token::IrString { name }) => Some(name.clone()),
            _ => None,
        }
    }
}

/// The bytes one operand slot contributes: a register is one byte, an
/// integer is the big-endian truncation to 16 bits, a label usage is the
/// big-endian low 16 bits of the symbol's offset (zero when the symbol is
/// absent or unresolved); an empty or other slot contributes nothing.
pub open spec fn spec_operand_bytes(t: Option<TokenV>, st: Seq<SymbolV>) -> Seq<u8> {
    match t {
        Some(TokenV::Register { reg_num }) => seq![reg_num],
        Some(TokenV::IntegerOperand { value }) => {
            let w = value as u16;
            seq![(w >> 8u16) as u8, w as u8]
        },
        Some(TokenV::LabelUsage { name }) => {
            let off = match spec_symbol_value(st, name) {
                Some(o) => o,
                None => 0u32,
            };
            seq![(off >> 8u32) as u8, off as u8]
        },
        _ => Seq::empty(),
    }
}

/// Zero-pads a byte unit on the right up to 4 bytes.
pub open spec fn spec_pad4(s: Seq<u8>) -> Seq<u8> {
    if s.len() >= 4 {
        s
    } else {
        s + Seq::new((4 - s.len()) as nat, |i: int| 0u8)
    }
}

/// The bytes one instruction encodes to: the opcode byte, the operand bytes
/// in order, padded with zeros to at least 4 bytes.  An instruction without
/// an opcode encodes to nothing.
pub open spec fn spec_instruction_bytes(i: InstructionV, st: Seq<SymbolV>) -> Seq<u8> {
    match i.opcode {
        Some(TokenV::Op { code }) => spec_pad4(
            seq![byte_of_opcode(code)] + spec_operand_bytes(i.operand1, st) + spec_operand_bytes(
                i.operand2,
                st,
            ) + spec_operand_bytes(i.operand3, st),
        ),
        _ => Seq::empty(),
    }
}

/// The concatenation of the encodings of all instructions, in order.
pub open spec fn spec_program_bytes(instrs: Seq<InstructionV>, st: Seq<SymbolV>) -> Seq<u8>
    decreases instrs.len(),
{
    if instrs.len() == 0 {
        Seq::empty()
    } else {
        spec_instruction_bytes(instrs[0], st) + spec_program_bytes(instrs.drop_first(), st)
    }
}

pub proof fn lemma_program_bytes_snoc(instrs: Seq<InstructionV>, x: InstructionV, st: Seq<SymbolV>)
    ensures
        spec_program_bytes(instrs.push(x), st) == spec_program_bytes(instrs, st)
            + spec_instruction_bytes(x, st),
    decreases instrs.len(),
{
    if instrs.len() == 0 {
        assert(instrs.push(x)[0] == x);
        assert(instrs.push(x).drop_first() =~= Seq::<InstructionV>::empty());
        assert(spec_program_bytes(Seq::<InstructionV>::empty(), st) == Seq::<u8>::empty());
        assert(spec_program_bytes(instrs.push(x), st) == spec_instruction_bytes(x, st)
            + Seq::<u8>::empty());
        assert(spec_instruction_bytes(x, st) + Seq::<u8>::empty() =~= spec_instruction_bytes(
            x,
            st,
        ));
        assert(spec_program_bytes(instrs, st) + spec_instruction_bytes(x, st)
            =~= spec_instruction_bytes(x, st));
    } else {
        assert(instrs.push(x).drop_first() =~= instrs.drop_first().push(x));
        lemma_program_bytes_snoc(instrs.drop_first(), x, st);
        assert(spec_program_bytes(instrs.push(x), st) =~= spec_program_bytes(instrs, st)
            + spec_instruction_bytes(x, st));
    }
}

fn push_operand_bytes(out: &mut Vec<u8>, t: &Option<Token>, symbols: &SymbolTable)
    ensures
        final(out)@ == old(out)@ + spec_operand_bytes(opt_token_view(t), symbols@),
{
    match t {
        Some(Token::Register { reg_num }) => {
            out.push(*reg_num);
            proof {
                assert(out@ =~= old(out)@ + spec_operand_bytes(opt_token_view(t), symbols@));
            }
        },
        Some(Token::IntegerOperand { value }) => {
            #[verifier::truncate]
            let w: u16 = *value as u16;
            out.push((w >> 8u16) as u8);
            #[verifier::truncate]
            let lo: u8 = w as u8;
            out.push(lo);
            proof {
                assert(out@ =~= old(out)@ + spec_operand_bytes(opt_token_view(t), symbols@));
            }
        },
        Some(Token::LabelUsage { name }) => {
            let off: u32 = match symbols.symbol_value(name.as_str()) {
                Some(o) => o,
                None => 0,
            };
            #[verifier::truncate]
            let hi: u8 = (off >> 8u32) as u8;
            out.push(hi);
            #[verifier::truncate]
            let lo: u8 = off as u8;
            out.push(lo);
            proof {
                assert(out@ =~= old(out)@ + spec_operand_bytes(opt_token_view(t), symbols@));
            }
        },
        _ => {
            proof {
                assert(out@ =~= old(out)@ + spec_operand_bytes(opt_token_view(t), symbols@));
            }
        },
    }
}

impl AssemblerInstruction {
    /// Encodes this instruction, resolving label usages through the symbol
    /// table.  An instruction without an opcode encodes to nothing.
    pub fn to_bytes(&self, symbols: &SymbolTable) -> (r: Vec<u8>)
        ensures
            r@ == spec_instruction_bytes(self@, symbols@),
    {
        let mut out: Vec<u8> = Vec::new();
        match &self.opcode {
            Some(Token::Op { code }) => {
                out.push(code.to_byte());
            },
            _ => {
                proof {
                    assert(out@ =~= spec_instruction_bytes(self@, symbols@));
                }
                return out;
            },
        }
        push_operand_bytes(&mut out, &self.operand1, symbols);
        push_operand_bytes(&mut out, &self.operand2, symbols);
        push_operand_bytes(&mut out, &self.operand3, symbols);
        let ghost unpadded = out@;
        proof {
            assert(unpadded =~= seq![byte_of_opcode(self@.opcode->0->code)] + spec_operand_bytes(
                self@.operand1,
                symbols@,
            ) + spec_operand_bytes(self@.operand2, symbols@) + spec_operand_bytes(
                self@.operand3,
                symbols@,
            ));
        }
        while out.len() < 4
            invariant
                unpadded.len() >= 1,
                out@.len() >= unpadded.len(),
                out@.subrange(0, unpadded.len() as int) == unpadded,
                forall|k: int| unpadded.len() <= k < out@.len() ==> out@[k] == 0u8,
                out@.len() <= 4 || out@ == unpadded,
            decreases 4 - out.len(),
        {
            out.push(0);
            proof {
                assert(out@.subrange(0, unpadded.len() as int) =~= unpadded);
            }
        }
        proof {
            assert(out@ =~= spec_pad4(unpadded));
        }
        out
    }
}

/// An ordered sequence of instruction records, preserving source order.
#[derive(Debug)]
pub struct Program {
    pub instructions: Vec<AssemblerInstruction>,
}

impl View for Program {
    type V = Seq<InstructionV>;

    open spec fn view(&self) -> Seq<InstructionV> {
        Seq::new(self.instructions@.len(), |i: int| self.instructions@[i]@)
    }
}

impl Program {
    /// Encodes every instruction in order, resolving label usages through
    /// the symbol table.
    pub fn to_bytes(&self, symbols: &SymbolTable) -> (r: Vec<u8>)
        ensures
            r@ == spec_program_bytes(self@, symbols@),
    {
        let mut out: Vec<u8> = Vec::new();
        let mut i: usize = 0;
        proof {
            assert(self@.take(0) =~= Seq::<InstructionV>::empty());
        }
        while i < self.instructions.len()
            invariant
                i <= self.instructions.len(),
                out@ == spec_program_bytes(self@.take(i as int), symbols@),
            decreases self.instructions.len() - i,
        {
            let mut bytes = self.instructions[i].to_bytes(symbols);
            out.append(&mut bytes);
            proof {
                lemma_program_bytes_snoc(self@.take(i as int), self@[i as int], symbols@);
                assert(self@.take(i + 1) =~= self@.take(i as int).push(self@[i as int]));
            }
            i += 1;
        }
        proof {
            assert(self@.take(self@.len() as int) =~= self@);
        }
        out
    }
}

// ---------------------------------------------------------------------------
// The grammar, stated over sequences of characters.
// ---------------------------------------------------------------------------

/// Insignificant whitespace inside a line.
pub open spec fn is_space(c: char) -> bool {
    c == ' ' || c == '\t' || c == '\r'
}

/// The characters an identifier is made of.
pub open spec fn is_letter(c: char) -> bool {
    ('a' as u32) <= (c as u32) <= ('z' as u32) || ('A' as u32) <= (c as u32) <= ('Z' as u32)
}

/// A decimal digit.
pub open spec fn is_digit(c: char) -> bool {
    ('0' as u32) <= (c as u32) <= ('9' as u32)
}

/// The first position at or after `i` holding no whitespace.
pub open spec fn spec_skip_ws(l: Seq<char>, i: int) -> int
    decreases l.len() - i,
{
    if 0 <= i < l.len() && is_space(l[i]) {
        spec_skip_ws(l, i + 1)
    } else {
        i
    }
}

/// The first position at or after `i` holding no letter.
pub open spec fn spec_scan_letters(l: Seq<char>, i: int) -> int
    decreases l.len() - i,
{
    if 0 <= i < l.len() && is_letter(l[i]) {
        spec_scan_letters(l, i + 1)
    } else {
        i
    }
}

/// The first position at or after `i` holding no digit.
pub open spec fn spec_scan_digits(l: Seq<char>, i: int) -> int
    decreases l.len() - i,
{
    if 0 <= i < l.len() && is_digit(l[i]) {
        spec_scan_digits(l, i + 1)
    } else {
        i
    }
}

/// The first position at or after `i` holding a single quote, or the end.
pub open spec fn spec_scan_to_quote(l: Seq<char>, i: int) -> int
    decreases l.len() - i,
{
    if 0 <= i < l.len() && l[i] != '\'' {
        spec_scan_to_quote(l, i + 1)
    } else {
        i
    }
}

/// The first position at or after `i` holding a newline, or the end.
pub open spec fn spec_scan_to_nl(s: Seq<char>, i: int) -> int
    decreases s.len() - i,
{
    if 0 <= i < s.len() && s[i] != '\n' {
        spec_scan_to_nl(s, i + 1)
    } else {
        i
    }
}

/// The numeric value of one digit character; zero for any other character.
pub open spec fn digit_val(c: char) -> int {
    if is_digit(c) {
        c as u32 - '0' as u32
    } else {
        0
    }
}

/// The value of the decimal digit run `l[i..j)`, most significant first.
pub open spec fn spec_digits_value(l: Seq<char>, i: int, j: int) -> int
    decreases j - i,
{
    if i >= j {
        0
    } else {
        spec_digits_value(l, i, j - 1) * 10 + digit_val(l[j - 1])
    }
}

proof fn lemma_digits_value_nonneg(l: Seq<char>, i: int, j: int)
    ensures
        spec_digits_value(l, i, j) >= 0,
    decreases j - i,
{
    if i < j {
        lemma_digits_value_nonneg(l, i, j - 1);
    }
}

proof fn lemma_digits_value_mono(l: Seq<char>, i: int, j1: int, j2: int)
    requires
        j1 <= j2,
    ensures
        spec_digits_value(l, i, j2) >= spec_digits_value(l, i, j1),
    decreases j2 - j1,
{
    if j1 < j2 {
        lemma_digits_value_mono(l, i, j1, j2 - 1);
        lemma_digits_value_nonneg(l, i, j2 - 1);
    }
}

/// What parsing one operand at position `i` of a line yields: the token and
/// the position just past it, or `None` when no well-formed operand starts
/// there.  A register or integer whose digits exceed the type's range is
/// rejected, as is an unterminated string literal.
pub open spec fn spec_parse_operand(l: Seq<char>, i: int) -> Option<(TokenV, int)> {
    if !(0 <= i < l.len()) {
        None
    } else if l[i] == '$' {
        let e = spec_scan_digits(l, i + 1);
        if e == i + 1 {
            None
        } else {
            let v = spec_digits_value(l, i + 1, e);
            if v > 255 {
                None
            } else {
                Some((TokenV::Register { reg_num: v as u8 }, e))
            }
        }
    } else if l[i] == '#' {
        let e = spec_scan_digits(l, i + 1);
        if e == i + 1 {
            None
        } else {
            let v = spec_digits_value(l, i + 1, e);
            if v > 0x7fff_ffff {
                None
            } else {
                Some((TokenV::IntegerOperand { value: v as i32 }, e))
            }
        }
    } else if l[i] == '@' {
        let e = spec_scan_letters(l, i + 1);
        if e == i + 1 {
            None
        } else {
            Some((TokenV::LabelUsage { name: l.subrange(i + 1, e) }, e))
        }
    } else if l[i] == '\'' {
        let e = spec_scan_to_quote(l, i + 1);
        if e >= l.len() {
            None
        } else {
            Some((TokenV::IrString { name: l.subrange(i + 1, e) }, e + 1))
        }
    } else {
        None
    }
}

/// What one line parses to.
pub ghost enum LineV {
    Blank,
    Bad,
    Ins { ins: InstructionV },
}

/// Parses up to three operands from position `i` and requires the line to
/// end after them; builds the instruction from the tokens parsed so far.
pub open spec fn spec_finish_line(
    l: Seq<char>,
    i: int,
    label: Option<TokenV>,
    opcode: Option<TokenV>,
    directive: Option<TokenV>,
) -> LineV {
    let p1 = spec_skip_ws(l, i);
    if p1 >= l.len() {
        LineV::Ins {
            ins: InstructionV {
                opcode,
                label,
                directive,
                operand1: None,
                operand2: None,
                operand3: None,
            },
        }
    } else {
        match spec_parse_operand(l, p1) {
            None => LineV::Bad,
            Some((t1, q1)) => {
                let p2 = spec_skip_ws(l, q1);
                if p2 >= l.len() {
                    LineV::Ins {
                        ins: InstructionV {
                            opcode,
                            label,
                            directive,
                            operand1: Some(t1),
                            operand2: None,
                            operand3: None,
                        },
                    }
                } else {
                    match spec_parse_operand(l, p2) {
                        None => LineV::Bad,
                        Some((t2, q2)) => {
                            let p3 = spec_skip_ws(l, q2);
                            if p3 >= l.len() {
                                LineV::Ins {
                                    ins: InstructionV {
                                        opcode,
                                        label,
                                        directive,
                                        operand1: Some(t1),
                                        operand2: Some(t2),
                                        operand3: None,
                                    },
                                }
                            } else {
                                match spec_parse_operand(l, p3) {
                                    None => LineV::Bad,
                                    Some((t3, q3)) => {
                                        let p4 = spec_skip_ws(l, q3);
                                        if p4 >= l.len() {
                                            LineV::Ins {
                                                ins: InstructionV {
                                                    opcode,
                                                    label,
                                                    directive,
                                                    operand1: Some(t1),
                                                    operand2: Some(t2),
                                                    operand3: Some(t3),
                                                },
                                            }
                                        } else {
                                            LineV::Bad
                                        }
                                    },
                                }
                            }
                        },
                    }
                }
            },
        }
    }
}

/// What one line of source parses to: nothing for a blank line, an
/// instruction record, or a failure.  A line holds an optional label
/// declaration and then either a directive or an opcode, with operands.
pub open spec fn spec_parse_line(l: Seq<char>) -> LineV {
    let i0 = spec_skip_ws(l, 0);
    if i0 >= l.len() {
        LineV::Blank
    } else {
        let e0 = spec_scan_letters(l, i0);
        let has_label = is_letter(l[i0]) && e0 < l.len() && l[e0] == ':';
        let label = if has_label {
            Some(TokenV::LabelDeclaration { name: l.subrange(i0, e0) })
        } else {
            None
        };
        let j = if has_label {
            spec_skip_ws(l, e0 + 1)
        } else {
            i0
        };
        if j >= l.len() {
            LineV::Bad
        } else if l[j] == '.' {
            if j + 1 < l.len() && is_letter(l[j + 1]) {
                let e = spec_scan_letters(l, j + 1);
                spec_finish_line(
                    l,
                    e,
                    label,
                    None,
                    Some(TokenV::Directive { name: l.subrange(j + 1, e) }),
                )
            } else {
                LineV::Bad
            }
        } else if is_letter(l[j]) {
            let e = spec_scan_letters(l, j);
            spec_finish_line(
                l,
                e,
                label,
                Some(TokenV::Op { code: opcode_of_mnemonic(l.subrange(j, e)) }),
                None,
            )
        } else {
            LineV::Bad
        }
    }
}

/// Splits the source at newlines and parses line by line; `None` when any
/// line fails.  Blank lines contribute no instruction.
pub open spec fn spec_parse_lines(s: Seq<char>) -> Option<Seq<InstructionV>>
    decreases s.len(),
{
    if s.len() == 0 {
        Some(Seq::empty())
    } else {
        let e0 = spec_scan_to_nl(s, 0);
        let e = if e0 < 0 {
            0
        } else if e0 > s.len() {
            s.len() as int
        } else {
            e0
        };
        let head = spec_parse_line(s.subrange(0, e));
        let rest = if e >= s.len() {
            Some(Seq::<InstructionV>::empty())
        } else {
            spec_parse_lines(s.subrange(e + 1, s.len() as int))
        };
        match head {
            LineV::Bad => None,
            LineV::Blank => rest,
            LineV::Ins { ins } => match rest {
                None => None,
                Some(r) => Some(seq![ins] + r),
            },
        }
    }
}

/// What a whole source text parses to: the instruction records in source
/// order; `None` on any malformed line and for a source with no instruction
/// at all.
pub open spec fn spec_parse_program(s: Seq<char>) -> Option<Seq<InstructionV>> {
    match spec_parse_lines(s) {
        None => None,
        Some(instrs) => if instrs.len() == 0 {
            None
        } else {
            Some(instrs)
        },
    }
}

// ---------------------------------------------------------------------------
// The executable scanner, proved equal to the grammar above.
// ---------------------------------------------------------------------------

fn is_space_c(c: char) -> (r: bool)
    ensures
        r == is_space(c),
{
    c == ' ' || c == '\t' || c == '\r'
}

fn is_letter_c(c: char) -> (r: bool)
    ensures
        r == is_letter(c),
{
    let u = c as u32;
    (97 <= u && u <= 122) || (65 <= u && u <= 90)
}

fn is_digit_c(c: char) -> (r: bool)
    ensures
        r == is_digit(c),
{
    let u = c as u32;
    48 <= u && u <= 57
}

fn skip_ws(line: &Vec<char>, i: usize) -> (r: usize)
    requires
        i <= line@.len(),
    ensures
        r == spec_skip_ws(line@, i as int),
        i <= r <= line@.len(),
    decreases line@.len() - i,
{
    if i < line.len() && is_space_c(line[i]) {
        skip_ws(line, i + 1)
    } else {
        i
    }
}

fn scan_letters(line: &Vec<char>, i: usize) -> (r: usize)
    requires
        i <= line@.len(),
    ensures
        r == spec_scan_letters(line@, i as int),
        i <= r <= line@.len(),
    decreases line@.len() - i,
{
    if i < line.len() && is_letter_c(line[i]) {
        scan_letters(line, i + 1)
    } else {
        i
    }
}

fn scan_digits(line: &Vec<char>, i: usize) -> (r: usize)
    requires
        i <= line@.len(),
    ensures
        r == spec_scan_digits(line@, i as int),
        i <= r <= line@.len(),
    decreases line@.len() - i,
{
    if i < line.len() && is_digit_c(line[i]) {
        scan_digits(line, i + 1)
    } else {
        i
    }
}

fn scan_to_quote(line: &Vec<char>, i: usize) -> (r: usize)
    requires
        i <= line@.len(),
    ensures
        r == spec_scan_to_quote(line@, i as int),
        i <= r <= line@.len(),
    decreases line@.len() - i,
{
    if i < line.len() && line[i] != '\'' {
        scan_to_quote(line, i + 1)
    } else {
        i
    }
}

fn scan_to_nl(chars: &Vec<char>, i: usize) -> (r: usize)
    requires
        i <= chars@.len(),
    ensures
        r == spec_scan_to_nl(chars@, i as int),
        i <= r <= chars@.len(),
    decreases chars@.len() - i,
{
    if i < chars.len() && chars[i] != '\n' {
        scan_to_nl(chars, i + 1)
    } else {
        i
    }
}

/// Accumulates the decimal run `line[i..e)`, failing when the value exceeds
/// `limit`.
fn parse_digits(line: &Vec<char>, i: usize, e: usize, limit: u64) -> (r: Option<u64>)
    requires
        i <= e <= line@.len(),
        limit <= 0x7fff_ffff,
    ensures
        match r {
            Some(v) => v == spec_digits_value(line@, i as int, e as int) && v <= limit,
            None => spec_digits_value(line@, i as int, e as int) > limit,
        },
{
    let mut acc: u64 = 0;
    let mut k: usize = i;
    while k < e
        invariant
            i <= k <= e <= line@.len(),
            limit <= 0x7fff_ffff,
            acc == spec_digits_value(line@, i as int, k as int),
            acc <= limit,
        decreases e - k,
    {
        let c = line[k];
        let d: u64 = if is_digit_c(c) {
            (c as u32 - 48) as u64
        } else {
            0
        };
        assert(d == digit_val(line@[k as int]));
        let next: u64 = acc * 10 + d;
        assert(next == spec_digits_value(line@, i as int, k as int + 1));
        if next > limit {
            proof {
                lemma_digits_value_mono(line@, i as int, k as int + 1, e as int);
            }
            return None;
        }
        acc = next;
        k += 1;
    }
    Some(acc)
}

/// Parses one operand at position `i` of the line, as `spec_parse_operand`
/// describes.  `start` is the line's position inside the full source, used
/// to carve names out of it.
pub fn parse_operand_at(src: &str, line: &Vec<char>, start: usize, i: usize) -> (r: Option<
    (Token, usize),
>)
    requires
        src@.len() <= usize::MAX,
        start + line@.len() <= src@.len(),
        line@ == src@.subrange(start as int, start as int + line@.len() as int),
        i <= line@.len(),
    ensures
        match (r, spec_parse_operand(line@, i as int)) {
            (Some((t, p)), Some((tv, pv))) => t@ == tv && p == pv && i < p <= line@.len(),
            (None, None) => true,
            _ => false,
        },
{
    if i >= line.len() {
        return None;
    }
    let c = line[i];
    if c == '$' {
        let e = scan_digits(line, i + 1);
        if e == i + 1 {
            return None;
        }
        match parse_digits(line, i + 1, e, 255) {
            Some(v) => Some((Token::Register { reg_num: v as u8 }, e)),
            None => None,
        }
    } else if c == '#' {
        let e = scan_digits(line, i + 1);
        if e == i + 1 {
            return None;
        }
        match parse_digits(line, i + 1, e, 0x7fff_ffff) {
            Some(v) => Some((Token::IntegerOperand { value: v as i32 }, e)),
            None => None,
        }
    } else if c == '@' {
        let e = scan_letters(line, i + 1);
        if e == i + 1 {
            return None;
        }
        let name = String::from_str(src.substring_char(start + i + 1, start + e));
        proof {
            assert(name@ =~= line@.subrange(i + 1, e as int));
        }
        Some((Token::LabelUsage { name }, e))
    } else if c == '\'' {
        let e = scan_to_quote(line, i + 1);
        if e >= line.len() {
            return None;
        }
        let name = String::from_str(src.substring_char(start + i + 1, start + e));
        proof {
            assert(name@ =~= line@.subrange(i + 1, e as int));
        }
        Some((Token::IrString { name }, e + 1))
    } else {
        None
    }
}

/// What one line parsed to, executably.
enum LineParse {
    Blank,
    Bad,
    Ins(AssemblerInstruction),
}

/// Whether an executable line result means what the grammar says.
spec fn line_parse_ok(r: &LineParse, s: LineV) -> bool {
    match (r, s) {
        (LineParse::Blank, LineV::Blank) => true,
        (LineParse::Bad, LineV::Bad) => true,
        (LineParse::Ins(i), LineV::Ins { ins }) => i@ == ins,
        _ => false,
    }
}

fn finish_line(
    src: &str,
    line: &Vec<char>,
    start: usize,
    i: usize,
    label: Option<Token>,
    opcode: Option<Token>,
    directive: Option<Token>,
) -> (r: LineParse)
    requires
        src@.len() <= usize::MAX,
        start + line@.len() <= src@.len(),
        line@ == src@.subrange(start as int, start as int + line@.len() as int),
        i <= line@.len(),
    ensures
        line_parse_ok(
            &r,
            spec_finish_line(
                line@,
                i as int,
                opt_token_view(&label),
                opt_token_view(&opcode),
                opt_token_view(&directive),
            ),
        ),
{
    let p1 = skip_ws(line, i);
    if p1 >= line.len() {
        return LineParse::Ins(
            AssemblerInstruction {
                opcode,
                label,
                directive,
                operand1: None,
                operand2: None,
                operand3: None,
            },
        );
    }
    let (t1, q1) = match parse_operand_at(src, line, start, p1) {
        None => {
            return LineParse::Bad;
        },
        Some(x) => x,
    };
    let p2 = skip_ws(line, q1);
    if p2 >= line.len() {
        return LineParse::Ins(
            AssemblerInstruction {
                opcode,
                label,
                directive,
                operand1: Some(t1),
                operand2: None,
                operand3: None,
            },
        );
    }
    let (t2, q2) = match parse_operand_at(src, line, start, p2) {
        None => {
            return LineParse::Bad;
        },
        Some(x) => x,
    };
    let p3 = skip_ws(line, q2);
    if p3 >= line.len() {
        return LineParse::Ins(
            AssemblerInstruction {
                opcode,
                label,
                directive,
                operand1: Some(t1),
                operand2: Some(t2),
                operand3: None,
            },
        );
    }
    let (t3, q3) = match parse_operand_at(src, line, start, p3) {
        None => {
            return LineParse::Bad;
        },
        Some(x) => x,
    };
    let p4 = skip_ws(line, q3);
    if p4 >= line.len() {
        return LineParse::Ins(
            AssemblerInstruction {
                opcode,
                label,
                directive,
                operand1: Some(t1),
                operand2: Some(t2),
                operand3: Some(t3),
            },
        );
    }
    LineParse::Bad
}

fn parse_line(src: &str, line: &Vec<char>, start: usize) -> (r: LineParse)
    requires
        src@.len() <= usize::MAX,
        start + line@.len() <= src@.len(),
        line@ == src@.subrange(start as int, start as int + line@.len() as int),
    ensures
        line_parse_ok(&r, spec_parse_line(line@)),
{
    let i0 = skip_ws(line, 0);
    if i0 >= line.len() {
        return LineParse::Blank;
    }
    let mut label: Option<Token> = None;
    let mut j = i0;
    if is_letter_c(line[i0]) {
        let e0 = scan_letters(line, i0);
        if e0 < line.len() && line[e0] == ':' {
            let name = String::from_str(src.substring_char(start + i0, start + e0));
            proof {
                assert(name@ =~= line@.subrange(i0 as int, e0 as int));
            }
            label = Some(Token::LabelDeclaration { name });
            j = skip_ws(line, e0 + 1);
        }
    }
    if j >= line.len() {
        return LineParse::Bad;
    }
    if line[j] == '.' {
        if j + 1 < line.len() && is_letter_c(line[j + 1]) {
            let e = scan_letters(line, j + 1);
            let name = String::from_str(src.substring_char(start + j + 1, start + e));
            proof {
                assert(name@ =~= line@.subrange(j as int + 1, e as int));
            }
            finish_line(src, line, start, e, label, None, Some(Token::Directive { name }))
        } else {
            LineParse::Bad
        }
    } else if is_letter_c(line[j]) {
        let e = scan_letters(line, j);
        let mn = src.substring_char(start + j, start + e);
        proof {
            assert(mn@ =~= line@.subrange(j as int, e as int));
        }
        let code = Opcode::from_mnemonic(mn);
        finish_line(src, line, start, e, label, Some(Token::Op { code }), None)
    } else {
        LineParse::Bad
    }
}

/// The views of a vector of instruction records, in order.
pub open spec fn instr_views(v: Seq<AssemblerInstruction>) -> Seq<InstructionV> {
    Seq::new(v.len(), |k: int| v[k]@)
}

proof fn lemma_scan_to_nl_shift(s: Seq<char>, a: int, i: int)
    requires
        0 <= a,
        0 <= i,
        a + i <= s.len(),
    ensures
        spec_scan_to_nl(s.subrange(a, s.len() as int), i) == spec_scan_to_nl(s, a + i) - a,
    decreases s.len() - (a + i),
{
    let r = s.subrange(a, s.len() as int);
    if a + i < s.len() && s[a + i] != '\n' {
        assert(r[i] == s[a + i]);
        lemma_scan_to_nl_shift(s, a, i + 1);
    }
}

proof fn lemma_parse_lines_unfold(s: Seq<char>, e: int)
    requires
        s.len() > 0,
        e == spec_scan_to_nl(s, 0),
        0 <= e <= s.len(),
    ensures
        spec_parse_lines(s) == ({
            let rest2 = if e >= s.len() {
                Some(Seq::<InstructionV>::empty())
            } else {
                spec_parse_lines(s.subrange(e + 1, s.len() as int))
            };
            match spec_parse_line(s.subrange(0, e)) {
                LineV::Bad => None::<Seq<InstructionV>>,
                LineV::Blank => rest2,
                LineV::Ins { ins } => match rest2 {
                    None => None,
                    Some(rr) => Some(seq![ins] + rr),
                },
            }
        }),
{
}

fn copy_range(chars: &Vec<char>, a: usize, b: usize) -> (r: Vec<char>)
    requires
        a <= b <= chars@.len(),
    ensures
        r@ == chars@.subrange(a as int, b as int),
{
    let mut v: Vec<char> = Vec::new();
    let mut k = a;
    while k < b
        invariant
            a <= k <= b <= chars@.len(),
            v@.len() == k - a,
            forall|m: int| 0 <= m < v@.len() ==> v@[m] == chars@[a + m],
        decreases b - k,
    {
        v.push(chars[k]);
        k += 1;
    }
    proof {
        assert(v@ =~= chars@.subrange(a as int, b as int));
    }
    v
}

/// Parses a whole source text into a program, or fails as a whole with one
/// opaque diagnostic.  Succeeds exactly when the grammar accepts the text,
/// that is, when every line parses and at least one instruction is present.
#[verifier::rlimit(50)]
pub fn program(src: &str) -> (r: Result<Program, String>)
    ensures
        match r {
            Ok(p) => spec_parse_program(src@) == Some(p@),
            Err(_) => spec_parse_program(src@) is None,
        },
{
    let n = src.unicode_len();
    let chars = str_to_chars(src);
    let mut instrs: Vec<AssemblerInstruction> = Vec::new();
    let mut pos: usize = 0;
    proof {
        assert(src@.subrange(0, n as int) =~= src@);
    }
    while pos < n
        invariant
            pos <= n,
            n == src@.len(),
            chars@ == src@,
            ({
                let rest = src@.subrange(pos as int, n as int);
                match spec_parse_lines(rest) {
                    None => spec_parse_lines(src@) is None,
                    Some(rr) => spec_parse_lines(src@) == Some(instr_views(instrs@) + rr),
                }
            }),
        decreases n - pos,
    {
        let ghost rest = src@.subrange(pos as int, n as int);
        let le = scan_to_nl(&chars, pos);
        let line = copy_range(&chars, pos, le);
        proof {
            lemma_scan_to_nl_shift(src@, pos as int, 0);
            assert(rest.subrange(0, le - pos) =~= line@);
            assert(line@ =~= src@.subrange(pos as int, pos as int + line@.len() as int));
        }
        let lp = parse_line(src, &line, pos);
        let ghost head = spec_parse_line(line@);
        let ghost rest2 = if le - pos >= rest.len() {
            Some(Seq::<InstructionV>::empty())
        } else {
            spec_parse_lines(rest.subrange(le - pos + 1, rest.len() as int))
        };
        proof {
            lemma_parse_lines_unfold(rest, le - pos);
        }
        match lp {
            LineParse::Bad => {
                return Err(String::from_str("malformed assembly line"));
            },
            LineParse::Blank => {},
            LineParse::Ins(ins) => {
                let ghost insv = ins@;
                proof {
                    if rest2 is Some {
                        assert(instr_views(instrs@) + (seq![insv] + rest2->0) =~= instr_views(
                            instrs@.push(ins),
                        ) + rest2->0);
                    }
                }
                instrs.push(ins);
            },
        }
        if le == n {
            pos = n;
            proof {
                assert(src@.subrange(n as int, n as int) =~= Seq::<char>::empty());
                assert(spec_parse_lines(Seq::<char>::empty()) == Some(Seq::<InstructionV>::empty()));
            }
        } else {
            proof {
                assert(src@.subrange(le as int + 1, n as int) =~= rest.subrange(
                    le - pos + 1,
                    rest.len() as int,
                ));
            }
            pos = le + 1;
        }
    }
    proof {
        assert(src@.subrange(pos as int, n as int) =~= Seq::<char>::empty());
    }
    if instrs.len() == 0 {
        return Err(String::from_str("empty program"));
    }
    let p = Program { instructions: instrs };
    proof {
        assert(p@ =~= instr_views(p.instructions@));
        assert(instr_views(p.instructions@) + Seq::<InstructionV>::empty() =~= p@);
    }
    Ok(p)
}

// ---------------------------------------------------------------------------
// Single-token parsers, each reading one token from the front of a string.
// ---------------------------------------------------------------------------

/// What an opcode mnemonic at the front of a string parses to.
pub open spec fn spec_parse_opcode_token(s: Seq<char>) -> Option<(TokenV, int)> {
    let e = spec_scan_letters(s, 0);
    if e <= 0 {
        None
    } else {
        Some((TokenV::Op { code: opcode_of_mnemonic(s.subrange(0, e)) }, e))
    }
}

/// Parses an opcode mnemonic at the front of the string; an unknown
/// mnemonic still parses, as `IGL`.  Returns the token and the number of
/// characters consumed.
pub fn opcode(src: &str) -> (r: Option<(Token, usize)>)
    ensures
        match (r, spec_parse_opcode_token(src@)) {
            (Some((t, p)), Some((tv, pv))) => t@ == tv && p == pv,
            (None, None) => true,
            _ => false,
        },
{
    let _n = src.unicode_len();
    let chars = str_to_chars(src);
    let e = scan_letters(&chars, 0);
    if e == 0 {
        return None;
    }
    let mn = src.substring_char(0, e);
    proof {
        assert(mn@ =~= src@.subrange(0, e as int));
    }
    Some((Token::Op { code: Opcode::from_mnemonic(mn) }, e))
}

/// What a register operand at the front of a string parses to.
pub open spec fn spec_parse_register_token(s: Seq<char>) -> Option<(TokenV, int)> {
    match spec_parse_operand(s, 0) {
        Some((TokenV::Register { reg_num }, p)) => Some((TokenV::Register { reg_num }, p)),
        _ => None,
    }
}

/// Parses a register operand (`$` and a decimal register number) at the
/// front of the string.
pub fn register(src: &str) -> (r: Option<(Token, usize)>)
    ensures
        match (r, spec_parse_register_token(src@)) {
            (Some((t, p)), Some((tv, pv))) => t@ == tv && p == pv,
            (None, None) => true,
            _ => false,
        },
{
    let _n = src.unicode_len();
    let chars = str_to_chars(src);
    proof {
        assert(chars@ =~= src@.subrange(0, chars@.len() as int));
    }
    match parse_operand_at(src, &chars, 0, 0) {
        Some((Token::Register { reg_num }, p)) => Some((Token::Register { reg_num }, p)),
        _ => None,
    }
}

/// What an integer operand at the front of a string parses to.
pub open spec fn spec_parse_integer_token(s: Seq<char>) -> Option<(TokenV, int)> {
    match spec_parse_operand(s, 0) {
        Some((TokenV::IntegerOperand { value }, p)) => Some((TokenV::IntegerOperand { value }, p)),
        _ => None,
    }
}

/// Parses an integer operand (`#` and decimal digits) at the front of the
/// string.
pub fn integer_operand(src: &str) -> (r: Option<(Token, usize)>)
    ensures
        match (r, spec_parse_integer_token(src@)) {
            (Some((t, p)), Some((tv, pv))) => t@ == tv && p == pv,
            (None, None) => true,
            _ => false,
        },
{
    let _n = src.unicode_len();
    let chars = str_to_chars(src);
    proof {
        assert(chars@ =~= src@.subrange(0, chars@.len() as int));
    }
    match parse_operand_at(src, &chars, 0, 0) {
        Some((Token::IntegerOperand { value }, p)) => Some((Token::IntegerOperand { value }, p)),
        _ => None,
    }
}

/// Parses any operand at the front of the string: a register, an integer,
/// a label usage or a string literal.
pub fn operand(src: &str) -> (r: Option<(Token, usize)>)
    ensures
        match (r, spec_parse_operand(src@, 0)) {
            (Some((t, p)), Some((tv, pv))) => t@ == tv && p == pv,
            (None, None) => true,
            _ => false,
        },
{
    let _n = src.unicode_len();
    let chars = str_to_chars(src);
    proof {
        assert(chars@ =~= src@.subrange(0, chars@.len() as int));
    }
    parse_operand_at(src, &chars, 0, 0)
}

/// What a directive token at the front of a string parses to.
pub open spec fn spec_parse_directive_token(s: Seq<char>) -> Option<(TokenV, int)> {
    if s.len() >= 2 && s[0] == '.' && is_letter(s[1]) {
        let e = spec_scan_letters(s, 1);
        Some((TokenV::Directive { name: s.subrange(1, e) }, e))
    } else {
        None
    }
}

/// Parses a directive token (`.` and its name) at the front of the string.
pub fn directive_declaration(src: &str) -> (r: Option<(Token, usize)>)
    ensures
        match (r, spec_parse_directive_token(src@)) {
            (Some((t, p)), Some((tv, pv))) => t@ == tv && p == pv,
            (None, None) => true,
            _ => false,
        },
{
    let n = src.unicode_len();
    let chars = str_to_chars(src);
    if n >= 2 && chars[0] == '.' && is_letter_c(chars[1]) {
        let e = scan_letters(&chars, 1);
        let name = String::from_str(src.substring_char(1, e));
        proof {
            assert(name@ =~= src@.subrange(1, e as int));
        }
        Some((Token::Directive { name }, e))
    } else {
        None
    }
}

} // verus!
