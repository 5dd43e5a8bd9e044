//! The error taxonomy surfaced by the assembler.  Errors are collected into a
//! list during phase one and returned together.

use vstd::prelude::*;

verus! {

/// One assembler error.  `ParseError` carries an opaque diagnostic string.
#[derive(Debug)]
pub enum AssemblerError {
    NoSegmentDeclarationFound { instruction: u32 },
    StringConstantDeclaredWithoutLabel { instruction: u32 },
    SymbolAlreadyDeclared,
    UnknownDirectiveFound { directive: String },
    NonOpcodeInOpcodeField,
    InsufficientSections,
    ParseError { error: String },
}

/// The mathematical image of one assembler error.
pub ghost enum ErrorV {
    NoSegmentDeclarationFound { instruction: u32 },
    StringConstantDeclaredWithoutLabel { instruction: u32 },
    SymbolAlreadyDeclared,
    UnknownDirectiveFound { directive: Seq<char> },
    NonOpcodeInOpcodeField,
    InsufficientSections,
    ParseError { error: Seq<char> },
}

impl View for AssemblerError {
    type V = ErrorV;

    open spec fn view(&self) -> ErrorV {
        match self {
            AssemblerError::NoSegmentDeclarationFound { instruction } => {
                ErrorV::NoSegmentDeclarationFound { instruction: *instruction }
            },
            AssemblerError::StringConstantDeclaredWithoutLabel { instruction } => {
                ErrorV::StringConstantDeclaredWithoutLabel { instruction: *instruction }
            },
            AssemblerError::SymbolAlreadyDeclared => ErrorV::SymbolAlreadyDeclared,
            AssemblerError::UnknownDirectiveFound { directive } => {
                ErrorV::UnknownDirectiveFound { directive: directive@ }
            },
            AssemblerError::NonOpcodeInOpcodeField => ErrorV::NonOpcodeInOpcodeField,
            AssemblerError::InsufficientSections => ErrorV::InsufficientSections,
            AssemblerError::ParseError { error } => ErrorV::ParseError { error: error@ },
        }
    }
}

impl DeepView for AssemblerError {
    type V = ErrorV;

    open spec fn deep_view(&self) -> ErrorV {
        self.view()
    }
}

impl AssemblerError {
    /// A copy with the same view.
    pub fn duplicate(&self) -> (r: Self)
        ensures
            r@ == self@,
    {
        match self {
            AssemblerError::NoSegmentDeclarationFound { instruction } => {
                AssemblerError::NoSegmentDeclarationFound { instruction: *instruction }
            },
            AssemblerError::StringConstantDeclaredWithoutLabel { instruction } => {
                AssemblerError::StringConstantDeclaredWithoutLabel { instruction: *instruction }
            },
            AssemblerError::SymbolAlreadyDeclared => AssemblerError::SymbolAlreadyDeclared,
            AssemblerError::UnknownDirectiveFound { directive } => {
                AssemblerError::UnknownDirectiveFound { directive: directive.clone() }
            },
            AssemblerError::NonOpcodeInOpcodeField => AssemblerError::NonOpcodeInOpcodeField,
            AssemblerError::InsufficientSections => AssemblerError::InsufficientSections,
            AssemblerError::ParseError { error } => {
                AssemblerError::ParseError { error: error.clone() }
            },
        }
    }
}

impl Clone for AssemblerError {
    /// A copy with the same view.
    fn clone(&self) -> (r: Self)
        ensures
            r@ == self@,
    {
        self.duplicate()
    }
}

/// The fixed description each error kind carries.
pub open spec fn spec_description(e: ErrorV) -> Seq<char> {
    match e {
        ErrorV::NoSegmentDeclarationFound { .. } => {
            "No segment declaration (e.g., .code, .data) prior to finding an opcode"@
        },
        ErrorV::StringConstantDeclaredWithoutLabel { .. } => {
            "Found a string constant without a corresponding label"@
        },
        ErrorV::SymbolAlreadyDeclared => "This symbol was previously declared"@,
        ErrorV::UnknownDirectiveFound { .. } => "Invalid or unknown directive"@,
        ErrorV::NonOpcodeInOpcodeField => "A non-opcode was found in an opcode field"@,
        ErrorV::InsufficientSections => {
            "Less than two sections/segments were found in the code"@
        },
        ErrorV::ParseError { .. } => "There was an error parsing the code"@,
    }
}

impl AssemblerError {
    /// A short, fixed description of the error kind.
    pub fn description(&self) -> (r: String)
        ensures
            r@ == spec_description(self@),
    {
        match self {
            AssemblerError::NoSegmentDeclarationFound { .. } => String::from_str(
                "No segment declaration (e.g., .code, .data) prior to finding an opcode",
            ),
            AssemblerError::StringConstantDeclaredWithoutLabel { .. } => String::from_str(
                "Found a string constant without a corresponding label",
            ),
            AssemblerError::SymbolAlreadyDeclared => String::from_str(
                "This symbol was previously declared",
            ),
            AssemblerError::UnknownDirectiveFound { .. } => String::from_str(
                "Invalid or unknown directive",
            ),
            AssemblerError::NonOpcodeInOpcodeField => String::from_str(
                "A non-opcode was found in an opcode field",
            ),
            AssemblerError::InsufficientSections => String::from_str(
                "Less than two sections/segments were found in the code",
            ),
            AssemblerError::ParseError { .. } => String::from_str(
                "There was an error parsing the code",
            ),
        }
    }
}

} // verus!
