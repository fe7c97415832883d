//! The errors of the lowering.
use vstd::prelude::*;
use vstd::string::*;

verus! {

/// Why a module cannot be lowered.
#[derive(Clone, Copy, Debug, PartialEq, Eq, Structural)]
pub enum ErrorKind {
    /// A type of a kind that has no flat form.
    UnsupportedType,
    /// An integer type wider than 256 bits.
    UnsupportedWidth,
    /// `void` where a value is needed.
    UnsupportedVoid,
    /// A named type that the type table does not define, defines as opaque,
    /// or defines through itself.
    LinkError,
    /// A size that does not fit in 64 bits.
    SizeOverflow,
    /// An instruction outside the supported subset.
    UnsupportedInstruction,
    /// An operand of a shape that the instruction cannot take.
    UnsupportedOperand,
    /// An argument of a shape that the instruction or built-in cannot take.
    WrongArgument,
    /// A stack allocation whose element count is not a constant.
    DynamicAllocaUnsupported,
    /// An aggregate read through more than one index, or through none.
    MultiIndexUnsupported,
    /// A select whose condition is not a local one-bit integer.
    InvalidSelectCondition,
    /// A call whose target is not an operand, or not a constant.
    IndirectCallUnsupported,
    /// A call whose constant target does not name a global function.
    NonGlobalCallee,
    /// A call of a built-in with the wrong number of arguments.
    WrongArity,
    /// A branch to a block that the function does not have.
    MissingBasicBlock,
    /// A terminator outside the supported subset.
    UnsupportedTerminator,
    /// A block that can reach itself.
    CyclicControlFlow,
    /// An object that is nested in itself.
    CyclicObject,
    /// Two functions of one module with the same name.
    DuplicateFunction,
    /// A contract given as more than a name and an entry.
    MalformedContract,
}

/// An error, with the name or text of what it is about.
#[derive(Clone, Debug)]
pub struct CompileError {
    pub kind: ErrorKind,
    pub subject: String,
}

/// What an error holds.
pub struct ErrorView {
    pub kind: ErrorKind,
    pub subject: Seq<char>,
}

impl View for CompileError {
    type V = ErrorView;

    open spec fn view(&self) -> ErrorView {
        ErrorView { kind: self.kind, subject: self.subject@ }
    }
}

/// The error of kind `kind` about `subject`.
pub open spec fn error_of(kind: ErrorKind, subject: Seq<char>) -> ErrorView {
    ErrorView { kind, subject }
}

impl CompileError {
    /// The error of kind `kind` about `subject`.
    pub fn new(kind: ErrorKind, subject: &str) -> (r: CompileError)
        ensures
            r@ == error_of(kind, subject@),
    {
        CompileError { kind, subject: subject.to_owned() }
    }

    /// The error of kind `kind` about nothing that has a name.
    pub fn bare(kind: ErrorKind) -> (r: CompileError)
        ensures
            r@ == error_of(kind, Seq::empty()),
    {
        CompileError { kind, subject: String::new() }
    }

    /// The name of the error's kind.
    pub fn kind_name(&self) -> (r: &'static str)
        ensures
            r@ == kind_text(self.kind),
    {
        match self.kind {
            ErrorKind::UnsupportedType => "UnsupportedType",
            ErrorKind::UnsupportedWidth => "UnsupportedWidth",
            ErrorKind::UnsupportedVoid => "UnsupportedVoid",
            ErrorKind::LinkError => "LinkError",
            ErrorKind::SizeOverflow => "SizeOverflow",
            ErrorKind::UnsupportedInstruction => "UnsupportedInstruction",
            ErrorKind::UnsupportedOperand => "UnsupportedOperand",
            ErrorKind::WrongArgument => "WrongArgument",
            ErrorKind::DynamicAllocaUnsupported => "DynamicAllocaUnsupported",
            ErrorKind::MultiIndexUnsupported => "MultiIndexUnsupported",
            ErrorKind::InvalidSelectCondition => "InvalidSelectCondition",
            ErrorKind::IndirectCallUnsupported => "IndirectCallUnsupported",
            ErrorKind::NonGlobalCallee => "NonGlobalCallee",
            ErrorKind::WrongArity => "WrongArity",
            ErrorKind::MissingBasicBlock => "MissingBasicBlock",
            ErrorKind::UnsupportedTerminator => "UnsupportedTerminator",
            ErrorKind::CyclicControlFlow => "CyclicControlFlow",
            ErrorKind::CyclicObject => "CyclicObject",
            ErrorKind::DuplicateFunction => "DuplicateFunction",
            ErrorKind::MalformedContract => "MalformedContract",
        }
    }

    /// The message for the user: the kind, `: `, and what the error is about.
    pub fn message(&self) -> (r: String)
        ensures
            r@ == kind_text(self.kind) + ": "@ + self.subject@,
    {
        let mut out = self.kind_name().to_owned();
        out.append(": ");
        out.append(self.subject.as_str());
        out
    }
}

/// The name of an error kind, as the message gives it.
pub open spec fn kind_text(kind: ErrorKind) -> Seq<char> {
    match kind {
        ErrorKind::UnsupportedType => "UnsupportedType"@,
        ErrorKind::UnsupportedWidth => "UnsupportedWidth"@,
        ErrorKind::UnsupportedVoid => "UnsupportedVoid"@,
        ErrorKind::LinkError => "LinkError"@,
        ErrorKind::SizeOverflow => "SizeOverflow"@,
        ErrorKind::UnsupportedInstruction => "UnsupportedInstruction"@,
        ErrorKind::UnsupportedOperand => "UnsupportedOperand"@,
        ErrorKind::WrongArgument => "WrongArgument"@,
        ErrorKind::DynamicAllocaUnsupported => "DynamicAllocaUnsupported"@,
        ErrorKind::MultiIndexUnsupported => "MultiIndexUnsupported"@,
        ErrorKind::InvalidSelectCondition => "InvalidSelectCondition"@,
        ErrorKind::IndirectCallUnsupported => "IndirectCallUnsupported"@,
        ErrorKind::NonGlobalCallee => "NonGlobalCallee"@,
        ErrorKind::WrongArity => "WrongArity"@,
        ErrorKind::MissingBasicBlock => "MissingBasicBlock"@,
        ErrorKind::UnsupportedTerminator => "UnsupportedTerminator"@,
        ErrorKind::CyclicControlFlow => "CyclicControlFlow"@,
        ErrorKind::CyclicObject => "CyclicObject"@,
        ErrorKind::DuplicateFunction => "DuplicateFunction"@,
        ErrorKind::MalformedContract => "MalformedContract"@,
    }
}

} // verus!
