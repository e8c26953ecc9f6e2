//! The error type shared by decoding, instantiation and execution.

use vstd::prelude::*;

verus! {

/// What is wrong with the bytes of a binary module.
#[derive(Clone, Copy, Debug, PartialEq, Eq)]
pub enum Malformed {
    /// The input ended inside a value, or a section is longer than the input.
    UnexpectedEof,
    /// The first eight bytes are not the magic number and version 1.
    InvalidHeader,
    /// A LEB128 integer is too long, or too large for its type.
    LebOverflow,
    /// A name is not UTF-8.
    InvalidUtf8,
    /// A section's payload is longer than what was decoded from it.
    SectionNotConsumed,
    /// A section id above 11.
    UnknownSection,
    /// A byte that names no value kind.
    InvalidValueType,
    /// A function signature that does not start with `0x60`.
    InvalidFunctionType,
    /// A limits flag other than 0 or 1.
    InvalidLimits,
    /// A table whose element kind is not funcref (`0x70`).
    InvalidElementType,
    /// A mutability flag other than 0 or 1.
    InvalidMutability,
    /// An import or export descriptor tag above 3.
    InvalidDescriptor,
    /// An initializer that holds an instruction no constant expression may hold.
    InvalidConstantExpression,
    /// The function section and the code section differ in length.
    FunctionCountMismatch,
}

/// The index spaces of a module.
#[derive(Clone, Copy, Debug, PartialEq, Eq)]
pub enum IndexSpace {
    Type,
    Function,
    Table,
    Memory,
    Global,
    Start,
}

/// The limits that instantiation enforces.
#[derive(Clone, Copy, Debug, PartialEq, Eq)]
pub enum Limit {
    /// More than one table.
    Tables,
    /// More than one memory.
    Memories,
    /// A memory whose size in bytes this machine cannot address.
    MemorySize,
}

/// Why the host could not satisfy an import.
#[derive(Clone, Copy, Debug, PartialEq, Eq)]
pub enum ResolverError {
    NotFound,
    TypeMismatch,
}

/// A runtime fault that aborts the current execution.
#[derive(Clone, Copy, Debug, PartialEq, Eq)]
pub enum Trap {
    /// `unreachable` was executed.
    Unreachable,
    /// A write or read outside a memory.
    MemoryOutOfBounds,
    /// A write or read outside a table.
    TableOutOfBounds,
    /// An instruction that the evaluator does not accept.
    IllegalInstruction,
    /// A value of the wrong kind on the stack.
    TypeMismatch,
    /// The value stack or call stack is exhausted.
    StackExhausted,
    /// A fault raised by a host function.
    Host,
}

/// The first failure of a decoding, an instantiation or a call.
#[derive(Clone, Copy, Debug, PartialEq, Eq)]
pub enum Error {
    MalformedBinary(Malformed),
    InvalidSectionOrder,
    InvalidIndex(IndexSpace),
    TypeMismatch,
    InstantiationLimit(Limit),
    Resolver(ResolverError),
    Trap(Trap),
}

impl IndexSpace {
    /// The text of `out_of_range`.
    pub open spec fn out_of_range_text(self) -> Seq<char> {
        match self {
            IndexSpace::Type => "FuncType index out of range"@,
            IndexSpace::Function => "Callable index out of range"@,
            IndexSpace::Table => "Table index out of range"@,
            IndexSpace::Memory => "Memory index out of range"@,
            IndexSpace::Global => "Global index out of range"@,
            IndexSpace::Start => "Start function not found"@,
        }
    }

    /// The diagnostic for an index outside this space.
    pub fn out_of_range(self) -> (s: &'static str)
        ensures
            s@ == self.out_of_range_text(),
    {
        match self {
            IndexSpace::Type => "FuncType index out of range",
            IndexSpace::Function => "Callable index out of range",
            IndexSpace::Table => "Table index out of range",
            IndexSpace::Memory => "Memory index out of range",
            IndexSpace::Global => "Global index out of range",
            IndexSpace::Start => "Start function not found",
        }
    }
}

impl Error {
    /// The text of `message`.
    pub open spec fn message_text(self) -> Seq<char> {
        match self {
            Error::MalformedBinary(Malformed::InvalidHeader) => "invalid module header"@,
            Error::MalformedBinary(Malformed::SectionNotConsumed) => "failed to read whole section"@,
            Error::MalformedBinary(Malformed::UnexpectedEof) => "unexpected end of input"@,
            Error::MalformedBinary(Malformed::LebOverflow) => "integer too large"@,
            Error::MalformedBinary(Malformed::InvalidUtf8) => "name is not UTF-8"@,
            Error::MalformedBinary(_) => "malformed binary"@,
            Error::InvalidSectionOrder => "invalid section order"@,
            Error::InvalidIndex(space) => space.out_of_range_text(),
            Error::TypeMismatch => "type mismatch"@,
            Error::InstantiationLimit(Limit::Tables) => "too many tables"@,
            Error::InstantiationLimit(Limit::Memories) => "too many memories"@,
            Error::InstantiationLimit(Limit::MemorySize) => "memory too large"@,
            Error::Resolver(ResolverError::NotFound) => "import not found"@,
            Error::Resolver(ResolverError::TypeMismatch) => "import type mismatch"@,
            Error::Trap(_) => "trap"@,
        }
    }

    /// The diagnostic that is shown to the user for this error.
    pub fn message(self) -> (s: &'static str)
        ensures
            s@ == self.message_text(),
    {
        match self {
            Error::MalformedBinary(Malformed::InvalidHeader) => "invalid module header",
            Error::MalformedBinary(Malformed::SectionNotConsumed) => "failed to read whole section",
            Error::MalformedBinary(Malformed::UnexpectedEof) => "unexpected end of input",
            Error::MalformedBinary(Malformed::LebOverflow) => "integer too large",
            Error::MalformedBinary(Malformed::InvalidUtf8) => "name is not UTF-8",
            Error::MalformedBinary(_) => "malformed binary",
            Error::InvalidSectionOrder => "invalid section order",
            Error::InvalidIndex(space) => space.out_of_range(),
            Error::TypeMismatch => "type mismatch",
            Error::InstantiationLimit(Limit::Tables) => "too many tables",
            Error::InstantiationLimit(Limit::Memories) => "too many memories",
            Error::InstantiationLimit(Limit::MemorySize) => "memory too large",
            Error::Resolver(ResolverError::NotFound) => "import not found",
            Error::Resolver(ResolverError::TypeMismatch) => "import type mismatch",
            Error::Trap(_) => "trap",
        }
    }
}

} // verus!
