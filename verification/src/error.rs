//! Error taxonomy: each compiler stage has its own error type, and the
//! running parser has one for runtime faults. A stage error aborts the
//! whole compilation; a runtime fault aborts the parse of the current
//! object and propagates.

use vstd::prelude::*;

verus! {

/// A failure while parsing bytes at run time: reading past the end of the
/// stream, a missing terminator, a fixed-content mismatch, or a fault raised
/// while an emitted parse procedure runs.
#[derive(Debug, Clone, PartialEq)]
pub enum ParseError {
    /// End of stream before the required data.
    Eof,
    /// A seek target outside the stream bounds.
    SeekOutOfRange,
    /// The terminator byte was not found before the end of the stream.
    EofBeforeTerminator { term: char },
    /// Fixed expected contents did not match the bytes that were read.
    UnexpectedContents { actual: Vec<u8>, expected: Vec<u8> },
    /// A switch discriminant matched no case and no default case exists;
    /// carries the unmatched value and every known case value.
    UnmatchedSwitch { value: i128, known: Vec<i128> },
    /// An expression named a field or instance that the environment lacks.
    MissingName { name: Vec<u8> },
    /// An expression combined values of kinds its operator cannot take.
    BadValue,
    /// An arithmetic fault while evaluating an expression: overflow, or a
    /// division or remainder by zero.
    Arithmetic,
    /// An expression form carried through compilation but deliberately not
    /// evaluable, such as a float literal.
    Unsupported,
    /// The recursion bound of nested type parses was reached.
    DepthLimit,
    /// An emitted procedure referenced a type outside the program table.
    BadProcedure,
    /// A repeated read consumed no bytes while its loop had to go on.
    NoProgress,
}

/// A malformed embedded expression: `at` is the byte offset in the
/// expression text, `fragment` the text from that offset on.
#[derive(Debug, Clone, PartialEq)]
pub struct SyntaxError {
    pub at: usize,
    pub fragment: Vec<u8>,
}

/// A structurally invalid specification document.
#[derive(Debug, Clone, PartialEq)]
pub enum SchemaError {
    /// A required key is absent; carries the key.
    MissingKey { key: Vec<u8> },
    /// A key holds a value of the wrong shape; carries the key.
    WrongShape { key: Vec<u8> },
    /// An identifier appears twice in one scope; carries the identifier.
    DuplicateId { id: Vec<u8> },
    /// A primitive type token outside the `u`/`s`/`f` width grammar.
    BadTypeToken { token: Vec<u8> },
    /// An enum member value that is not an integer; carries the enum name.
    BadEnumValue { id: Vec<u8> },
    /// An embedded expression failed to compile.
    Syntax(SyntaxError),
    /// The document nests deeper than the builder's recursion bound.
    NestingTooDeep,
}

/// A failure of the second, whole-schema pass: names that resolve to
/// nothing, endianness left undetermined, or an illegal type cycle.
#[derive(Debug, Clone, PartialEq)]
pub enum ResolutionError {
    /// A user-type reference that no enclosing scope defines; carries the
    /// name and the identifiers of the scopes walked, innermost first.
    UnknownType { name: Vec<u8>, walked: Vec<Vec<u8>> },
    /// An enum reference that no enclosing scope defines; carries the name
    /// and the identifiers of the scopes walked, innermost first.
    UnknownEnum { name: Vec<u8>, walked: Vec<Vec<u8>> },
    /// A multi-byte integer attribute with no explicit endianness and no
    /// inherited default; carries the attribute identifier.
    UnresolvedEndianness { attr: Vec<u8> },
    /// A reference cycle that guarantees a non-terminating expansion;
    /// carries the identifier of a type on the cycle.
    IllegalCycle { id: Vec<u8> },
    /// The type tree nests deeper than the resolver's recursion bound.
    NestingTooDeep,
}

/// Any compiler-stage failure: the specification is accepted or rejected
/// as a whole.
#[derive(Debug, Clone, PartialEq)]
pub enum CompileError {
    Schema(SchemaError),
    Resolution(ResolutionError),
}

} // verus!
