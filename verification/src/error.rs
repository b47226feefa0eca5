//! Diagnostics.  Every pass fails fast: the first lexical, syntax,
//! resolution, type or definition error aborts the run, surfaced as a
//! distinct, inspectable error value.

use vstd::prelude::*;
use crate::location::Location;
use crate::token::Token;

verus! {

/// What went wrong while scanning characters.
#[derive(Debug, Clone, Copy, PartialEq, Eq, Structural)]
pub enum LexErrorKind {
    /// A `"`-delimited literal ran into a line break or the end of input.
    UnterminatedString,
    /// A `'`-delimited literal did not hold exactly one character.
    MalformedChar,
    /// A digit run was immediately followed by an alphabetic character, or
    /// its value does not fit the integer literal range.
    MalformedNumber,
    /// A character that cannot begin any token.
    UnknownChar(char),
}

/// A scanning failure, with the position at which it was detected.
#[derive(Debug, Clone, Copy, PartialEq, Eq, Structural)]
pub struct LexicalError {
    pub location: Location,
    pub kind: LexErrorKind,
}

/// An unexpected token at a `matcher` or dispatch point of the parser.
#[derive(Debug, PartialEq)]
pub struct SyntaxError {
    pub found: Token,
}

/// An identifier, struct or member that does not resolve.
#[derive(Debug, PartialEq)]
pub struct ResolutionError {
    pub name: String,
}

/// A semantic-checking failure.
#[derive(Debug, PartialEq)]
pub enum TypeError {
    /// The two sides of an assignment or initialization have incompatible
    /// shapes; the payloads are the base-type tokens of the two sides.
    Incompatible { left: Token, right: Token },
    /// A member was accessed through the wrong operator; `expected` is the
    /// operator that would have been accepted (`Dot` or `PointerRef`).
    WrongAccessOp { member: String, expected: Token },
    /// An indexed identifier is not an array or a pointer.
    NotIndexable { name: String },
    /// Something other than an identifier was indexed.
    IndexedLiteral,
    /// A member chain started from or passed through a non-struct value.
    NotAStruct { name: String },
    /// The left side of an assignment is not a bare identifier.
    NotLeftValue,
    /// A name was needed (for a member hop or a unary operand) but the
    /// primary is not an identifier.
    NotAName,
}

/// A cyclic by-value struct nesting, named after one struct on the cycle.
#[derive(Debug, PartialEq)]
pub struct DefinitionError {
    pub name: String,
}

/// A base type as diagnostics summarize it: a token, except that a string
/// literal's base is its character sequence.
pub enum TyBaseV {
    Tok(Token),
    StrLit(Seq<char>),
}

/// The base-type summary of a token.
pub open spec fn base_view(t: Token) -> TyBaseV {
    match t {
        Token::String(s) => TyBaseV::StrLit(s@),
        _ => TyBaseV::Tok(t),
    }
}

/// The view of a semantic-checking failure, with names as character
/// sequences.
pub enum TypeErrorV {
    Incompatible { left: TyBaseV, right: TyBaseV },
    WrongAccessOp { member: Seq<char>, expected: Token },
    NotIndexable { name: Seq<char> },
    IndexedLiteral,
    NotAStruct { name: Seq<char> },
    NotLeftValue,
    NotAName,
}

/// The view of a diagnostic.
pub enum CompileErrorV {
    Lexical(LexicalError),
    Syntax(SyntaxError),
    Resolution(Seq<char>),
    Type(TypeErrorV),
    Definition(Seq<char>),
    ScopeSync,
}

/// The view of a diagnostic: owned names become character sequences.
/// Tokens inside syntax errors are kept as they are (their own payloads are
/// compared by `crate::token::tok_eq` where needed).
pub open spec fn err_view(e: CompileError) -> CompileErrorV {
    match e {
        CompileError::Lexical(l) => CompileErrorV::Lexical(l),
        CompileError::Syntax(s) => CompileErrorV::Syntax(s),
        CompileError::Resolution(r) => CompileErrorV::Resolution(r.name@),
        CompileError::Type(t) => CompileErrorV::Type(
            match t {
                TypeError::Incompatible { left, right } => TypeErrorV::Incompatible {
                    left: base_view(left),
                    right: base_view(right),
                },
                TypeError::WrongAccessOp { member, expected } => TypeErrorV::WrongAccessOp {
                    member: member@,
                    expected,
                },
                TypeError::NotIndexable { name } => TypeErrorV::NotIndexable { name: name@ },
                TypeError::IndexedLiteral => TypeErrorV::IndexedLiteral,
                TypeError::NotAStruct { name } => TypeErrorV::NotAStruct { name: name@ },
                TypeError::NotLeftValue => TypeErrorV::NotLeftValue,
                TypeError::NotAName => TypeErrorV::NotAName,
            },
        ),
        CompileError::Definition(d) => CompileErrorV::Definition(d.name@),
        CompileError::ScopeSync => CompileErrorV::ScopeSync,
    }
}

/// Any front-end diagnostic.
#[derive(Debug, PartialEq)]
pub enum CompileError {
    Lexical(LexicalError),
    Syntax(SyntaxError),
    Resolution(ResolutionError),
    Type(TypeError),
    Definition(DefinitionError),
    /// The checker's scope replay and the resolver's scope tree disagree.
    /// Never produced when both passes run over the same syntax tree; stated
    /// defensively because the scope table is a public structure.
    ScopeSync,
}

} // verus!
