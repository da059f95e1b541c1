//! Failure outcomes of the parsing functions.
//!
//! Every failure is a value: a kind together with the byte offset at which
//! the mismatch was found. No parsing function panics.

use vstd::prelude::*;

verus! {

/// The kind of a parse failure.
#[derive(Debug, Clone, Copy, PartialEq, Eq)]
pub enum ErrorKind {
    /// A keyword token where a platform was expected is not a recognized
    /// platform name.
    UnknownPlatform,
    /// An address is malformed: `0x` with no valid hex digits following,
    /// a hex value too large for 64 bits, a missing space before the
    /// address, or text that is neither `inline` nor a `0x` literal.
    MalformedAddress,
    /// A bind list with zero entries.
    EmptyBind,
    /// Two bind entries adjacent with no comma between them, or a member
    /// declaration missing its `;`, or a parameter list missing a `,` or
    /// closing `)`.
    MissingSeparator,
    /// Identifier-grammar text absent where an identifier was required.
    InvalidIdentifier,
    /// A method body's opening brace never finds its balancing close.
    UnterminatedBody,
    /// A method signature lacks its `= bindlist` suffix, or the suffix is
    /// not terminated by `;` or a brace-delimited body.
    MissingBind,
    /// The text after the `class` keyword is not a legal identifier, or the
    /// `class` keyword itself is absent.
    InvalidName,
    /// A `:` after the class name is not followed by at least one valid
    /// superclass name.
    InvalidSuperclassList,
    /// A class body's opening brace never finds its balancing close, or the
    /// opening brace itself is absent.
    UnclosedBody,
}

/// A parse failure: its kind and the input offset where it occurred.
#[derive(Debug, Clone, Copy, PartialEq, Eq)]
pub struct ParseError {
    pub kind: ErrorKind,
    pub offset: usize,
}

/// The outcome of a grammar rule at the specification level: either a value
/// and the offset just past what the rule consumed, or a failure kind and
/// the offset where the mismatch was found.
pub enum Outcome<T> {
    Found { v: T, next: int },
    Failed { kind: ErrorKind, at: int },
}

/// Prefixes already-parsed items onto the outcome of the rest of a
/// repeated rule: a failure stays a failure, and a success keeps its
/// cursor but gains the prefix.
pub open spec fn prepend_found<T>(pre: Seq<T>, o: Outcome<Seq<T>>) -> Outcome<Seq<T>> {
    match o {
        Outcome::Found { v, next } => Outcome::Found { v: pre + v, next },
        Outcome::Failed { kind, at } => Outcome::Failed { kind, at },
    }
}

/// Relates an executable parse result to a specification-level outcome whose
/// value is of the same type.
pub open spec fn matches_outcome<T>(r: Result<(T, usize), ParseError>, o: Outcome<T>) -> bool {
    match o {
        Outcome::Found { v, next } => {
            &&& r is Ok
            &&& r->Ok_0.0 == v
            &&& r->Ok_0.1 as int == next
        },
        Outcome::Failed { kind, at } => {
            &&& r is Err
            &&& r->Err_0.kind == kind
            &&& r->Err_0.offset as int == at
        },
    }
}

} // verus!
