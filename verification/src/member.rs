//! The member / typed-pair parser: a `type name` pair drawn from the
//! identifier grammar, the type additionally tolerating a trailing
//! pointer marker. The pair is used both for standalone member
//! declarations and, by the method parser, for parameter lists.

use vstd::prelude::*;

use crate::err::{ErrorKind, Outcome, ParseError};
use crate::util::{spec_identifier, spec_type_text, identifier, type_text, wspace_end, skip_wspace};

verus! {

/// A typed data member of a class: its type text and its name.
#[derive(Debug, Clone, PartialEq, Eq)]
pub struct Member {
    pub ty: Vec<u8>,
    pub name: Vec<u8>,
}

/// The mathematical value of a member: its two token texts.
pub struct MemberView {
    pub ty: Seq<u8>,
    pub name: Seq<u8>,
}

impl View for Member {
    type V = MemberView;

    open spec fn view(&self) -> MemberView {
        MemberView { ty: self.ty@, name: self.name@ }
    }
}

/// A `type name` pair: a type token, at least one whitespace byte, and an
/// identifier.
pub open spec fn spec_pair(s: Seq<u8>, i: int) -> Outcome<(Seq<u8>, Seq<u8>)> {
    match spec_type_text(s, i) {
        Outcome::Failed { kind, at } => Outcome::Failed { kind, at },
        Outcome::Found { v: ty, next: te } => {
            let w = wspace_end(s, te);
            if w == te {
                Outcome::Failed { kind: ErrorKind::InvalidIdentifier, at: te }
            } else {
                match spec_identifier(s, w) {
                    Outcome::Failed { kind, at } => Outcome::Failed { kind, at },
                    Outcome::Found { v: nm, next: ne } => Outcome::Found {
                        v: (ty, nm),
                        next: ne,
                    },
                }
            }
        },
    }
}

/// Relates an executable result carrying two copied tokens to a
/// specification-level outcome over their byte sequences.
pub open spec fn matches_pair_outcome(
    r: Result<((Vec<u8>, Vec<u8>), usize), ParseError>,
    o: Outcome<(Seq<u8>, Seq<u8>)>,
) -> bool {
    match o {
        Outcome::Found { v, next } => {
            &&& r is Ok
            &&& r->Ok_0.0.0@ == v.0
            &&& r->Ok_0.0.1@ == v.1
            &&& r->Ok_0.1 as int == next
        },
        Outcome::Failed { kind, at } => {
            &&& r is Err
            &&& r->Err_0.kind == kind
            &&& r->Err_0.offset as int == at
        },
    }
}

/// Parses a `type name` pair.
pub fn parse_pair(s: &[u8], pos: usize) -> (r: Result<((Vec<u8>, Vec<u8>), usize), ParseError>)
    requires
        pos <= s@.len(),
    ensures
        matches_pair_outcome(r, spec_pair(s@, pos as int)),
        r is Ok ==> pos < r->Ok_0.1 <= s@.len(),
{
    let (ty, te) = match type_text(s, pos) {
        Err(e) => {
            return Err(e);
        },
        Ok(v) => v,
    };
    let w = skip_wspace(s, te);
    if w == te {
        return Err(ParseError { kind: ErrorKind::InvalidIdentifier, offset: te });
    }
    match identifier(s, w) {
        Err(e) => Err(e),
        Ok((nm, ne)) => Ok(((ty, nm), ne)),
    }
}

/// A member declaration's value: its `type name` pair.
pub open spec fn spec_member(s: Seq<u8>, i: int) -> Outcome<MemberView> {
    match spec_pair(s, i) {
        Outcome::Failed { kind, at } => Outcome::Failed { kind, at },
        Outcome::Found { v, next } => Outcome::Found {
            v: MemberView { ty: v.0, name: v.1 },
            next,
        },
    }
}

/// Relates an executable member result to its specification-level outcome.
pub open spec fn matches_member_outcome(
    r: Result<(Member, usize), ParseError>,
    o: Outcome<MemberView>,
) -> bool {
    match o {
        Outcome::Found { v, next } => {
            &&& r is Ok
            &&& r->Ok_0.0@ == v
            &&& r->Ok_0.1 as int == next
        },
        Outcome::Failed { kind, at } => {
            &&& r is Err
            &&& r->Err_0.kind == kind
            &&& r->Err_0.offset as int == at
        },
    }
}

/// Parses one member declaration: a type token, whitespace, and a name.
/// The terminating `;` that follows a member inside a class body is the
/// class parser's to consume.
pub fn parse_member(s: &[u8], pos: usize) -> (r: Result<(Member, usize), ParseError>)
    requires
        pos <= s@.len(),
    ensures
        matches_member_outcome(r, spec_member(s@, pos as int)),
        r is Ok ==> pos < r->Ok_0.1 <= s@.len(),
{
    match parse_pair(s, pos) {
        Err(e) => Err(e),
        Ok(((ty, name), next)) => Ok((Member { ty, name }, next)),
    }
}

} // verus!
