//! Lexical primitives: byte classes, whitespace and identifier scanning.
//!
//! Two whitespace flavors are kept distinct: horizontal-only (spaces and
//! tabs, legal inside one bind entry) and full whitespace including line
//! breaks (legal between structural tokens such as class and method
//! boundaries).

use vstd::prelude::*;

use crate::err::{ErrorKind, Outcome, ParseError};

verus! {

/// Horizontal whitespace: space or tab.
pub open spec fn is_hspace(b: u8) -> bool {
    b == 32 || b == 9
}

/// Full whitespace: space, tab, line feed or carriage return.
pub open spec fn is_wspace(b: u8) -> bool {
    b == 32 || b == 9 || b == 10 || b == 13
}

/// A byte of the identifier character class: letters, digits, `:` and `_`.
pub open spec fn is_ident_byte(b: u8) -> bool {
    ||| 'a' as u8 <= b <= 'z' as u8
    ||| 'A' as u8 <= b <= 'Z' as u8
    ||| '0' as u8 <= b <= '9' as u8
    ||| b == ':' as u8
    ||| b == '_' as u8
}

/// The end of the run of bytes satisfying `pred` that starts at `i`.
pub open spec fn scan_end(s: Seq<u8>, i: int, pred: spec_fn(u8) -> bool) -> int
    decreases s.len() - i
        when 0 <= i <= s.len()
{
    if i < s.len() && pred(s[i]) {
        scan_end(s, i + 1, pred)
    } else {
        i
    }
}

/// An identifier scan stays inside the input, covers only identifier
/// bytes, and stops at the first byte that is not one.
pub proof fn lemma_ident_end(s: Seq<u8>, i: int)
    requires
        0 <= i <= s.len(),
    ensures
        i <= ident_end(s, i) <= s.len(),
        forall|j: int| i <= j < ident_end(s, i) ==> is_ident_byte(s[j]),
        ident_end(s, i) < s.len() ==> !is_ident_byte(s[ident_end(s, i)]),
    decreases s.len() - i,
{
    if i < s.len() && is_ident_byte(s[i]) {
        lemma_ident_end(s, i + 1);
    }
}

/// A horizontal-whitespace scan stays inside the input, covers only
/// horizontal whitespace, and stops at the first byte that is not.
pub proof fn lemma_hspace_end(s: Seq<u8>, i: int)
    requires
        0 <= i <= s.len(),
    ensures
        i <= hspace_end(s, i) <= s.len(),
        forall|j: int| i <= j < hspace_end(s, i) ==> is_hspace(s[j]),
        hspace_end(s, i) < s.len() ==> !is_hspace(s[hspace_end(s, i)]),
    decreases s.len() - i,
{
    if i < s.len() && is_hspace(s[i]) {
        lemma_hspace_end(s, i + 1);
    }
}

/// The end of the horizontal-whitespace run starting at `i`.
pub open spec fn hspace_end(s: Seq<u8>, i: int) -> int {
    scan_end(s, i, |b: u8| is_hspace(b))
}

/// The end of the full-whitespace run starting at `i`.
pub open spec fn wspace_end(s: Seq<u8>, i: int) -> int {
    scan_end(s, i, |b: u8| is_wspace(b))
}

/// The end of the identifier-byte run starting at `i`.
pub open spec fn ident_end(s: Seq<u8>, i: int) -> int {
    scan_end(s, i, |b: u8| is_ident_byte(b))
}

fn hspace_byte(b: u8) -> (r: bool)
    ensures
        r == is_hspace(b),
{
    b == 32 || b == 9
}

pub(crate) fn wspace_byte(b: u8) -> (r: bool)
    ensures
        r == is_wspace(b),
{
    b == 32 || b == 9 || b == 10 || b == 13
}

pub(crate) fn ident_byte(b: u8) -> (r: bool)
    ensures
        r == is_ident_byte(b),
{
    (97 <= b && b <= 122) || (65 <= b && b <= 90) || (48 <= b && b <= 57) || b == 58 || b == 95
}

/// Advances past horizontal whitespace (spaces and tabs).
pub fn skip_hspace(s: &[u8], pos: usize) -> (r: usize)
    requires
        pos <= s@.len(),
    ensures
        r == hspace_end(s@, pos as int),
        pos <= r <= s@.len(),
{
    let mut i = pos;
    while i < s.len() && hspace_byte(s[i])
        invariant
            pos <= i <= s@.len(),
            hspace_end(s@, pos as int) == hspace_end(s@, i as int),
        decreases s@.len() - i,
    {
        i = i + 1;
    }
    i
}

/// Advances past full whitespace (spaces, tabs and line breaks).
pub fn skip_wspace(s: &[u8], pos: usize) -> (r: usize)
    requires
        pos <= s@.len(),
    ensures
        r == wspace_end(s@, pos as int),
        pos <= r <= s@.len(),
{
    let mut i = pos;
    while i < s.len() && wspace_byte(s[i])
        invariant
            pos <= i <= s@.len(),
            wspace_end(s@, pos as int) == wspace_end(s@, i as int),
        decreases s@.len() - i,
    {
        i = i + 1;
    }
    i
}

/// Advances past identifier bytes.
fn skip_ident(s: &[u8], pos: usize) -> (r: usize)
    requires
        pos <= s@.len(),
    ensures
        r == ident_end(s@, pos as int),
        pos <= r <= s@.len(),
{
    let mut i = pos;
    while i < s.len() && ident_byte(s[i])
        invariant
            pos <= i <= s@.len(),
            ident_end(s@, pos as int) == ident_end(s@, i as int),
        decreases s@.len() - i,
    {
        i = i + 1;
    }
    i
}

/// Copies `s[from..to]` into a fresh vector.
pub fn copy_bytes(s: &[u8], from: usize, to: usize) -> (r: Vec<u8>)
    requires
        from <= to <= s@.len(),
    ensures
        r@ == s@.subrange(from as int, to as int),
{
    let mut r: Vec<u8> = Vec::new();
    let mut i = from;
    while i < to
        invariant
            from <= i <= to <= s@.len(),
            r@ == s@.subrange(from as int, i as int),
        decreases to - i,
    {
        let b = s[i];
        r.push(b);
        proof {
            assert(r@ =~= s@.subrange(from as int, i + 1));
        }
        i = i + 1;
    }
    r
}

/// The result of scanning an identifier token: the token's bytes and the
/// offset just past it, or `InvalidIdentifier` when zero bytes match.
pub open spec fn spec_identifier(s: Seq<u8>, i: int) -> Outcome<Seq<u8>> {
    let e = ident_end(s, i);
    if e == i {
        Outcome::Failed { kind: ErrorKind::InvalidIdentifier, at: i }
    } else {
        Outcome::Found { v: s.subrange(i, e), next: e }
    }
}

/// Relates an executable result carrying copied bytes to a
/// specification-level outcome over the byte sequence.
pub open spec fn matches_bytes_outcome(
    r: Result<(Vec<u8>, usize), ParseError>,
    o: Outcome<Seq<u8>>,
) -> bool {
    match o {
        Outcome::Found { v, next } => {
            &&& r is Ok
            &&& r->Ok_0.0@ == v
            &&& r->Ok_0.1 as int == next
        },
        Outcome::Failed { kind, at } => {
            &&& r is Err
            &&& r->Err_0.kind == kind
            &&& r->Err_0.offset as int == at
        },
    }
}

/// Consumes the longest non-empty run of identifier bytes (letters, digits,
/// `:` and `_`); fails with `InvalidIdentifier` on zero bytes matched.
pub fn identifier(s: &[u8], pos: usize) -> (r: Result<(Vec<u8>, usize), ParseError>)
    requires
        pos <= s@.len(),
    ensures
        matches_bytes_outcome(r, spec_identifier(s@, pos as int)),
        r is Ok ==> pos < r->Ok_0.1 <= s@.len(),
{
    let e = skip_ident(s, pos);
    if e == pos {
        Err(ParseError { kind: ErrorKind::InvalidIdentifier, offset: pos })
    } else {
        Ok((copy_bytes(s, pos, e), e))
    }
}

/// The end of a type token starting at `i`: the identifier run plus an
/// optional trailing pointer marker `*`.
pub open spec fn type_end(s: Seq<u8>, i: int) -> int {
    let e = ident_end(s, i);
    if 0 <= e && e < s.len() && s[e] == '*' as u8 {
        e + 1
    } else {
        e
    }
}

/// The result of scanning a type token: identifier text with an optional
/// trailing `*`, or `InvalidIdentifier` when zero identifier bytes match.
pub open spec fn spec_type_text(s: Seq<u8>, i: int) -> Outcome<Seq<u8>> {
    if ident_end(s, i) == i {
        Outcome::Failed { kind: ErrorKind::InvalidIdentifier, at: i }
    } else {
        Outcome::Found { v: s.subrange(i, type_end(s, i)), next: type_end(s, i) }
    }
}

/// Consumes a type token: a non-empty identifier run, additionally
/// tolerating one trailing pointer marker `*`.
pub fn type_text(s: &[u8], pos: usize) -> (r: Result<(Vec<u8>, usize), ParseError>)
    requires
        pos <= s@.len(),
    ensures
        matches_bytes_outcome(r, spec_type_text(s@, pos as int)),
        r is Ok ==> pos < r->Ok_0.1 <= s@.len(),
{
    let e = skip_ident(s, pos);
    if e == pos {
        Err(ParseError { kind: ErrorKind::InvalidIdentifier, offset: pos })
    } else if e < s.len() && s[e] == 42 {
        Ok((copy_bytes(s, pos, e + 1), e + 1))
    } else {
        Ok((copy_bytes(s, pos, e), e))
    }
}

/// The bytes of an ASCII character sequence, character by character.
pub open spec fn ascii_bytes(cs: Seq<char>) -> Seq<u8> {
    Seq::new(cs.len(), |i: int| cs[i] as u8)
}

/// Whether the bytes of `kw` appear in `s` starting exactly at offset `i`.
pub open spec fn match_at(s: Seq<u8>, i: int, kw: Seq<u8>) -> bool {
    &&& 0 <= i
    &&& i + kw.len() <= s.len()
    &&& forall|k: int| 0 <= k < kw.len() ==> s[i + k] == kw[k]
}

/// Compares the input at `pos` against a literal ASCII keyword.
pub fn match_lit(s: &[u8], pos: usize, kw: &str) -> (b: bool)
    requires
        pos <= s@.len(),
        vstd::string::is_ascii(kw),
    ensures
        b == match_at(s@, pos as int, ascii_bytes(kw@)),
        s@.len() <= usize::MAX,
{
    let kb: &[u8] = kw.as_bytes();
    proof {
        vstd::string::is_ascii_spec_bytes(kw);
        assert(kb@ =~= ascii_bytes(kw@));
    }
    if s.len() - pos < kb.len() {
        return false;
    }
    let mut k: usize = 0;
    while k < kb.len()
        invariant
            pos + kb@.len() <= s@.len(),
            s@.len() <= usize::MAX,
            k <= kb@.len(),
            kb@ == ascii_bytes(kw@),
            forall|j: int| 0 <= j < k ==> s@[pos + j] == kb@[j],
        decreases kb@.len() - k,
    {
        if s[pos + k] != kb[k] {
            return false;
        }
        k = k + 1;
    }
    true
}

} // verus!
