//! The class parser: `class Name [: Supers] { ...members/methods... }`.
//!
//! Each body entry is first attempted as a method and, only on that
//! attempt's failure, as a member followed by `;` — the two grammars share
//! a `type name` prefix and only a method requires a following `(`, so
//! this ordering resolves the ambiguity. Line comments and whitespace may
//! precede any body entry and are discarded. Members and methods are
//! collected into two separate sequences in source order; their original
//! interleaving is discarded by design.

use vstd::prelude::*;

use crate::err::{ErrorKind, Outcome, ParseError};
use crate::member::{parse_member, spec_member, Member, MemberView};
use crate::method::{parse_method, spec_method, Method, MethodView};
use crate::util::{
    ascii_bytes, ident_byte, ident_end, identifier, is_wspace, lemma_ident_end, match_at,
    match_lit, scan_end, skip_wspace, spec_identifier, wspace_byte, wspace_end,
};

verus! {

/// A parsed class: its name (scope qualifiers embedded in one opaque
/// token), ordered superclass names, ordered members, and ordered methods.
#[derive(Debug, Clone, PartialEq, Eq)]
pub struct Class {
    pub name: Vec<u8>,
    pub superclasses: Vec<Vec<u8>>,
    pub methods: Vec<Method>,
    pub members: Vec<Member>,
}

/// The mathematical value of a class.
pub struct ClassView {
    pub name: Seq<u8>,
    pub superclasses: Seq<Seq<u8>>,
    pub methods: Seq<MethodView>,
    pub members: Seq<MemberView>,
}

/// The token texts of a superclass-name sequence.
pub open spec fn names_view(ns: Seq<Vec<u8>>) -> Seq<Seq<u8>> {
    Seq::new(ns.len(), |i: int| ns[i]@)
}

/// The values of a member sequence.
pub open spec fn members_view(ms: Seq<Member>) -> Seq<MemberView> {
    Seq::new(ms.len(), |i: int| ms[i]@)
}

/// The values of a method sequence.
pub open spec fn methods_view(fs: Seq<Method>) -> Seq<MethodView> {
    Seq::new(fs.len(), |i: int| fs[i]@)
}

impl View for Class {
    type V = ClassView;

    open spec fn view(&self) -> ClassView {
        ClassView {
            name: self.name@,
            superclasses: names_view(self.superclasses@),
            methods: methods_view(self.methods@),
            members: members_view(self.members@),
        }
    }
}

/// The end of the line-comment text starting at `i`: everything up to the
/// next line feed or the end of the input.
pub open spec fn line_end(s: Seq<u8>, i: int) -> int {
    scan_end(s, i, |b: u8| b != 10)
}

/// Advances past non-line-feed bytes.
fn skip_line(s: &[u8], pos: usize) -> (r: usize)
    requires
        pos <= s@.len(),
    ensures
        r == line_end(s@, pos as int),
        pos <= r <= s@.len(),
{
    let mut i = pos;
    while i < s.len() && s[i] != 10
        invariant
            pos <= i <= s@.len(),
            line_end(s@, pos as int) == line_end(s@, i as int),
        decreases s@.len() - i,
    {
        i = i + 1;
    }
    i
}

/// The end of a run of whitespace and `//` line comments starting at `i`.
pub open spec fn trivia_end(s: Seq<u8>, i: int) -> int
    decreases s.len() - i
        when 0 <= i <= s.len()
{
    let w = wspace_end(s, i);
    if 0 <= w && w < s.len() && s[w] == '/' as u8 && w + 1 < s.len() && s[w + 1] == '/' as u8 {
        let e = line_end(s, w + 2);
        let n = if e < s.len() {
            e + 1
        } else {
            e
        };
        if i < n <= s.len() {
            trivia_end(s, n)
        } else {
            n
        }
    } else {
        w
    }
}

/// Advances past whitespace and `//` line comments.
fn skip_trivia(s: &[u8], pos: usize) -> (r: usize)
    requires
        pos <= s@.len(),
    ensures
        r == trivia_end(s@, pos as int),
        pos <= r <= s@.len(),
{
    let mut i = pos;
    loop
        invariant
            pos <= i <= s@.len(),
            trivia_end(s@, pos as int) == trivia_end(s@, i as int),
        decreases s@.len() - i,
    {
        let w = skip_wspace(s, i);
        if w < s.len() && s[w] == 47 && w + 1 < s.len() && s[w + 1] == 47 {
            let e = skip_line(s, w + 2);
            if e < s.len() {
                i = e + 1;
            } else {
                i = e;
            }
        } else {
            return w;
        }
    }
}

/// The superclass names from the second one on, starting at a name.
/// After each name, a comma (with surrounding whitespace) continues the
/// list; anything else ends it just past the last name.
pub open spec fn spec_supers_ne(s: Seq<u8>, i: int) -> Outcome<Seq<Seq<u8>>>
    decreases s.len() - i
        when 0 <= i <= s.len()
{
    match spec_identifier(s, i) {
        Outcome::Failed { kind, at } => Outcome::Failed { kind, at },
        Outcome::Found { v: nm, next: j } => {
            let w = wspace_end(s, j);
            if 0 <= w && w < s.len() && s[w] == ',' as u8 {
                let k = wspace_end(s, w + 1);
                if i < k <= s.len() {
                    crate::err::prepend_found(seq![nm], spec_supers_ne(s, k))
                } else {
                    Outcome::Failed { kind: ErrorKind::InvalidIdentifier, at: w }
                }
            } else {
                Outcome::Found { v: seq![nm], next: j }
            }
        },
    }
}

/// The superclass list after a `:`: whitespace, then at least one name —
/// `InvalidSuperclassList` when no valid name follows the colon.
pub open spec fn spec_supers(s: Seq<u8>, i: int) -> Outcome<Seq<Seq<u8>>>
    decreases s.len() - i
        when 0 <= i <= s.len()
{
    let q = wspace_end(s, i);
    if ident_end(s, q) == q {
        Outcome::Failed { kind: ErrorKind::InvalidSuperclassList, at: q }
    } else if i <= q <= s.len() {
        spec_supers_ne(s, q)
    } else {
        Outcome::Failed { kind: ErrorKind::InvalidSuperclassList, at: q }
    }
}

/// Parses the superclass list after a `:`, leaving the cursor just past
/// the last name.
fn parse_supers(s: &[u8], pos: usize) -> (r: Result<(Vec<Vec<u8>>, usize), ParseError>)
    requires
        pos <= s@.len(),
    ensures
        match spec_supers(s@, pos as int) {
            Outcome::Found { v, next } => r is Ok && names_view(r->Ok_0.0@) == v && r->Ok_0.1
                as int == next,
            Outcome::Failed { kind, at } => r is Err && r->Err_0.kind == kind && r->Err_0.offset
                as int == at,
        },
        r is Ok ==> pos <= r->Ok_0.1 <= s@.len(),
{
    let q = skip_wspace(s, pos);
    if q >= s.len() || !ident_byte(s[q]) {
        return Err(ParseError { kind: ErrorKind::InvalidSuperclassList, offset: q });
    }
    let mut acc: Vec<Vec<u8>> = Vec::new();
    let mut cur = q;
    let ghost start = q as int;
    proof {
        lemma_ident_end(s@, start);
    }
    loop
        invariant
            pos <= cur <= s@.len(),
            start <= cur,
            ident_end(s@, start) != start,
            spec_supers(s@, pos as int) == spec_supers_ne(s@, start),
            spec_supers_ne(s@, start) == crate::err::prepend_found(
                names_view(acc@),
                spec_supers_ne(s@, cur as int),
            ),
        decreases s@.len() - cur,
    {
        let ghost prev = acc@;
        match identifier(s, cur) {
            Err(e) => {
                return Err(e);
            },
            Ok((nm, j)) => {
                let ghost nv = nm@;
                let w = skip_wspace(s, j);
                if w < s.len() && s[w] == 44 {
                    let k = skip_wspace(s, w + 1);
                    acc.push(nm);
                    proof {
                        assert(names_view(acc@) =~= names_view(prev) + seq![nv]);
                        match spec_supers_ne(s@, k as int) {
                            Outcome::Found { v, next } => {
                                assert((names_view(prev) + seq![nv]) + v =~= names_view(prev) + (
                                seq![nv] + v));
                            },
                            Outcome::Failed { .. } => {},
                        }
                    }
                    cur = k;
                } else {
                    acc.push(nm);
                    proof {
                        assert(names_view(acc@) =~= names_view(prev) + seq![nv]);
                        assert(names_view(prev) + seq![nv] =~= names_view(prev) + (seq![nv]
                            + Seq::<Seq<u8>>::empty()));
                        assert(spec_supers_ne(s@, cur as int) == (Outcome::Found {
                            v: seq![nv],
                            next: j as int,
                        }));
                    }
                    return Ok((acc, j));
                }
            },
        }
    }
}

/// One class-body entry: a method if one parses here, otherwise a member
/// followed (after optional whitespace) by its `;`. When neither parses,
/// the member attempt's failure is reported.
pub open spec fn spec_child(s: Seq<u8>, i: int) -> Outcome<ChildView> {
    match spec_method(s, i) {
        Outcome::Found { v, next } => Outcome::Found { v: ChildView::MethodChild(v), next },
        Outcome::Failed { .. } => match spec_member(s, i) {
            Outcome::Failed { kind, at } => Outcome::Failed { kind, at },
            Outcome::Found { v: m, next: j } => {
                let w = wspace_end(s, j);
                if 0 <= w && w < s.len() && s[w] == ';' as u8 {
                    Outcome::Found { v: ChildView::MemberChild(m), next: w + 1 }
                } else {
                    Outcome::Failed { kind: ErrorKind::MissingSeparator, at: w }
                }
            },
        },
    }
}

/// The value of one class-body entry.
pub enum ChildView {
    MethodChild(MethodView),
    MemberChild(MemberView),
}

/// The class-body entries from `i` up to the closing `}`, each preceded by
/// an optional run of whitespace and comments, partitioned into members
/// and methods in source order; `UnclosedBody` when the input ends before
/// the closing brace.
pub open spec fn spec_children(s: Seq<u8>, i: int) -> Outcome<(Seq<MemberView>, Seq<MethodView>)>
    decreases s.len() - i
        when 0 <= i <= s.len()
{
    let w = trivia_end(s, i);
    if 0 <= w && w < s.len() && s[w] == '}' as u8 {
        Outcome::Found { v: (Seq::empty(), Seq::empty()), next: w + 1 }
    } else if w >= s.len() {
        Outcome::Failed { kind: ErrorKind::UnclosedBody, at: w }
    } else {
        match spec_child(s, w) {
            Outcome::Failed { kind, at } => Outcome::Failed { kind, at },
            Outcome::Found { v: c, next: e } => {
                if i < e <= s.len() {
                    match spec_children(s, e) {
                        Outcome::Failed { kind, at } => Outcome::Failed { kind, at },
                        Outcome::Found { v: rest, next } => Outcome::Found {
                            v: match c {
                                ChildView::MemberChild(m) => (seq![m] + rest.0, rest.1),
                                ChildView::MethodChild(f) => (rest.0, seq![f] + rest.1),
                            },
                            next,
                        },
                    }
                } else {
                    Outcome::Failed { kind: ErrorKind::UnclosedBody, at: w }
                }
            },
        }
    }
}

/// Prefixes already-parsed members and methods onto the outcome of the
/// rest of a class body.
pub open spec fn prepend_children(
    ms: Seq<MemberView>,
    fs: Seq<MethodView>,
    o: Outcome<(Seq<MemberView>, Seq<MethodView>)>,
) -> Outcome<(Seq<MemberView>, Seq<MethodView>)> {
    match o {
        Outcome::Found { v, next } => Outcome::Found { v: (ms + v.0, fs + v.1), next },
        Outcome::Failed { kind, at } => Outcome::Failed { kind, at },
    }
}

/// Parses the class-body entries from `pos` through the closing `}`.
fn parse_children(s: &[u8], pos: usize) -> (r: Result<((Vec<Member>, Vec<Method>), usize),
    ParseError>)
    requires
        pos <= s@.len(),
    ensures
        match spec_children(s@, pos as int) {
            Outcome::Found { v, next } => r is Ok && members_view(r->Ok_0.0.0@) == v.0
                && methods_view(r->Ok_0.0.1@) == v.1 && r->Ok_0.1 as int == next,
            Outcome::Failed { kind, at } => r is Err && r->Err_0.kind == kind && r->Err_0.offset
                as int == at,
        },
        r is Ok ==> pos < r->Ok_0.1 <= s@.len(),
{
    let mut ms: Vec<Member> = Vec::new();
    let mut fs: Vec<Method> = Vec::new();
    let mut cur = pos;
    loop
        invariant
            pos <= cur <= s@.len(),
            spec_children(s@, pos as int) == prepend_children(
                members_view(ms@),
                methods_view(fs@),
                spec_children(s@, cur as int),
            ),
        decreases s@.len() - cur,
    {
        let ghost pm = ms@;
        let ghost pf = fs@;
        let w = skip_trivia(s, cur);
        if w < s.len() && s[w] == 125 {
            proof {
                assert(members_view(pm) + Seq::<MemberView>::empty() =~= members_view(pm));
                assert(methods_view(pf) + Seq::<MethodView>::empty() =~= methods_view(pf));
            }
            return Ok(((ms, fs), w + 1));
        }
        if w >= s.len() {
            return Err(ParseError { kind: ErrorKind::UnclosedBody, offset: w });
        }
        match parse_method(s, w) {
            Ok((f, e)) => {
                let ghost fv = f@;
                fs.push(f);
                proof {
                    assert(methods_view(fs@) =~= methods_view(pf) + seq![fv]);
                    match spec_children(s@, e as int) {
                        Outcome::Found { v, next } => {
                            assert((methods_view(pf) + seq![fv]) + v.1 =~= methods_view(pf) + (
                            seq![fv] + v.1));
                        },
                        Outcome::Failed { .. } => {},
                    }
                }
                cur = e;
            },
            Err(_) => {
                match parse_member(s, w) {
                    Err(e) => {
                        return Err(e);
                    },
                    Ok((m, j)) => {
                        let t = skip_wspace(s, j);
                        if !(t < s.len() && s[t] == 59) {
                            return Err(
                                ParseError { kind: ErrorKind::MissingSeparator, offset: t },
                            );
                        }
                        let ghost mv = m@;
                        ms.push(m);
                        proof {
                            assert(members_view(ms@) =~= members_view(pm) + seq![mv]);
                            match spec_children(s@, t + 1) {
                                Outcome::Found { v, next } => {
                                    assert((members_view(pm) + seq![mv]) + v.0 =~= members_view(pm)
                                        + (seq![mv] + v.0));
                                },
                                Outcome::Failed { .. } => {},
                            }
                        }
                        cur = t + 1;
                    },
                }
            },
        }
    }
}

/// The tail of a class declaration after its name and superclass list:
/// whitespace, the brace-delimited body, and the assembled value.
pub open spec fn spec_class_tail(s: Seq<u8>, i: int, nm: Seq<u8>, sups: Seq<Seq<u8>>) -> Outcome<
    ClassView,
> {
    let w = wspace_end(s, i);
    if 0 <= w && w < s.len() && s[w] == '{' as u8 {
        match spec_children(s, w + 1) {
            Outcome::Failed { kind, at } => Outcome::Failed { kind, at },
            Outcome::Found { v, next } => Outcome::Found {
                v: ClassView { name: nm, superclasses: sups, methods: v.1, members: v.0 },
                next,
            },
        }
    } else {
        Outcome::Failed { kind: ErrorKind::UnclosedBody, at: w }
    }
}

/// A class declaration starting at `i`: the `class` keyword and required
/// whitespace, the class name (`InvalidName` when absent or illegal), an
/// optional `:`-introduced superclass list, and the brace-delimited body
/// (`UnclosedBody` when the opening brace is absent or never balanced).
pub open spec fn spec_class(s: Seq<u8>, i: int) -> Outcome<ClassView> {
    if !(match_at(s, i, ascii_bytes("class"@)) && i + 5 < s.len() && is_wspace(s[i + 5])) {
        Outcome::Failed { kind: ErrorKind::InvalidName, at: i }
    } else {
        let k = wspace_end(s, i + 5);
        if ident_end(s, k) == k {
            Outcome::Failed { kind: ErrorKind::InvalidName, at: k }
        } else {
            let nm = s.subrange(k, ident_end(s, k));
            let p = ident_end(s, k);
            let w = wspace_end(s, p);
            if 0 <= w && w < s.len() && s[w] == ':' as u8 {
                match spec_supers(s, w + 1) {
                    Outcome::Failed { kind, at } => Outcome::Failed { kind, at },
                    Outcome::Found { v: sups, next: sp } => spec_class_tail(s, sp, nm, sups),
                }
            } else {
                spec_class_tail(s, p, nm, Seq::empty())
            }
        }
    }
}

/// Relates an executable class result to its specification-level outcome.
pub open spec fn matches_class_outcome(
    r: Result<(Class, usize), ParseError>,
    o: Outcome<ClassView>,
) -> bool {
    match o {
        Outcome::Found { v, next } => {
            &&& r is Ok
            &&& r->Ok_0.0@ == v
            &&& r->Ok_0.1 as int == next
        },
        Outcome::Failed { kind, at } => {
            &&& r is Err
            &&& r->Err_0.kind == kind
            &&& r->Err_0.offset as int == at
        },
    }
}

/// Parses one class declaration.
pub fn parse_class(s: &[u8], pos: usize) -> (r: Result<(Class, usize), ParseError>)
    requires
        pos <= s@.len(),
    ensures
        matches_class_outcome(r, spec_class(s@, pos as int)),
        r is Ok ==> pos < r->Ok_0.1 <= s@.len(),
{
    proof {
        reveal_strlit("class");
    }
    if !(match_lit(s, pos, "class") && pos + 5 < s.len() && wspace_byte(s[pos + 5])) {
        return Err(ParseError { kind: ErrorKind::InvalidName, offset: pos });
    }
    let k = skip_wspace(s, pos + 5);
    let (nm, p) = match identifier(s, k) {
        Err(_) => {
            return Err(ParseError { kind: ErrorKind::InvalidName, offset: k });
        },
        Ok(v) => v,
    };
    let w = skip_wspace(s, p);
    let (sups, sp) = if w < s.len() && s[w] == 58 {
        match parse_supers(s, w + 1) {
            Err(e) => {
                return Err(e);
            },
            Ok(v) => v,
        }
    } else {
        (Vec::new(), p)
    };
    let t = skip_wspace(s, sp);
    if !(t < s.len() && s[t] == 123) {
        return Err(ParseError { kind: ErrorKind::UnclosedBody, offset: t });
    }
    match parse_children(s, t + 1) {
        Err(e) => Err(e),
        Ok(((members, methods), next)) => {
            let c = Class { name: nm, superclasses: sups, methods, members };
            proof {
                if !(w < s@.len() && s@[w as int] == 58) {
                    assert(names_view(c.superclasses@) =~= Seq::<Seq<u8>>::empty());
                }
            }
            Ok((c, next))
        },
    }
}

} // verus!
