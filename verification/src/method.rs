//! The method parser: an optional `virtual`/`static` modifier, a
//! signature, an `= bindlist` suffix, and either a `;` terminator or an
//! opaque brace-balanced body.
//!
//! Body scanning is brace-balanced with an explicit depth counter: the
//! counter starts at 1 just after the opening `{`, moves on every further
//! `{` or `}`, and the body ends only when it reaches 0 — bodies may nest
//! braces arbitrarily, so matching the first `}` would be incorrect. Body
//! contents are discarded entirely, never interpreted.

use vstd::prelude::*;

use crate::bind::{bind_wf, parse_bind, spec_bind, Bind};
use crate::err::{prepend_found, ErrorKind, Outcome, ParseError};
use crate::member::{parse_pair, spec_pair};
use crate::util::{
    ascii_bytes, copy_bytes, hspace_end, is_wspace, match_at, match_lit, skip_hspace, skip_wspace,
    wspace_byte, wspace_end,
};

verus! {

/// One positional parameter of a method: its type text and its name.
#[derive(Debug, Clone, PartialEq, Eq)]
pub struct TypedParameter {
    pub ty: Vec<u8>,
    pub name: Vec<u8>,
}

impl View for TypedParameter {
    type V = (Seq<u8>, Seq<u8>);

    open spec fn view(&self) -> (Seq<u8>, Seq<u8>) {
        (self.ty@, self.name@)
    }
}

impl TypedParameter {
    /// Builds a parameter from its two token texts.
    pub fn new(ty: &[u8], name: &[u8]) -> (r: Self)
        ensures
            r@ == (ty@, name@),
    {
        let r = TypedParameter {
            ty: copy_bytes(ty, 0, ty.len()),
            name: copy_bytes(name, 0, name.len()),
        };
        proof {
            assert(r.ty@ =~= ty@);
            assert(r.name@ =~= name@);
        }
        r
    }
}

/// A method: its name, return type, ordered parameters, per-platform
/// address table, and modifier flags. The modifier is at most one of
/// `virtual` or `static`, so the two flags are never both set.
#[derive(Debug, Clone, PartialEq, Eq)]
pub struct Method {
    pub name: Vec<u8>,
    pub return_type: Vec<u8>,
    pub params: Vec<TypedParameter>,
    pub bind: Bind,
    /// Whether the method carries the `virtual` modifier.
    pub virt: bool,
    /// Whether the method carries the `static` modifier.
    pub stat: bool,
}

/// The mathematical value of a method.
pub struct MethodView {
    pub name: Seq<u8>,
    pub return_type: Seq<u8>,
    pub params: Seq<(Seq<u8>, Seq<u8>)>,
    pub bind: Bind,
    pub virt: bool,
    pub stat: bool,
}

/// The token texts of a parameter sequence.
pub open spec fn params_view(ps: Seq<TypedParameter>) -> Seq<(Seq<u8>, Seq<u8>)> {
    Seq::new(ps.len(), |i: int| ps[i]@)
}

impl View for Method {
    type V = MethodView;

    open spec fn view(&self) -> MethodView {
        MethodView {
            name: self.name@,
            return_type: self.return_type@,
            params: params_view(self.params@),
            bind: self.bind,
            virt: self.virt,
            stat: self.stat,
        }
    }
}

/// A non-empty parameter list starting at `i` (just after `(` or after a
/// comma): `type name` pairs separated by commas with optional
/// surrounding horizontal space, closed by `)`.
pub open spec fn spec_params_ne(s: Seq<u8>, i: int) -> Outcome<Seq<(Seq<u8>, Seq<u8>)>>
    decreases s.len() - i
        when 0 <= i <= s.len()
{
    match spec_pair(s, i) {
        Outcome::Failed { kind, at } => Outcome::Failed { kind, at },
        Outcome::Found { v: p, next: j } => {
            let h = hspace_end(s, j);
            if 0 <= h && h < s.len() && s[h] == ')' as u8 {
                Outcome::Found { v: seq![p], next: h + 1 }
            } else if 0 <= h && h < s.len() && s[h] == ',' as u8 {
                let k = hspace_end(s, h + 1);
                if i < k <= s.len() {
                    prepend_found(seq![p], spec_params_ne(s, k))
                } else {
                    Outcome::Failed { kind: ErrorKind::MissingSeparator, at: h }
                }
            } else {
                Outcome::Failed { kind: ErrorKind::MissingSeparator, at: h }
            }
        },
    }
}

/// A parameter list starting at `i`, just after the opening `(`: either
/// an immediate `)` for zero parameters, or one or more pairs.
pub open spec fn spec_params(s: Seq<u8>, i: int) -> Outcome<Seq<(Seq<u8>, Seq<u8>)>> {
    if 0 <= i && i < s.len() && s[i] == ')' as u8 {
        Outcome::Found { v: Seq::empty(), next: i + 1 }
    } else {
        spec_params_ne(s, i)
    }
}

/// Relates an executable parameter-list result to its specification-level
/// outcome.
pub open spec fn matches_params_outcome(
    r: Result<(Vec<TypedParameter>, usize), ParseError>,
    o: Outcome<Seq<(Seq<u8>, Seq<u8>)>>,
) -> bool {
    match o {
        Outcome::Found { v, next } => {
            &&& r is Ok
            &&& params_view(r->Ok_0.0@) == v
            &&& r->Ok_0.1 as int == next
        },
        Outcome::Failed { kind, at } => {
            &&& r is Err
            &&& r->Err_0.kind == kind
            &&& r->Err_0.offset as int == at
        },
    }
}

/// Parses a parameter list, starting just after the opening `(` and
/// consuming the closing `)`.
fn parse_params(s: &[u8], pos: usize) -> (r: Result<(Vec<TypedParameter>, usize), ParseError>)
    requires
        pos <= s@.len(),
    ensures
        matches_params_outcome(r, spec_params(s@, pos as int)),
        r is Ok ==> pos < r->Ok_0.1 <= s@.len(),
{
    if pos < s.len() && s[pos] == 41 {
        let empty: Vec<TypedParameter> = Vec::new();
        proof {
            assert(params_view(empty@) =~= Seq::<(Seq<u8>, Seq<u8>)>::empty());
        }
        return Ok((empty, pos + 1));
    }
    let mut acc: Vec<TypedParameter> = Vec::new();
    let mut cur = pos;
    loop
        invariant
            pos <= cur <= s@.len(),
            spec_params(s@, pos as int) == spec_params_ne(s@, pos as int),
            spec_params_ne(s@, pos as int) == prepend_found(
                params_view(acc@),
                spec_params_ne(s@, cur as int),
            ),
        decreases s@.len() - cur,
    {
        let ghost prev = acc@;
        match parse_pair(s, cur) {
            Err(e) => {
                return Err(e);
            },
            Ok(((ty, nm), j)) => {
                let tp = TypedParameter { ty, name: nm };
                let ghost p = tp@;
                let h = skip_hspace(s, j);
                if h < s.len() && s[h] == 41 {
                    acc.push(tp);
                    proof {
                        assert(params_view(acc@) =~= params_view(prev) + seq![p]);
                        assert(params_view(prev) + seq![p] =~= params_view(prev) + (
                        seq![p] + Seq::empty()));
                        assert(spec_params_ne(s@, cur as int) == (Outcome::Found {
                            v: seq![p],
                            next: h + 1,
                        }));
                        assert(params_view(prev) + seq![p] =~= params_view(acc@));
                    }
                    return Ok((acc, h + 1));
                } else if h < s.len() && s[h] == 44 {
                    let k = skip_hspace(s, h + 1);
                    acc.push(tp);
                    proof {
                        assert(params_view(acc@) =~= params_view(prev) + seq![p]);
                        match spec_params_ne(s@, k as int) {
                            Outcome::Found { v, next } => {
                                assert((params_view(prev) + seq![p]) + v =~= params_view(prev) + (
                                seq![p] + v));
                            },
                            Outcome::Failed { .. } => {},
                        }
                    }
                    cur = k;
                } else {
                    return Err(ParseError { kind: ErrorKind::MissingSeparator, offset: h });
                }
            },
        }
    }
}

/// The offset just past the close of a brace group whose contents start at
/// `i` with `depth` braces already open, or `None` when the group never
/// closes before the input ends.
pub open spec fn body_end_from(s: Seq<u8>, i: int, depth: int) -> Option<int>
    decreases s.len() - i
        when 0 <= i <= s.len() && depth >= 1
{
    if i >= s.len() {
        None
    } else if s[i] == '}' as u8 {
        if depth == 1 {
            Some(i + 1)
        } else {
            body_end_from(s, i + 1, depth - 1)
        }
    } else if s[i] == '{' as u8 {
        body_end_from(s, i + 1, depth + 1)
    } else {
        body_end_from(s, i + 1, depth)
    }
}

/// Skips an opaque brace-balanced body whose opening `{` stands at `pos`,
/// with an explicit depth counter rather than call recursion.
fn skip_body(s: &[u8], pos: usize) -> (r: Result<usize, ParseError>)
    requires
        pos < s@.len(),
        s@[pos as int] == '{' as u8,
    ensures
        match body_end_from(s@, pos + 1, 1) {
            Some(e) => r is Ok && r->Ok_0 as int == e,
            None => r is Err && r->Err_0 == (ParseError {
                kind: ErrorKind::UnterminatedBody,
                offset: pos,
            }),
        },
        r is Ok ==> pos < r->Ok_0 <= s@.len(),
{
    let end = s.len();
    let mut i = pos + 1;
    let mut depth: usize = 1;
    loop
        invariant
            end == s@.len(),
            pos + 1 <= i <= s@.len(),
            1 <= depth <= i,
            body_end_from(s@, pos + 1, 1) == body_end_from(s@, i as int, depth as int),
        decreases s@.len() - i,
    {
        if i >= end {
            return Err(ParseError { kind: ErrorKind::UnterminatedBody, offset: pos });
        }
        let c = s[i];
        if c == 125 {
            if depth == 1 {
                return Ok(i + 1);
            }
            depth = depth - 1;
        } else if c == 123 {
            depth = depth + 1;
        }
        i = i + 1;
    }
}

/// Whether a `virtual` modifier followed by required whitespace stands at
/// `w`.
pub open spec fn modifier_virtual(s: Seq<u8>, w: int) -> bool {
    &&& match_at(s, w, ascii_bytes("virtual"@))
    &&& w + 7 < s.len()
    &&& is_wspace(s[w + 7])
}

/// Whether a `static` modifier followed by required whitespace stands at
/// `w`.
pub open spec fn modifier_static(s: Seq<u8>, w: int) -> bool {
    &&& match_at(s, w, ascii_bytes("static"@))
    &&& w + 6 < s.len()
    &&& is_wspace(s[w + 6])
}

/// Where the method signature begins, after any modifier and the
/// whitespace that follows it.
pub open spec fn sig_start(s: Seq<u8>, w: int) -> int {
    if modifier_virtual(s, w) {
        wspace_end(s, w + 7)
    } else if modifier_static(s, w) {
        wspace_end(s, w + 6)
    } else {
        w
    }
}

/// A method declaration starting at `i`: leading whitespace, an optional
/// modifier, a `return-type name` pair, a parenthesized parameter list,
/// an `= bindlist` suffix (its absence, a missing `(`, or a missing final
/// terminator is `MissingBind`), and either `;` or a brace-balanced body.
pub open spec fn spec_method(s: Seq<u8>, i: int) -> Outcome<MethodView> {
    let w = wspace_end(s, i);
    let m = sig_start(s, w);
    let virt = modifier_virtual(s, w);
    let stat = !virt && modifier_static(s, w);
    match spec_pair(s, m) {
        Outcome::Failed { kind, at } => Outcome::Failed { kind, at },
        Outcome::Found { v: sig, next: p } => {
            if 0 <= p && p < s.len() && s[p] == '(' as u8 {
                match spec_params(s, p + 1) {
                    Outcome::Failed { kind, at } => Outcome::Failed { kind, at },
                    Outcome::Found { v: ps, next: q } => {
                        let eq = wspace_end(s, q);
                        if 0 <= eq && eq < s.len() && s[eq] == '=' as u8 {
                            let b = wspace_end(s, eq + 1);
                            match spec_bind(s, b) {
                                Outcome::Failed { kind, at } => Outcome::Failed { kind, at },
                                Outcome::Found { v: bind, next: t } => {
                                    let u = wspace_end(s, t);
                                    let mv = MethodView {
                                        name: sig.1,
                                        return_type: sig.0,
                                        params: ps,
                                        bind: bind,
                                        virt: virt,
                                        stat: stat,
                                    };
                                    if 0 <= u && u < s.len() && s[u] == ';' as u8 {
                                        Outcome::Found { v: mv, next: u + 1 }
                                    } else if 0 <= u && u < s.len() && s[u] == '{' as u8 {
                                        match body_end_from(s, u + 1, 1) {
                                            Some(e) => Outcome::Found { v: mv, next: e },
                                            None => Outcome::Failed {
                                                kind: ErrorKind::UnterminatedBody,
                                                at: u,
                                            },
                                        }
                                    } else {
                                        Outcome::Failed { kind: ErrorKind::MissingBind, at: u }
                                    }
                                },
                            }
                        } else {
                            Outcome::Failed { kind: ErrorKind::MissingBind, at: eq }
                        }
                    },
                }
            } else {
                Outcome::Failed { kind: ErrorKind::MissingBind, at: p }
            }
        },
    }
}

/// The modifier is at most one of `virtual` or `static`: a parsed method
/// never carries both flags.
pub proof fn lemma_modifier_exclusive(s: Seq<u8>, i: int)
    ensures
        spec_method(s, i) matches Outcome::Found { v, next } ==> !(v.virt && v.stat),
{
}

/// Relates an executable method result to its specification-level outcome.
pub open spec fn matches_method_outcome(
    r: Result<(Method, usize), ParseError>,
    o: Outcome<MethodView>,
) -> bool {
    match o {
        Outcome::Found { v, next } => {
            &&& r is Ok
            &&& r->Ok_0.0@ == v
            &&& r->Ok_0.1 as int == next
        },
        Outcome::Failed { kind, at } => {
            &&& r is Err
            &&& r->Err_0.kind == kind
            &&& r->Err_0.offset as int == at
        },
    }
}

/// Parses one method declaration.
pub fn parse_method(s: &[u8], pos: usize) -> (r: Result<(Method, usize), ParseError>)
    requires
        pos <= s@.len(),
    ensures
        matches_method_outcome(r, spec_method(s@, pos as int)),
        r is Ok ==> pos < r->Ok_0.1 <= s@.len(),
        r is Ok ==> bind_wf(r->Ok_0.0.bind),
{
    proof {
        reveal_strlit("virtual");
        reveal_strlit("static");
    }
    let w = skip_wspace(s, pos);
    let virt = match_lit(s, w, "virtual") && w + 7 < s.len() && wspace_byte(s[w + 7]);
    let stat = !virt && match_lit(s, w, "static") && w + 6 < s.len() && wspace_byte(s[w + 6]);
    let m = if virt {
        skip_wspace(s, w + 7)
    } else if stat {
        skip_wspace(s, w + 6)
    } else {
        w
    };
    let (rt, nm, p) = match parse_pair(s, m) {
        Err(e) => {
            return Err(e);
        },
        Ok(((rt, nm), p)) => (rt, nm, p),
    };
    if !(p < s.len() && s[p] == 40) {
        return Err(ParseError { kind: ErrorKind::MissingBind, offset: p });
    }
    let (params, q) = match parse_params(s, p + 1) {
        Err(e) => {
            return Err(e);
        },
        Ok(v) => v,
    };
    let eq = skip_wspace(s, q);
    if !(eq < s.len() && s[eq] == 61) {
        return Err(ParseError { kind: ErrorKind::MissingBind, offset: eq });
    }
    let b = skip_wspace(s, eq + 1);
    let (bind, t) = match parse_bind(s, b) {
        Err(e) => {
            return Err(e);
        },
        Ok(v) => v,
    };
    let u = skip_wspace(s, t);
    let method = Method { name: nm, return_type: rt, params, bind, virt, stat };
    if u < s.len() && s[u] == 59 {
        Ok((method, u + 1))
    } else if u < s.len() && s[u] == 123 {
        match skip_body(s, u) {
            Err(e) => Err(e),
            Ok(e) => Ok((method, e)),
        }
    } else {
        Err(ParseError { kind: ErrorKind::MissingBind, offset: u })
    }
}

} // verus!
