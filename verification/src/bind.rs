//! The bind-list parser: a comma-terminated sequence of
//! `platform address` entries folded into one merged address table.
//!
//! An address is either `inline` or a `0x` hex literal. A literal value of
//! exactly zero and the `inline` keyword both normalize to "no address":
//! the domain never has a real address of zero, so the collapse is a
//! deliberate, lossy one. Entries are applied in source order, last write
//! wins, and a generic alias (`mac`, `android`) writes both of its concrete
//! slots at once.

use vstd::prelude::*;

use crate::err::{matches_outcome, ErrorKind, Outcome, ParseError};
use crate::platform::{spec_platform, parse_platform, Platform};
use crate::util::{ascii_bytes, hspace_end, match_at, match_lit, scan_end, skip_hspace};

verus! {

/// The per-platform binary address table of one method. Each slot holds
/// `Some` non-zero address, or `None` for "no address" (either never
/// written, written as zero, or written as `inline`).
#[derive(Debug, Clone, Copy, PartialEq, Eq)]
pub struct Bind {
    pub win: Option<u64>,
    pub intel_mac: Option<u64>,
    pub m1_mac: Option<u64>,
    pub ios: Option<u64>,
    pub android32: Option<u64>,
    pub android64: Option<u64>,
}

/// The table with every slot untouched.
pub open spec fn empty_bind() -> Bind {
    Bind {
        win: None,
        intel_mac: None,
        m1_mac: None,
        ios: None,
        android32: None,
        android64: None,
    }
}

/// An address slot never holds an explicit zero.
pub open spec fn addr_wf(a: Option<u64>) -> bool {
    a matches Some(v) ==> v != 0
}

/// No slot of the table holds an explicit zero.
pub open spec fn bind_wf(b: Bind) -> bool {
    &&& addr_wf(b.win)
    &&& addr_wf(b.intel_mac)
    &&& addr_wf(b.m1_mac)
    &&& addr_wf(b.ios)
    &&& addr_wf(b.android32)
    &&& addr_wf(b.android64)
}

impl Default for Bind {
    /// The table with every slot untouched.
    fn default() -> (r: Bind)
        ensures
            r == empty_bind(),
    {
        Bind {
            win: None,
            intel_mac: None,
            m1_mac: None,
            ios: None,
            android32: None,
            android64: None,
        }
    }
}

/// One write into the table: a concrete platform writes its own slot, and
/// a generic alias (`mac`, `android`) writes both of its concrete slots.
pub open spec fn spec_apply(b: Bind, p: Platform, a: Option<u64>) -> Bind {
    match p {
        Platform::Windows => Bind { win: a, ..b },
        Platform::Mac => Bind { intel_mac: a, m1_mac: a, ..b },
        Platform::IntelMac => Bind { intel_mac: a, ..b },
        Platform::M1Mac => Bind { m1_mac: a, ..b },
        Platform::IOS => Bind { ios: a, ..b },
        Platform::Android => Bind { android32: a, android64: a, ..b },
        Platform::Android32 => Bind { android32: a, ..b },
        Platform::Android64 => Bind { android64: a, ..b },
    }
}

/// Applies one `platform address` entry to the table.
pub fn apply_entry(b: Bind, p: Platform, a: Option<u64>) -> (r: Bind)
    ensures
        r == spec_apply(b, p, a),
{
    match p {
        Platform::Windows => Bind { win: a, ..b },
        Platform::Mac => Bind { intel_mac: a, m1_mac: a, ..b },
        Platform::IntelMac => Bind { intel_mac: a, ..b },
        Platform::M1Mac => Bind { m1_mac: a, ..b },
        Platform::IOS => Bind { ios: a, ..b },
        Platform::Android => Bind { android32: a, android64: a, ..b },
        Platform::Android32 => Bind { android32: a, ..b },
        Platform::Android64 => Bind { android64: a, ..b },
    }
}

/// A hex digit: `0`-`9`, `a`-`f` or `A`-`F`.
pub open spec fn is_hex_digit(b: u8) -> bool {
    ||| '0' as u8 <= b <= '9' as u8
    ||| 'a' as u8 <= b <= 'f' as u8
    ||| 'A' as u8 <= b <= 'F' as u8
}

/// The numeric value of a hex digit; zero for any other byte.
pub open spec fn hex_digit_val(b: u8) -> nat {
    if '0' as u8 <= b <= '9' as u8 {
        (b - 48) as nat
    } else if 'a' as u8 <= b <= 'f' as u8 {
        (b - 87) as nat
    } else if 'A' as u8 <= b <= 'F' as u8 {
        (b - 55) as nat
    } else {
        0
    }
}

/// The end of the hex-digit run starting at `i`.
pub open spec fn hex_end(s: Seq<u8>, i: int) -> int {
    scan_end(s, i, |b: u8| is_hex_digit(b))
}

/// The unsigned value of the hex digits `s[i..j]`, most significant first.
pub open spec fn hex_value(s: Seq<u8>, i: int, j: int) -> nat
    decreases j - i,
{
    if j <= i {
        0
    } else {
        hex_value(s, i, j - 1) * 16 + hex_digit_val(s[j - 1])
    }
}

/// A longer run of digits never has a smaller value.
proof fn lemma_hex_value_mono(s: Seq<u8>, i: int, j: int, e: int)
    requires
        i <= j <= e,
    ensures
        hex_value(s, i, j) <= hex_value(s, i, e),
    decreases e - j,
{
    if j < e {
        lemma_hex_value_mono(s, i, j, e - 1);
    }
}

/// A hex scan stays inside the input, covers only hex digits, and stops
/// at the first byte that is not one.
proof fn lemma_hex_end(s: Seq<u8>, i: int)
    requires
        0 <= i <= s.len(),
    ensures
        i <= hex_end(s, i) <= s.len(),
        forall|j: int| i <= j < hex_end(s, i) ==> is_hex_digit(s[j]),
        hex_end(s, i) < s.len() ==> !is_hex_digit(s[hex_end(s, i)]),
    decreases s.len() - i,
{
    if i < s.len() && is_hex_digit(s[i]) {
        lemma_hex_end(s, i + 1);
    }
}

/// The hex digits starting at `i`: their value and the offset just past
/// the run; `MalformedAddress` when the run is empty or the value does not
/// fit in 64 bits.
pub open spec fn spec_hex(s: Seq<u8>, i: int) -> Outcome<u64> {
    let e = hex_end(s, i);
    if e == i {
        Outcome::Failed { kind: ErrorKind::MalformedAddress, at: i }
    } else if hex_value(s, i, e) > u64::MAX {
        Outcome::Failed { kind: ErrorKind::MalformedAddress, at: i }
    } else {
        Outcome::Found { v: hex_value(s, i, e) as u64, next: e }
    }
}

fn hex_digit_byte(b: u8) -> (r: bool)
    ensures
        r == is_hex_digit(b),
{
    (48 <= b && b <= 57) || (97 <= b && b <= 102) || (65 <= b && b <= 70)
}

fn hex_digit_value(b: u8) -> (r: u8)
    ensures
        r as nat == hex_digit_val(b),
        r <= 15 || !is_hex_digit(b),
{
    if 48 <= b && b <= 57 {
        b - 48
    } else if 97 <= b && b <= 102 {
        b - 87
    } else if 65 <= b && b <= 70 {
        b - 55
    } else {
        0
    }
}

/// Advances past hex digits.
fn skip_hex(s: &[u8], pos: usize) -> (r: usize)
    requires
        pos <= s@.len(),
    ensures
        r == hex_end(s@, pos as int),
        pos <= r <= s@.len(),
{
    let mut i = pos;
    while i < s.len() && hex_digit_byte(s[i])
        invariant
            pos <= i <= s@.len(),
            hex_end(s@, pos as int) == hex_end(s@, i as int),
        decreases s@.len() - i,
    {
        i = i + 1;
    }
    i
}

/// Parses a non-empty hex digit run into a 64-bit value.
fn parse_hex(s: &[u8], pos: usize) -> (r: Result<(u64, usize), ParseError>)
    requires
        pos <= s@.len(),
    ensures
        matches_outcome(r, spec_hex(s@, pos as int)),
        r is Ok ==> pos < r->Ok_0.1 <= s@.len(),
{
    let e = skip_hex(s, pos);
    if e == pos {
        return Err(ParseError { kind: ErrorKind::MalformedAddress, offset: pos });
    }
    let ghost ee = e as int;
    let mut v: u64 = 0;
    let mut i = pos;
    while i < e
        invariant
            pos <= i <= ee <= s@.len(),
            e == ee,
            ee == hex_end(s@, pos as int),
            v as nat == hex_value(s@, pos as int, i as int),
        decreases ee - i,
    {
        let d = hex_digit_value(s[i]);
        proof {
            lemma_hex_end(s@, pos as int);
            assert(is_hex_digit(s@[i as int]));
            assert(hex_value(s@, pos as int, i + 1) == (v as nat) * 16 + hex_digit_val(
                s@[i as int],
            ));
        }
        if v >= 0x1000000000000000u64 {
            proof {
                assert(hex_value(s@, pos as int, i + 1) > u64::MAX);
                lemma_hex_value_mono(s@, pos as int, i + 1, ee);
            }
            return Err(ParseError { kind: ErrorKind::MalformedAddress, offset: pos });
        }
        v = v * 16 + (d as u64);
        i = i + 1;
    }
    Ok((v, e))
}

/// A structural token that may terminate a bind list without a comma: the
/// end of the input, a line break, `;`, or `{`.
pub open spec fn is_term_at(s: Seq<u8>, i: int) -> bool {
    ||| i >= s.len()
    ||| s[i] == ';' as u8
    ||| s[i] == '{' as u8
    ||| s[i] == 10
    ||| s[i] == 13
}

fn term_at(s: &[u8], pos: usize) -> (b: bool)
    requires
        pos <= s@.len(),
    ensures
        b == is_term_at(s@, pos as int),
{
    if pos >= s.len() {
        true
    } else {
        let c = s[pos];
        c == 59 || c == 123 || c == 10 || c == 13
    }
}

/// One address: `inline` for "no address", or a `0x` hex literal, where a
/// value of exactly zero also normalizes to "no address".
pub open spec fn spec_address(s: Seq<u8>, i: int) -> Outcome<Option<u64>> {
    if match_at(s, i, ascii_bytes("inline"@)) {
        Outcome::Found { v: None, next: i + 6 }
    } else if match_at(s, i, ascii_bytes("0x"@)) {
        match spec_hex(s, i + 2) {
            Outcome::Failed { kind, at } => Outcome::Failed { kind, at },
            Outcome::Found { v, next } => Outcome::Found {
                v: if v == 0 {
                    None
                } else {
                    Some(v)
                },
                next,
            },
        }
    } else {
        Outcome::Failed { kind: ErrorKind::MalformedAddress, at: i }
    }
}

/// Parses one address token.
fn parse_address(s: &[u8], pos: usize) -> (r: Result<(Option<u64>, usize), ParseError>)
    requires
        pos <= s@.len(),
    ensures
        matches_outcome(r, spec_address(s@, pos as int)),
        r is Ok ==> pos < r->Ok_0.1 <= s@.len(),
        r is Ok ==> addr_wf(r->Ok_0.0),
{
    proof {
        reveal_strlit("inline");
        reveal_strlit("0x");
    }
    if match_lit(s, pos, "inline") {
        Ok((None, pos + 6))
    } else if match_lit(s, pos, "0x") {
        match parse_hex(s, pos + 2) {
            Err(e) => Err(e),
            Ok((v, next)) => Ok((if v == 0 { None } else { Some(v) }, next)),
        }
    } else {
        Err(ParseError { kind: ErrorKind::MalformedAddress, offset: pos })
    }
}

/// One bind entry: a platform keyword, at least one horizontal space, and
/// an address.
pub open spec fn spec_entry(s: Seq<u8>, i: int) -> Outcome<(Platform, Option<u64>)> {
    match spec_platform(s, i) {
        Outcome::Failed { kind, at } => Outcome::Failed { kind, at },
        Outcome::Found { v: p, next: j } => {
            let h = hspace_end(s, j);
            if h == j {
                Outcome::Failed { kind: ErrorKind::MalformedAddress, at: j }
            } else {
                match spec_address(s, h) {
                    Outcome::Failed { kind, at } => Outcome::Failed { kind, at },
                    Outcome::Found { v: a, next: e } => Outcome::Found { v: (p, a), next: e },
                }
            }
        },
    }
}

/// Parses one `platform address` entry.
fn parse_entry(s: &[u8], pos: usize) -> (r: Result<((Platform, Option<u64>), usize), ParseError>)
    requires
        pos <= s@.len(),
    ensures
        matches_outcome(r, spec_entry(s@, pos as int)),
        r is Ok ==> pos < r->Ok_0.1 <= s@.len(),
        r is Ok ==> addr_wf(r->Ok_0.0.1),
{
    match parse_platform(s, pos) {
        Err(e) => Err(e),
        Ok((p, j)) => {
            let h = skip_hspace(s, j);
            if h == j {
                Err(ParseError { kind: ErrorKind::MalformedAddress, offset: j })
            } else {
                match parse_address(s, h) {
                    Err(e) => Err(e),
                    Ok((a, e)) => Ok(((p, a), e)),
                }
            }
        },
    }
}

/// The entries after the first one, folded left-to-right into `acc`.
/// After each entry: a comma continues the list (or, straight before a
/// structural terminator, ends it), a structural terminator ends it, and
/// anything else is a `MissingSeparator` failure — two adjacent entries
/// are never joined implicitly.
pub open spec fn spec_bind_rest(s: Seq<u8>, i: int, acc: Bind) -> Outcome<Bind>
    decreases s.len() - i
        when 0 <= i <= s.len()
{
    let h = hspace_end(s, i);
    if 0 <= h && h < s.len() && s[h] == ',' as u8 {
        let k = hspace_end(s, h + 1);
        if is_term_at(s, k) {
            Outcome::Found { v: acc, next: k }
        } else {
            match spec_entry(s, k) {
                Outcome::Failed { kind, at } => Outcome::Failed { kind, at },
                Outcome::Found { v: pa, next: e } => {
                    if i < e <= s.len() {
                        spec_bind_rest(s, e, spec_apply(acc, pa.0, pa.1))
                    } else {
                        Outcome::Failed { kind: ErrorKind::MissingSeparator, at: i }
                    }
                },
            }
        }
    } else if is_term_at(s, h) {
        Outcome::Found { v: acc, next: h }
    } else {
        Outcome::Failed { kind: ErrorKind::MissingSeparator, at: h }
    }
}

/// A bind list: one or more entries folded into one table, starting from
/// the empty table; `EmptyBind` when the list starts at a structural
/// terminator.
pub open spec fn spec_bind(s: Seq<u8>, i: int) -> Outcome<Bind> {
    if is_term_at(s, i) {
        Outcome::Failed { kind: ErrorKind::EmptyBind, at: i }
    } else {
        match spec_entry(s, i) {
            Outcome::Failed { kind, at } => Outcome::Failed { kind, at },
            Outcome::Found { v: pa, next: e } => {
                if i < e <= s.len() {
                    spec_bind_rest(s, e, spec_apply(empty_bind(), pa.0, pa.1))
                } else {
                    Outcome::Failed { kind: ErrorKind::EmptyBind, at: i }
                }
            },
        }
    }
}

/// A generic alias writes both of its concrete slots at once: `mac`
/// writes the intelMac and m1Mac slots, `android` writes the android32
/// and android64 slots; every other slot keeps its value.
pub proof fn lemma_alias_writes_both(b: Bind, a: Option<u64>)
    ensures
        spec_apply(b, Platform::Mac, a) == (Bind { intel_mac: a, m1_mac: a, ..b }),
        spec_apply(b, Platform::Android, a) == (Bind { android32: a, android64: a, ..b }),
{
}

/// A concrete platform writes exactly its own slot; every other slot
/// keeps its value.
pub proof fn lemma_concrete_writes_own(b: Bind, a: Option<u64>)
    ensures
        spec_apply(b, Platform::Windows, a) == (Bind { win: a, ..b }),
        spec_apply(b, Platform::IntelMac, a) == (Bind { intel_mac: a, ..b }),
        spec_apply(b, Platform::M1Mac, a) == (Bind { m1_mac: a, ..b }),
        spec_apply(b, Platform::IOS, a) == (Bind { ios: a, ..b }),
        spec_apply(b, Platform::Android32, a) == (Bind { android32: a, ..b }),
        spec_apply(b, Platform::Android64, a) == (Bind { android64: a, ..b }),
{
}

/// Writes are applied in source order, last write wins, and a later
/// specific write overwrites only its own slot: after a `mac` write and
/// then an `m1` write, the m1Mac slot holds the later address while the
/// intelMac slot keeps the earlier one.
pub proof fn lemma_specific_overwrite(b: Bind, a1: Option<u64>, a2: Option<u64>)
    ensures
        spec_apply(spec_apply(b, Platform::Mac, a1), Platform::M1Mac, a2) == (Bind {
            intel_mac: a1,
            m1_mac: a2,
            ..b
        }),
{
}

/// A bind list made of the single entry `<platform> 0x<hex digits>`
/// followed by a structural terminator parses to the table that holds the
/// digits' value in that platform's slot — `None` when the digits denote
/// zero, since a real address is never zero — and leaves every other slot
/// untouched.
pub proof fn lemma_single_hex_entry(s: Seq<u8>, i: int, p: Platform, j: int, h: int, e: int)
    requires
        0 <= i <= s.len(),
        spec_platform(s, i) == (Outcome::Found::<Platform> { v: p, next: j }),
        i < j <= s.len(),
        h == hspace_end(s, j),
        h > j,
        match_at(s, h, ascii_bytes("0x"@)),
        e == hex_end(s, h + 2),
        e > h + 2,
        hex_value(s, h + 2, e) <= u64::MAX,
        is_term_at(s, hspace_end(s, e)),
    ensures
        spec_bind(s, i) == (Outcome::Found::<Bind> {
            v: spec_apply(
                empty_bind(),
                p,
                if hex_value(s, h + 2, e) == 0 {
                    None
                } else {
                    Some(hex_value(s, h + 2, e) as u64)
                },
            ),
            next: hspace_end(s, e),
        }),
{
    reveal_strlit("0x");
    reveal_strlit("inline");
    crate::util::lemma_hspace_end(s, j);
    lemma_hex_end(s, h + 2);
    lemma_platform_start_not_term(s, i, p, j);
    assert(!match_at(s, h, ascii_bytes("inline"@))) by {
        if match_at(s, h, ascii_bytes("inline"@)) {
            assert(ascii_bytes("0x"@)[0] == '0' as u8);
            assert(ascii_bytes("inline"@)[0] == 'i' as u8);
            assert(s[h] == ascii_bytes("0x"@)[0]);
            assert(s[h] == ascii_bytes("inline"@)[0]);
        }
    }
    let a = if hex_value(s, h + 2, e) == 0 {
        None
    } else {
        Some(hex_value(s, h + 2, e) as u64)
    };
    assert(spec_address(s, h) == (Outcome::Found::<Option<u64>> { v: a, next: e }));
    assert(spec_entry(s, i) == (Outcome::Found::<(Platform, Option<u64>)> { v: (p, a), next: e }));
    let t = hspace_end(s, e);
    crate::util::lemma_hspace_end(s, e);
    assert(spec_bind_rest(s, e, spec_apply(empty_bind(), p, a)) == (Outcome::Found::<Bind> {
        v: spec_apply(empty_bind(), p, a),
        next: t,
    }));
}

/// A bind list made of the single entry `<platform> inline` followed by a
/// structural terminator parses to the table whose slot for that platform
/// holds "no address", with every other slot untouched: `inline` marks a
/// method with no separate stable address.
pub proof fn lemma_single_inline_entry(s: Seq<u8>, i: int, p: Platform, j: int, h: int)
    requires
        0 <= i <= s.len(),
        spec_platform(s, i) == (Outcome::Found::<Platform> { v: p, next: j }),
        i < j <= s.len(),
        h == hspace_end(s, j),
        h > j,
        match_at(s, h, ascii_bytes("inline"@)),
        is_term_at(s, hspace_end(s, h + 6)),
    ensures
        spec_bind(s, i) == (Outcome::Found::<Bind> {
            v: spec_apply(empty_bind(), p, None),
            next: hspace_end(s, h + 6),
        }),
{
    reveal_strlit("inline");
    crate::util::lemma_hspace_end(s, j);
    lemma_platform_start_not_term(s, i, p, j);
    assert(spec_address(s, h) == (Outcome::Found::<Option<u64>> { v: None, next: h + 6 }));
    assert(spec_entry(s, i) == (Outcome::Found::<(Platform, Option<u64>)> {
        v: (p, None),
        next: h + 6,
    }));
    let t = hspace_end(s, h + 6);
    crate::util::lemma_hspace_end(s, h + 6);
    assert(spec_bind_rest(s, h + 6, spec_apply(empty_bind(), p, None)) == (Outcome::Found::<
        Bind,
    > { v: spec_apply(empty_bind(), p, None), next: t }));
}

/// Where a platform keyword is recognized, the input does not stand at a
/// structural terminator: every keyword starts with a letter.
proof fn lemma_platform_start_not_term(s: Seq<u8>, i: int, p: Platform, j: int)
    requires
        spec_platform(s, i) == (Outcome::Found::<Platform> { v: p, next: j }),
    ensures
        !is_term_at(s, i),
        i < s.len(),
{
    reveal_strlit("android64");
    reveal_strlit("android32");
    reveal_strlit("android");
    reveal_strlit("ios");
    reveal_strlit("imac");
    reveal_strlit("m1");
    reveal_strlit("mac");
    reveal_strlit("win");
    assert(ascii_bytes("android64"@)[0] == 'a' as u8);
    assert(ascii_bytes("android32"@)[0] == 'a' as u8);
    assert(ascii_bytes("android"@)[0] == 'a' as u8);
    assert(ascii_bytes("ios"@)[0] == 'i' as u8);
    assert(ascii_bytes("imac"@)[0] == 'i' as u8);
    assert(ascii_bytes("m1"@)[0] == 'm' as u8);
    assert(ascii_bytes("mac"@)[0] == 'm' as u8);
    assert(ascii_bytes("win"@)[0] == 'w' as u8);
}

/// Parses a bind list at `pos` into one merged address table, leaving the
/// cursor at the structural terminator (or just past a final comma's
/// horizontal space).
pub fn parse_bind(s: &[u8], pos: usize) -> (r: Result<(Bind, usize), ParseError>)
    requires
        pos <= s@.len(),
    ensures
        matches_outcome(r, spec_bind(s@, pos as int)),
        r is Ok ==> pos < r->Ok_0.1 <= s@.len(),
        r is Ok ==> bind_wf(r->Ok_0.0),
{
    if term_at(s, pos) {
        return Err(ParseError { kind: ErrorKind::EmptyBind, offset: pos });
    }
    let (p0, a0, mut cur) = match parse_entry(s, pos) {
        Err(e) => {
            return Err(e);
        },
        Ok(((p, a), e)) => (p, a, e),
    };
    let mut acc = apply_entry(Bind::default(), p0, a0);
    loop
        invariant
            pos < cur <= s@.len(),
            spec_bind(s@, pos as int) == spec_bind_rest(s@, cur as int, acc),
            bind_wf(acc),
        decreases s@.len() - cur,
    {
        let h = skip_hspace(s, cur);
        if h < s.len() && s[h] == 44 {
            let k = skip_hspace(s, h + 1);
            if term_at(s, k) {
                return Ok((acc, k));
            }
            match parse_entry(s, k) {
                Err(e) => {
                    return Err(e);
                },
                Ok(((p, a), e)) => {
                    acc = apply_entry(acc, p, a);
                    cur = e;
                },
            }
        } else if term_at(s, h) {
            return Ok((acc, h));
        } else {
            return Err(ParseError { kind: ErrorKind::MissingSeparator, offset: h });
        }
    }
}

} // verus!
