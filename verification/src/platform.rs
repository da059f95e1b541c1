//! The platform recognizer: maps a keyword token to a platform tag.
//!
//! Keywords are attempted in an explicit order with the longer keywords
//! first: `android` is a prefix of `android64` and `android32`, so the
//! longer keyword must be tried before the shorter one would consume part
//! of it and leave an invalid trailing token.

use vstd::prelude::*;

use crate::err::{matches_outcome, ErrorKind, Outcome, ParseError};
use crate::util::{ascii_bytes, match_at, match_lit};

verus! {

/// A target-platform tag. `Mac` and `Android` are generic write-time
/// aliases, each standing for its two concrete per-architecture platforms;
/// they are not storage slots of their own.
#[derive(Debug, Clone, Copy, PartialEq, Eq)]
pub enum Platform {
    Windows,
    Mac,
    IntelMac,
    M1Mac,
    IOS,
    Android,
    Android32,
    Android64,
}

/// The platform keyword found at offset `i`, chosen by the ordered
/// candidate list `android64`, `android32`, `android`, `ios`, `imac`,
/// `m1`, `mac`, `win`; `UnknownPlatform` when none matches.
pub open spec fn spec_platform(s: Seq<u8>, i: int) -> Outcome<Platform> {
    if match_at(s, i, ascii_bytes("android64"@)) {
        Outcome::Found { v: Platform::Android64, next: i + 9 }
    } else if match_at(s, i, ascii_bytes("android32"@)) {
        Outcome::Found { v: Platform::Android32, next: i + 9 }
    } else if match_at(s, i, ascii_bytes("android"@)) {
        Outcome::Found { v: Platform::Android, next: i + 7 }
    } else if match_at(s, i, ascii_bytes("ios"@)) {
        Outcome::Found { v: Platform::IOS, next: i + 3 }
    } else if match_at(s, i, ascii_bytes("imac"@)) {
        Outcome::Found { v: Platform::IntelMac, next: i + 4 }
    } else if match_at(s, i, ascii_bytes("m1"@)) {
        Outcome::Found { v: Platform::M1Mac, next: i + 2 }
    } else if match_at(s, i, ascii_bytes("mac"@)) {
        Outcome::Found { v: Platform::Mac, next: i + 3 }
    } else if match_at(s, i, ascii_bytes("win"@)) {
        Outcome::Found { v: Platform::Windows, next: i + 3 }
    } else {
        Outcome::Failed { kind: ErrorKind::UnknownPlatform, at: i }
    }
}

/// Input starting with `android64` is always recognized as the
/// `Android64` platform consuming all nine bytes — never misparsed as
/// `android` with a trailing `64` — because the longer keyword stands
/// earlier in the candidate list.
pub proof fn lemma_android64_precedence(s: Seq<u8>, i: int)
    requires
        match_at(s, i, ascii_bytes("android64"@)),
    ensures
        spec_platform(s, i) == (Outcome::Found::<Platform> { v: Platform::Android64, next: i + 9 }),
{
    reveal_strlit("android64");
}

/// Input starting with `android32` is likewise always recognized as the
/// `Android32` platform consuming all nine bytes.
pub proof fn lemma_android32_precedence(s: Seq<u8>, i: int)
    requires
        match_at(s, i, ascii_bytes("android32"@)),
    ensures
        spec_platform(s, i) == (Outcome::Found::<Platform> { v: Platform::Android32, next: i + 9 }),
{
    reveal_strlit("android64");
    reveal_strlit("android32");
    assert(!match_at(s, i, ascii_bytes("android64"@))) by {
        if match_at(s, i, ascii_bytes("android64"@)) {
            assert(ascii_bytes("android32"@)[7] == '3' as u8);
            assert(ascii_bytes("android64"@)[7] == '6' as u8);
            assert(s[i + 7] == ascii_bytes("android32"@)[7]);
            assert(s[i + 7] == ascii_bytes("android64"@)[7]);
        }
    }
}

/// Recognizes a platform keyword at `pos`, longest candidates first.
pub fn parse_platform(s: &[u8], pos: usize) -> (r: Result<(Platform, usize), ParseError>)
    requires
        pos <= s@.len(),
    ensures
        matches_outcome(r, spec_platform(s@, pos as int)),
        r is Ok ==> pos < r->Ok_0.1 <= s@.len(),
{
    proof {
        broadcast use vstd::slice::axiom_spec_len;

        reveal_strlit("android64");
        reveal_strlit("android32");
        reveal_strlit("android");
        reveal_strlit("ios");
        reveal_strlit("imac");
        reveal_strlit("m1");
        reveal_strlit("mac");
        reveal_strlit("win");
    }
    if match_lit(s, pos, "android64") {
        Ok((Platform::Android64, pos + 9))
    } else if match_lit(s, pos, "android32") {
        Ok((Platform::Android32, pos + 9))
    } else if match_lit(s, pos, "android") {
        Ok((Platform::Android, pos + 7))
    } else if match_lit(s, pos, "ios") {
        Ok((Platform::IOS, pos + 3))
    } else if match_lit(s, pos, "imac") {
        Ok((Platform::IntelMac, pos + 4))
    } else if match_lit(s, pos, "m1") {
        Ok((Platform::M1Mac, pos + 2))
    } else if match_lit(s, pos, "mac") {
        Ok((Platform::Mac, pos + 3))
    } else if match_lit(s, pos, "win") {
        Ok((Platform::Windows, pos + 3))
    } else {
        Err(ParseError { kind: ErrorKind::UnknownPlatform, offset: pos })
    }
}

} // verus!
