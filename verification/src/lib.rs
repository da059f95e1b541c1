//! A parser for a binding-declaration language describing native classes:
//! each class has a name, optional superclasses, typed data members, and
//! methods, where each method carries a per-platform binary address table.
//!
//! The input is a byte slice; every parsing function takes the slice and a
//! start offset and returns the parsed value together with the offset just
//! past what was consumed, or a [`err::ParseError`] naming the kind of
//! failure and the offset where it occurred.

pub mod bind;
pub mod class;
pub mod err;
pub mod member;
pub mod method;
pub mod platform;
pub mod util;
