//! Persistent immutable sequences ("List") and the entry points a rewriting
//! engine calls to build, index, slice, compare and print them.

pub mod bigint;
pub mod list;
pub mod terms;
pub mod hooks;
pub mod print;
pub mod laws;

