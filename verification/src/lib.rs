//! A compiler and register-based virtual machine for a small Lua-like
//! scripting language.
//!
//! Source text is lowered through an intermediate representation, a
//! linear-scan register allocator and a bytecode emitter, and executed by a
//! virtual machine with a mark-and-sweep collector. Numbers are carried as
//! IEEE-754 binary64 bit patterns; the arithmetic on them is asked of the host.

pub mod common;
pub mod backend;
pub mod frontend;
