//! From the intermediate representation to bytecode.

pub mod emitter;
pub mod scanner;
