//! Types shared by the compiler and the virtual machine.

pub mod number;
pub mod object;
pub mod opcode;
pub mod text;
