//! Register allocation, bytecode emission and the virtual machine.

pub mod translator;
pub mod vm;
