//! The front half of a C compiler for the 8086.

pub mod ast;
pub mod cli;
pub mod codegen;
pub mod isa;
pub mod laws;
pub mod machine;
pub mod render;
