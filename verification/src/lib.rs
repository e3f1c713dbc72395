//! Translator core for a stack-based virtual-machine language targeting the
//! assembly language of a simple 16-bit computer.
//!
//! The crate models VM instructions as typed values, parses one source line
//! into such a value, and renders any value into the exact sequence of
//! assembly lines that implements it on the target machine.  A small machine
//! model gives the generated sequences a semantics, against which the
//! stack-effect theorems of the code generator are proved.

pub mod assembly;

pub mod instruction;

pub mod machine;

pub mod codegen;

pub mod parser;

pub mod effects;
