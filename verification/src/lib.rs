//! A small interpreted-language core: an AST is compiled to a flat
//! bytecode program, which a scoped stack machine executes.

pub mod ast;
pub mod compiler;
pub mod error;
pub mod float;
pub mod instruction;
pub mod laws;
pub mod pool;
pub mod scope;
pub mod stack;
pub mod value;
pub mod vm;
