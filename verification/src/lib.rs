//! AADL to Rust code generation: the AADL syntax tree, a small Rust syntax
//! tree, and the verified translation steps between them.

pub mod ast;
pub mod text;
pub mod intermediate_ast;
#[allow(non_snake_case)]
pub mod aadlAst2rustCode;
pub mod aadl_ast2rust_code;
