//! The AADL syntax tree that the parser fills and the code generators read.

pub mod aadl_ast_cj;
