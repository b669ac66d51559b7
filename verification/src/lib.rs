//! A bytecode interpreter for a small stack-oriented instruction language.
//!
//! Program text is split into token lines, symbolic functions, labels and
//! variables are resolved to numeric addresses, and the resolved instruction
//! stream runs on a call-stack based virtual machine.

pub mod errors;
pub mod stack;
pub mod text;
pub mod tokens;
pub mod frame;
pub mod channel;
pub mod functions;
pub mod labels;
pub mod variables;
pub mod instruction;
pub mod parser;
pub mod machine;
pub mod vm;
pub mod laws;

