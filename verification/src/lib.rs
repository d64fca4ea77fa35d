pub mod ast;
pub mod codegen;
pub mod driver;
pub mod interpreter;
pub mod ir;
pub mod parser;
pub mod semantics;
