pub mod ast;
pub mod document;
pub mod parse;
