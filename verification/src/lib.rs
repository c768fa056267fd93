//! A small scripting language: a lexer, a recursive-descent parser and a
//! tree-walking evaluator over one global variable table.
//!
//! A program is text. [`lexer::tokenize`] turns it into tokens,
//! [`parser::Parser::parse`] turns the tokens into expression trees, and a
//! [`runtime::Runtime`] evaluates the trees in their order.
//!
//! The evaluator never performs input, output or numeric work itself. It is
//! a machine that is advanced one transition at a time and that hands each
//! such piece of work to its host as a [`runtime::Action`], to be answered
//! with a [`runtime::Event`]. What the machine does is defined in
//! [`machine`], and what follows from that definition is proved in [`laws`];
//! [`writing`] proves that the parser reads back what is written.

pub mod text;
pub mod types;
pub mod lexer;
pub mod parser;
pub mod variables;
pub mod display;
pub mod machine;
pub mod runtime;
pub mod laws;
pub mod writing;
