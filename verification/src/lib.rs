//! Front end of a minimal SQL query engine: a tokenizer, a recursive-descent
//! parser for single-table `SELECT` statements, and a planner that lowers the
//! syntax tree into a linear instruction sequence for a register-based
//! virtual machine, with explicit register allocation and jump patching.
//!
//! Data flows one way: text is split into tokens, tokens are parsed into a
//! [`ast::Statement`], and the statement is compiled into a sequence of
//! [`planner::Opcode`] values. Each stage is a pure function of its input.

pub mod ast;
pub mod numeral;
pub mod parser;
pub mod planner;
pub mod text;
pub mod tokenizer;
