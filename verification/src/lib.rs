//! A compiler for a small imperative source language: a longest-match lexer,
//! a recursive-descent parser producing a concrete syntax tree over byte
//! spans, a semantic pass that interns identifiers and zips operator chains
//! with operand trees, and a code generator that lowers the decorated tree
//! into a relocatable IR module.

pub mod ast1;
pub mod ast2;
pub mod codegen;
pub mod lexer;
