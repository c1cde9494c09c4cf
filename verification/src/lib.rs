//! A small front end for a Pascal-like scripting language: a lexer that
//! turns source text into tokens, a recursive-descent expression parser
//! that builds an abstract syntax tree honoring the usual operator
//! precedence, and a tree-walking evaluator that reduces a tree to a
//! literal value.
//!
//! Every public operation carries a contract that pins its result down
//! against a mathematical model of the language: lexing is specified
//! against a character-level scanner over `Seq<char>`, parsing against a
//! recursive grammar over token views, and evaluation against a structural
//! recursion over expression views.

pub mod error;
pub mod expr;
pub mod helper;
pub mod parser;
pub mod statement;
pub mod token;
pub mod tokenizer;
pub mod unicode;
