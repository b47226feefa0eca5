//! Front end of a compiler for a small C-like language.
//!
//! The pipeline turns source text into a validated abstract syntax tree:
//! text -> lexer (token stream) -> parser (AST) -> resolver (symbol table)
//! -> semantic checker (first diagnostic or success).  Every pass is written
//! against a specification-level model: the lexer against a character-level
//! scanning function, the parser against a grammar written as spec functions
//! over token sequences, the symbol table against a lookup function over the
//! scope stack, and the struct-cycle detector against graph acyclicity.

pub mod ast;
pub mod ast_expr;
pub mod ast_stmt;
pub mod commandline;
pub mod error;
pub mod expr_check;
pub mod lexer;
pub mod local_resolver;
pub mod location;
pub mod parse_def;
pub mod parse_expr;
pub mod parse_stmt;
pub mod parser;
pub mod symbol_table;
pub mod token;
pub mod token_str;
pub mod type_check;
