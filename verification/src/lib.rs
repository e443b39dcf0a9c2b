//! Front end and evaluator of a small imperative scripting language.
//!
//! A program is a text of statements, each closed by `;`: declarations
//! (`a : NUMBER = 5 ;`), reassignments (`a = a - 1 ;`), outputs (`PUT a ;`), conditionals
//! (`IF a { .. } ELSE { .. } ;`) and loops (`WHILE a { .. } ;`). Values are numbers and
//! texts, which never convert into each other. There is no table of precedence: an
//! operator takes all that follows it as its right operand.
//!
//! The text flows upward through four layers, each pulled by the one above it:
//!
//! - [`text_stream::TextStream`], the character cursor, walks the bytes of the text and
//!   keeps the row and the column;
//! - [`token_stream::TokenStream`], the lexical analyzer, reads tokens from the cursor;
//!   what it yields is stated by [`token_stream::scan`];
//! - [`ast_stream::ASTStream`], the parser, builds the statements from the tokens and keeps
//!   the declared types; what it yields is stated in [`grammar`];
//! - [`parser::Parser`], the evaluator, runs the statements against a store of numbers and
//!   a store of texts; what running means is stated in [`semantics`].
//!
//! The library holds no floating-point arithmetic and prints nothing. A number is
//! carried as the 64 bits of a double (see [`number`]). Whoever runs a program hands in
//! a numeric unit, two functions that read number literals and apply the arithmetic
//! operators; calls [`parser::Parser::run`] until the program is done; and prints what
//! the output statements hand out.
//!
//! Nothing in the library fails by panicking. The parser and the evaluator return
//! their failures, and none is recovered from: after a failure the run is over.
//! A character that begins no token is no failure: it is read as the end marker, which
//! ends the program where a statement would begin.
pub mod util;
pub mod text_stream;
mod text;
pub mod token_stream;
pub mod table;
pub mod grammar;
pub mod ast_stream;
pub mod number;
pub mod semantics;
pub mod parser;
pub mod laws;
