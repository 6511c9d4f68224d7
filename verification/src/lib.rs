//! Classifies the text of a source file into single-line comments, block
//! comments, and code (everything else, string literals included).
//!
//! The work is done in two stages: [`lexer::lex`] reduces the text to a
//! sequence of symbolic tokens, and [`classifier::parse`] walks those tokens
//! with a finite-state machine, accumulating each run of text and deciding
//! which of the three kinds it belongs to.

pub mod classifier;
pub mod laws;
pub mod lexer;

pub use classifier::El;
pub use classifier::ParseError;
pub use classifier::State;
pub use classifier::parse;
pub use lexer::Token;
pub use lexer::lex;
