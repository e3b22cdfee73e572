//! An arithmetic-expression front end: text is scanned into tokens, the
//! tokens are parsed by recursive descent into a syntax tree, and a tree can
//! be evaluated or printed back in canonical form.
//!
//! The text holds unsigned numbers, `+`, `*`, brackets of three styles and
//! spaces. `*` binds tighter than `+`, and both group to the right.
//!
//! - [`token`], [`number`]: the characters and the tokens.
//! - [`lexer`]: [`lex`], from text to tokens.
//! - [`tree`]: the syntax node, and the expression that it stands for.
//! - [`parser`]: [`parse`] and the three rules of the grammar.
//! - [`mod@eval`], [`render`]: [`eval()`] and [`dump`], the two uses of a tree.
//! - [`error`]: why a text is refused.
//! - [`grammar`], [`laws`]: what the parser accepts, and that parsing undoes
//!   printing.

pub mod error;
pub mod eval;
pub mod grammar;
pub mod laws;
pub mod lexer;
pub mod number;
pub mod parser;
pub mod render;
pub mod token;
pub mod tree;

pub use error::{LexError, ParseError, SyntaxError};
pub use eval::eval;
pub use lexer::lex;
pub use parser::{parse, parse_expr, parse_summand, parse_term};
pub use render::dump;
pub use token::LexItem;
pub use tree::{Expr, GrammarItem, ParseNode};
