//! A line tokenizer for a Python-like language.
//!
//! Each line of source text is scanned by a character-driven state machine
//! into classified tokens: identifiers, numeric literals of four radixes,
//! comments, runs of spaces and operators. A document is tokenized line by
//! line and is rejected whole by the first line that fails.

pub mod document;
pub mod laws;
pub mod line;
pub mod number;
pub mod token;
pub mod xid;

pub use document::{Parser, Tokenizer};
pub use line::{Error, LineTokenizer, Span, State, Step, StringQuote};
pub use number::{NumberState, NumberType};
pub use token::{Operator, Token, TokenKind};
