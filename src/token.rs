use vstd::prelude::*;

use crate::number::NumberType;

verus! {

/// An operator recognised by the tokenizer.
#[derive(Debug, Clone, Copy, PartialEq, Eq, Structural)]
pub enum Operator {
    Colon,
    Plus,
}

/// The class of a token, without its text.
#[derive(Debug, Clone, Copy, PartialEq, Eq, Structural)]
pub enum TokenKind {
    Comment,
    Identifier,
    Whitespaces,
    Operator(Operator),
    Number(NumberType),
}

/// One lexical unit of a line, carrying the exact source text it matched.
#[derive(Debug)]
pub enum Token {
    Comment(String),
    Identifier(String),
    Whitespaces(String),
    Operator(Operator),
    BinNumber(String),
    OctNumber(String),
    DecNumber(String),
    HexNumber(String),
}

/// The single character an operator is written with.
pub open spec fn operator_text(op: Operator) -> Seq<char> {
    match op {
        Operator::Colon => seq![':'],
        Operator::Plus => seq!['+'],
    }
}

impl View for Token {
    /// A token seen as its class and its lexeme.
    type V = (TokenKind, Seq<char>);

    open spec fn view(&self) -> (TokenKind, Seq<char>) {
        match self {
            Token::Comment(t) => (TokenKind::Comment, t@),
            Token::Identifier(t) => (TokenKind::Identifier, t@),
            Token::Whitespaces(t) => (TokenKind::Whitespaces, t@),
            Token::Operator(op) => (TokenKind::Operator(*op), operator_text(*op)),
            Token::BinNumber(t) => (TokenKind::Number(NumberType::Bin), t@),
            Token::OctNumber(t) => (TokenKind::Number(NumberType::Oct), t@),
            Token::DecNumber(t) => (TokenKind::Number(NumberType::Dec), t@),
            Token::HexNumber(t) => (TokenKind::Number(NumberType::Hex), t@),
        }
    }
}

impl Token {
    /// Builds the token of class `kind` whose lexeme is `text`.
    ///
    /// An operator's lexeme is fixed by the operator, so `text` must spell it.
    pub fn from_kind(kind: TokenKind, text: String) -> (r: Token)
        requires
            kind matches TokenKind::Operator(op) ==> text@ == operator_text(op),
        ensures
            r@ == (kind, text@),
    {
        match kind {
            TokenKind::Comment => Token::Comment(text),
            TokenKind::Identifier => Token::Identifier(text),
            TokenKind::Whitespaces => Token::Whitespaces(text),
            TokenKind::Operator(op) => Token::Operator(op),
            TokenKind::Number(t) => t.token_builder(text),
        }
    }
}

} // verus!
