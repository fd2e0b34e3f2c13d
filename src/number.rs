use vstd::prelude::*;

use crate::token::{Token, TokenKind};

verus! {

/// The radix of a numeric literal.
#[derive(Debug, Clone, Copy, PartialEq, Eq, Structural)]
pub enum NumberType {
    Hex,
    Oct,
    Bin,
    Dec,
}

/// Whether the last character of a numeric literal was a digit or a
/// separating underscore.
#[derive(Debug, Clone, Copy, PartialEq, Eq, Structural)]
pub enum NumberState {
    Normal,
    Underscore,
}

/// The value of `c` as a digit in any radix up to sixteen, if it is one.
pub open spec fn digit_value(c: char) -> Option<nat> {
    if '0' <= c && c <= '9' {
        Some((c as nat - '0' as nat) as nat)
    } else if 'a' <= c && c <= 'f' {
        Some((c as nat - 'a' as nat + 10) as nat)
    } else if 'A' <= c && c <= 'F' {
        Some((c as nat - 'A' as nat + 10) as nat)
    } else {
        None
    }
}

impl NumberType {
    pub open spec fn radix_spec(self) -> nat {
        match self {
            NumberType::Hex => 16,
            NumberType::Oct => 8,
            NumberType::Bin => 2,
            NumberType::Dec => 10,
        }
    }

    /// Whether `c` is a digit of this radix.
    pub open spec fn is_digit_spec(self, c: char) -> bool {
        match digit_value(c) {
            Some(v) => v < self.radix_spec(),
            None => false,
        }
    }

    /// The numeral base of this literal kind.
    pub fn radix(self) -> (r: u32)
        ensures
            r as nat == self.radix_spec(),
    {
        match self {
            NumberType::Hex => 16,
            NumberType::Oct => 8,
            NumberType::Bin => 2,
            NumberType::Dec => 10,
        }
    }

    /// Whether `c` is a digit of this radix.
    pub fn is_digit(self, c: char) -> (r: bool)
        ensures
            r == self.is_digit_spec(c),
    {
        let radix = self.radix();
        let value: u32 = if '0' <= c && c <= '9' {
            c as u32 - '0' as u32
        } else if 'a' <= c && c <= 'f' {
            c as u32 - 'a' as u32 + 10
        } else if 'A' <= c && c <= 'F' {
            c as u32 - 'A' as u32 + 10
        } else {
            return false;
        };
        value < radix
    }

    /// Tags the lexeme `text` as a numeric literal of this radix.
    pub fn token_builder(self, text: String) -> (r: Token)
        ensures
            r@ == (TokenKind::Number(self), text@),
    {
        match self {
            NumberType::Hex => Token::HexNumber(text),
            NumberType::Oct => Token::OctNumber(text),
            NumberType::Bin => Token::BinNumber(text),
            NumberType::Dec => Token::DecNumber(text),
        }
    }
}

} // verus!
