//! The two ways in which a text fails to be an expression.

use vstd::prelude::*;
use vstd::string::StringExecFns;
use crate::number::{decimal, numeral};
use crate::token::LexItem;

verus! {

/// The scanner met a character that belongs to no token.
#[derive(Debug, Clone, Copy, PartialEq, Eq)]
pub struct LexError {
    pub unexpected: char,
}

/// The tokens do not follow the grammar. `position` is the index, among the
/// tokens, at which the parser gave up.
#[derive(Debug, Clone, Copy, PartialEq, Eq)]
pub enum ParseError {
    /// The tokens ran out where a term has to start.
    UnexpectedEnd { position: usize },
    /// A term has to start here, and this token cannot start one: it is an
    /// operator or a closing bracket.
    UnexpectedToken { found: LexItem, position: usize },
    /// Where the bracket `expected` has to close an expression stands
    /// another token: a bracket of another style, or no bracket at all.
    MismatchedBracket { expected: char, found: LexItem, position: usize },
    /// The tokens ran out where the bracket `expected` has to close an
    /// expression.
    UnclosedBracket { expected: char, position: usize },
    /// An expression was read, and tokens are left over.
    TrailingToken { found: LexItem, position: usize },
}

/// Why a text was refused.
#[derive(Debug, Clone, Copy, PartialEq, Eq)]
pub enum SyntaxError {
    Lex(LexError),
    Parse(ParseError),
}

/// `std::string::String::push`: the character is appended at the end of the
/// string, and nothing else of the string changes. This is taken from the
/// documentation of std; it is not proved here.
pub assume_specification[ String::push ](text: &mut String, c: char)
    ensures
        final(text)@ == old(text)@.push(c),
;

impl LexItem {
    /// How the token is written in a message: a number as its decimal
    /// numeral, an operator or a bracket as its character.
    pub open spec fn spelling(self) -> Seq<char> {
        match self {
            LexItem::Num(n) => decimal(n as nat),
            LexItem::Op(c) => seq![c],
            LexItem::Paren(c) => seq![c],
        }
    }

    /// Appends the token to a text, as it is written in a message.
    fn spell_onto(self, text: &mut String)
        ensures
            final(text)@ == old(text)@ + self.spelling(),
    {
        match self {
            LexItem::Num(n) => {
                let number = numeral(n);
                text.append(number.as_str());
            },
            LexItem::Op(c) => {
                text.push(c);
            },
            LexItem::Paren(c) => {
                text.push(c);
            },
        }
    }
}

impl LexError {
    /// The text of [`LexError::message`].
    pub open spec fn message_spec(self) -> Seq<char> {
        "unexpected character: "@.push(self.unexpected)
    }

    /// The error in words.
    pub fn message(&self) -> (text: String)
        ensures
            text@ == self.message_spec(),
    {
        let mut text = String::from_str("unexpected character: ");
        text.push(self.unexpected);
        text
    }
}

impl ParseError {
    /// The index, among the tokens, at which the parser gave up.
    pub open spec fn position_spec(self) -> usize {
        match self {
            ParseError::UnexpectedEnd { position } => position,
            ParseError::UnexpectedToken { position, .. } => position,
            ParseError::MismatchedBracket { position, .. } => position,
            ParseError::UnclosedBracket { position, .. } => position,
            ParseError::TrailingToken { position, .. } => position,
        }
    }

    /// The text of [`ParseError::message`].
    pub open spec fn message_spec(self) -> Seq<char> {
        match self {
            ParseError::UnexpectedEnd { position } => "unexpected end of input at "@ + decimal(
                position as nat,
            ) + ": expected a number or an opening bracket"@,
            ParseError::UnexpectedToken { found, position } => "unexpected token "@
                + found.spelling() + " at "@ + decimal(position as nat)
                + ": expected a number or an opening bracket"@,
            ParseError::MismatchedBracket { expected, found, position } => "expected "@.push(
                expected,
            ) + " but found "@ + found.spelling() + " at "@ + decimal(position as nat),
            ParseError::UnclosedBracket { expected, position } => "expected "@.push(expected)
                + " but the input ended at "@ + decimal(position as nat),
            ParseError::TrailingToken { found, position } => "unexpected trailing token "@
                + found.spelling() + " at "@ + decimal(position as nat),
        }
    }

    /// The index, among the tokens, at which the parser gave up.
    pub fn position(&self) -> (position: usize)
        ensures
            position == self.position_spec(),
    {
        match self {
            ParseError::UnexpectedEnd { position } => *position,
            ParseError::UnexpectedToken { position, .. } => *position,
            ParseError::MismatchedBracket { position, .. } => *position,
            ParseError::UnclosedBracket { position, .. } => *position,
            ParseError::TrailingToken { position, .. } => *position,
        }
    }

    /// The error in words.
    pub fn message(&self) -> (text: String)
        ensures
            text@ == self.message_spec(),
    {
        let at = numeral(self.position() as u64);
        match *self {
            ParseError::UnexpectedEnd { .. } => {
                let mut text = String::from_str("unexpected end of input at ");
                text.append(at.as_str());
                text.append(": expected a number or an opening bracket");
                text
            },
            ParseError::UnexpectedToken { found, .. } => {
                let mut text = String::from_str("unexpected token ");
                found.spell_onto(&mut text);
                text.append(" at ");
                text.append(at.as_str());
                text.append(": expected a number or an opening bracket");
                text
            },
            ParseError::MismatchedBracket { expected, found, .. } => {
                let mut text = String::from_str("expected ");
                text.push(expected);
                text.append(" but found ");
                found.spell_onto(&mut text);
                text.append(" at ");
                text.append(at.as_str());
                text
            },
            ParseError::UnclosedBracket { expected, .. } => {
                let mut text = String::from_str("expected ");
                text.push(expected);
                text.append(" but the input ended at ");
                text.append(at.as_str());
                text
            },
            ParseError::TrailingToken { found, .. } => {
                let mut text = String::from_str("unexpected trailing token ");
                found.spell_onto(&mut text);
                text.append(" at ");
                text.append(at.as_str());
                text
            },
        }
    }
}

impl SyntaxError {
    /// The text of [`SyntaxError::message`].
    pub open spec fn message_spec(self) -> Seq<char> {
        match self {
            SyntaxError::Lex(e) => e.message_spec(),
            SyntaxError::Parse(e) => e.message_spec(),
        }
    }

    /// The error in words.
    pub fn message(&self) -> (text: String)
        ensures
            text@ == self.message_spec(),
    {
        match self {
            SyntaxError::Lex(e) => e.message(),
            SyntaxError::Parse(e) => e.message(),
        }
    }
}

} // verus!
