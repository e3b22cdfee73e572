//! Tokens, and the characters that they are made of.

use vstd::prelude::*;

verus! {

/// A token: a bracket of one of three styles, an operator, or a number.
#[derive(Debug, Clone, Copy, PartialEq, Eq)]
pub enum LexItem {
    Paren(char),
    Op(char),
    Num(u64),
}

/// `c` opens a bracket: `(`, `[` or `{`.
pub open spec fn is_opening(c: char) -> bool {
    c == '(' || c == '[' || c == '{'
}

/// `c` closes a bracket: `)`, `]` or `}`.
pub open spec fn is_closing(c: char) -> bool {
    c == ')' || c == ']' || c == '}'
}

/// `c` is one of the six bracket characters.
pub open spec fn is_bracket(c: char) -> bool {
    is_opening(c) || is_closing(c)
}

/// `c` is `+` or `*`.
pub open spec fn is_operator(c: char) -> bool {
    c == '+' || c == '*'
}

/// The bracket of the same style that faces `c`: the closing one for an
/// opening bracket, the opening one for a closing bracket.
pub open spec fn partner(c: char) -> char
    recommends
        is_bracket(c),
{
    if c == '(' {
        ')'
    } else if c == '[' {
        ']'
    } else if c == '{' {
        '}'
    } else if c == '}' {
        '{'
    } else if c == ']' {
        '['
    } else {
        '('
    }
}

/// Tells whether `c` is a bracket character.
pub fn is_paren(c: char) -> (yes: bool)
    ensures
        yes == is_bracket(c),
{
    c == '(' || c == ')' || c == '[' || c == ']' || c == '{' || c == '}'
}

/// Tells whether `c` opens a bracket.
pub fn opens(c: char) -> (yes: bool)
    ensures
        yes == is_opening(c),
{
    c == '(' || c == '[' || c == '{'
}

/// The bracket that pairs with `c`.
pub fn match_paren(c: char) -> (other: char)
    requires
        is_bracket(c),
    ensures
        other == partner(c),
{
    if c == '(' {
        ')'
    } else if c == '[' {
        ']'
    } else if c == '{' {
        '}'
    } else if c == '}' {
        '{'
    } else if c == ']' {
        '['
    } else {
        '('
    }
}

} // verus!
