//! The parser: from tokens to a syntax tree, by recursive descent.
//!
//! ```text
//! expression -> summand '+' expression | summand
//! summand    -> term '*' summand       | term
//! term       -> NUMBER | OPEN expression CLOSE
//! ```
//!
//! `OPEN` and `CLOSE` are brackets of one style, any of the three. Both
//! operators group to the right. The depth of the recursion grows with the
//! nesting of brackets and with the length of a chain of operators.

use vstd::prelude::*;
use crate::error::{ParseError, SyntaxError};
use crate::laws::lemma_parse_gives_expression;
use crate::lexer::{lex, lex_spec};
use crate::token::{is_opening, match_paren, opens, partner, LexItem};
use crate::tree::{Expr, GrammarItem, ParseNode};

verus! {

/// What parsing a term at `pos` gives: the term and the position behind
/// it, or the error.
pub open spec fn parse_term_spec(tokens: Seq<LexItem>, pos: nat) -> Result<(Expr, nat), ParseError>
    decreases tokens.len() - pos, 0nat,
{
    if pos >= tokens.len() {
        Err(ParseError::UnexpectedEnd { position: pos as usize })
    } else {
        match tokens[pos as int] {
            LexItem::Num(n) => Ok((Expr::Number(n), pos + 1)),
            LexItem::Paren(open) if is_opening(open) => match parse_expr_spec(tokens, pos + 1) {
                Err(e) => Err(e),
                Ok((inner, next)) => if next >= tokens.len() {
                    Err(ParseError::UnclosedBracket { expected: partner(open), position: next as usize })
                } else if tokens[next as int] == LexItem::Paren(partner(open)) {
                    Ok((Expr::Paren(Box::new(inner)), next + 1))
                } else {
                    Err(
                        ParseError::MismatchedBracket {
                            expected: partner(open),
                            found: tokens[next as int],
                            position: next as usize,
                        },
                    )
                },
            },
            other => Err(ParseError::UnexpectedToken { found: other, position: pos as usize }),
        }
    }
}

/// What parsing a summand at `pos` gives.
///
/// The test `pos < next` is there for the definition to be well founded; it
/// never fails, as a term takes at least one token
/// ([`lemma_parse_advances`]).
pub open spec fn parse_summand_spec(tokens: Seq<LexItem>, pos: nat) -> Result<
    (Expr, nat),
    ParseError,
>
    decreases tokens.len() - pos, 1nat,
{
    match parse_term_spec(tokens, pos) {
        Err(e) => Err(e),
        Ok((lhs, next)) => if pos < next < tokens.len() && tokens[next as int] == LexItem::Op('*') {
            match parse_summand_spec(tokens, next + 1) {
                Err(e) => Err(e),
                Ok((rhs, end)) => Ok((Expr::Product(Box::new(lhs), Box::new(rhs)), end)),
            }
        } else {
            Ok((lhs, next))
        },
    }
}

/// What parsing an expression at `pos` gives.
///
/// The test `pos < next` is there for the definition to be well founded; it
/// never fails ([`lemma_parse_advances`]).
pub open spec fn parse_expr_spec(tokens: Seq<LexItem>, pos: nat) -> Result<(Expr, nat), ParseError>
    decreases tokens.len() - pos, 2nat,
{
    match parse_summand_spec(tokens, pos) {
        Err(e) => Err(e),
        Ok((lhs, next)) => if pos < next < tokens.len() && tokens[next as int] == LexItem::Op('+') {
            match parse_expr_spec(tokens, next + 1) {
                Err(e) => Err(e),
                Ok((rhs, end)) => Ok((Expr::Sum(Box::new(lhs), Box::new(rhs)), end)),
            }
        } else {
            Ok((lhs, next))
        },
    }
}

/// What parsing a whole sequence of tokens gives: the expression that takes
/// all of them, or the error.
pub open spec fn parse_tokens_spec(tokens: Seq<LexItem>) -> Result<Expr, ParseError> {
    match parse_expr_spec(tokens, 0) {
        Err(e) => Err(e),
        Ok((tree, next)) => if next == tokens.len() {
            Ok(tree)
        } else {
            Err(ParseError::TrailingToken { found: tokens[next as int], position: next as usize })
        },
    }
}

/// What parsing a text gives.
pub open spec fn parse_spec(text: Seq<char>) -> Result<Expr, SyntaxError> {
    match lex_spec(text) {
        Err(e) => Err(SyntaxError::Lex(e)),
        Ok(tokens) => match parse_tokens_spec(tokens) {
            Err(e) => Err(SyntaxError::Parse(e)),
            Ok(tree) => Ok(tree),
        },
    }
}

/// Each of the three rules, where it succeeds, takes at least one token and
/// stops within the tokens.
pub proof fn lemma_parse_advances(tokens: Seq<LexItem>, pos: nat)
    ensures
        parse_term_spec(tokens, pos) matches Ok((_, next)) ==> pos < next <= tokens.len(),
        parse_summand_spec(tokens, pos) matches Ok((_, next)) ==> pos < next <= tokens.len(),
        parse_expr_spec(tokens, pos) matches Ok((_, next)) ==> pos < next <= tokens.len(),
    decreases tokens.len() - pos,
{
    if pos < tokens.len() {
        lemma_parse_advances(tokens, pos + 1);
        if let Ok((_, next)) = parse_term_spec(tokens, pos) {
            if next < tokens.len() {
                lemma_parse_advances(tokens, next + 1);
            }
        }
        if let Ok((_, next)) = parse_summand_spec(tokens, pos) {
            if next < tokens.len() {
                lemma_parse_advances(tokens, next + 1);
            }
        }
    }
}

/// Where a rule fails, it gives up at `pos` or behind it, and within the
/// tokens or right behind them.
pub proof fn lemma_parse_gives_up_within(tokens: Seq<LexItem>, pos: nat)
    requires
        pos <= tokens.len() <= usize::MAX,
    ensures
        parse_term_spec(tokens, pos) matches Err(e) ==> pos <= e.position_spec() <= tokens.len(),
        parse_summand_spec(tokens, pos) matches Err(e) ==> pos <= e.position_spec()
            <= tokens.len(),
        parse_expr_spec(tokens, pos) matches Err(e) ==> pos <= e.position_spec() <= tokens.len(),
    decreases tokens.len() - pos,
{
    lemma_parse_advances(tokens, pos);
    if pos < tokens.len() {
        lemma_parse_advances(tokens, pos + 1);
        lemma_parse_gives_up_within(tokens, pos + 1);
        if let Ok((_, next)) = parse_term_spec(tokens, pos) {
            if next < tokens.len() {
                lemma_parse_gives_up_within(tokens, next + 1);
            }
        }
        if let Ok((_, next)) = parse_summand_spec(tokens, pos) {
            if next < tokens.len() {
                lemma_parse_gives_up_within(tokens, next + 1);
            }
        }
    }
}

/// `parsed` is the outcome `expected`, a well-formed node standing for the
/// expression.
pub open spec fn parsed_as(
    parsed: Result<(ParseNode, usize), ParseError>,
    expected: Result<(Expr, nat), ParseError>,
) -> bool {
    match parsed {
        Ok((node, next)) => node.well_formed() && expected == Ok::<(Expr, nat), ParseError>(
            (node@, next as nat),
        ),
        Err(e) => expected == Err::<(Expr, nat), ParseError>(e),
    }
}

/// Parses an expression that starts at `pos`: the tree, and the position
/// behind its last token.
pub fn parse_expr(tokens: &Vec<LexItem>, pos: usize) -> (parsed: Result<
    (ParseNode, usize),
    ParseError,
>)
    ensures
        parsed_as(parsed, parse_expr_spec(tokens@, pos as nat)),
        parsed matches Ok((_, next)) ==> pos < next <= tokens@.len(),
        parsed matches Err(e) ==> pos <= e.position_spec() && (pos <= tokens@.len()
            ==> e.position_spec() <= tokens@.len()),
    decreases tokens@.len() - pos, 2nat,
{
    proof {
        lemma_parse_advances(tokens@, pos as nat);
        if pos <= tokens.len() {
            lemma_parse_gives_up_within(tokens@, pos as nat);
        }
    }
    let (node_summand, next_pos) = match parse_summand(tokens, pos) {
        Ok(found) => found,
        Err(e) => { return Err(e); },
    };
    if next_pos < tokens.len() && is_op(tokens[next_pos], '+') {
        let mut sum = ParseNode::new();
        sum.entry = GrammarItem::Sum;
        sum.children.push(node_summand);
        let (rhs, i) = match parse_expr(tokens, next_pos + 1) {
            Ok(found) => found,
            Err(e) => { return Err(e); },
        };
        sum.children.push(rhs);
        Ok((sum, i))
    } else {
        Ok((node_summand, next_pos))
    }
}

/// Parses a summand that starts at `pos`.
pub fn parse_summand(tokens: &Vec<LexItem>, pos: usize) -> (parsed: Result<
    (ParseNode, usize),
    ParseError,
>)
    ensures
        parsed_as(parsed, parse_summand_spec(tokens@, pos as nat)),
        parsed matches Ok((_, next)) ==> pos < next <= tokens@.len(),
        parsed matches Err(e) ==> pos <= e.position_spec() && (pos <= tokens@.len()
            ==> e.position_spec() <= tokens@.len()),
    decreases tokens@.len() - pos, 1nat,
{
    proof {
        lemma_parse_advances(tokens@, pos as nat);
        if pos <= tokens.len() {
            lemma_parse_gives_up_within(tokens@, pos as nat);
        }
    }
    let (node_items, next_pos) = match parse_term(tokens, pos) {
        Ok(found) => found,
        Err(e) => { return Err(e); },
    };
    if next_pos < tokens.len() && is_op(tokens[next_pos], '*') {
        let mut product = ParseNode::new();
        product.entry = GrammarItem::Product;
        product.children.push(node_items);
        let (rhs, i) = match parse_summand(tokens, next_pos + 1) {
            Ok(found) => found,
            Err(e) => { return Err(e); },
        };
        product.children.push(rhs);
        Ok((product, i))
    } else {
        Ok((node_items, next_pos))
    }
}

/// Parses a term that starts at `pos`: a number, or an expression in
/// brackets of one style.
pub fn parse_term(tokens: &Vec<LexItem>, pos: usize) -> (parsed: Result<
    (ParseNode, usize),
    ParseError,
>)
    ensures
        parsed_as(parsed, parse_term_spec(tokens@, pos as nat)),
        parsed matches Ok((_, next)) ==> pos < next <= tokens@.len(),
        parsed matches Err(e) ==> pos <= e.position_spec() && (pos <= tokens@.len()
            ==> e.position_spec() <= tokens@.len()),
    decreases tokens@.len() - pos, 0nat,
{
    proof {
        lemma_parse_advances(tokens@, pos as nat);
        if pos <= tokens.len() {
            lemma_parse_gives_up_within(tokens@, pos as nat);
        }
    }
    if pos >= tokens.len() {
        return Err(ParseError::UnexpectedEnd { position: pos });
    }
    let token = tokens[pos];
    match token {
        LexItem::Num(n) => {
            let mut node = ParseNode::new();
            node.entry = GrammarItem::Number(n);
            Ok((node, pos + 1))
        },
        LexItem::Paren(c) => {
            if !opens(c) {
                return Err(ParseError::UnexpectedToken { found: token, position: pos });
            }
            let (node, next_pos) = match parse_expr(tokens, pos + 1) {
                Ok(found) => found,
                Err(e) => { return Err(e); },
            };
            let expected = match_paren(c);
            if next_pos >= tokens.len() {
                return Err(ParseError::UnclosedBracket { expected, position: next_pos });
            }
            let found = tokens[next_pos];
            if is_paren_of(found, expected) {
                let mut node_paren = ParseNode::new();
                node_paren.entry = GrammarItem::Paren;
                node_paren.children.push(node);
                Ok((node_paren, next_pos + 1))
            } else {
                Err(ParseError::MismatchedBracket { expected, found, position: next_pos })
            }
        },
        LexItem::Op(_) => Err(ParseError::UnexpectedToken { found: token, position: pos }),
    }
}

/// Tells whether a token is the operator `op`.
fn is_op(token: LexItem, op: char) -> (yes: bool)
    ensures
        yes == (token == LexItem::Op(op)),
{
    match token {
        LexItem::Op(c) => c == op,
        _ => false,
    }
}

/// Tells whether a token is the bracket `bracket`.
fn is_paren_of(token: LexItem, bracket: char) -> (yes: bool)
    ensures
        yes == (token == LexItem::Paren(bracket)),
{
    match token {
        LexItem::Paren(c) => c == bracket,
        _ => false,
    }
}

/// Parses a text: scans it, parses an expression from the first token on,
/// and asks that no token is left over.
///
/// The tree that comes back has the shape of the grammar: a product holds
/// no sum but in brackets, and in a chain of one operator the right operand
/// holds the rest of the chain.
pub fn parse(content: &str) -> (parsed: Result<ParseNode, SyntaxError>)
    ensures
        match parsed {
            Ok(tree) => tree.well_formed() && parse_spec(content@) == Ok::<Expr, SyntaxError>(
                tree@,
            ),
            Err(e) => parse_spec(content@) == Err::<Expr, SyntaxError>(e),
        },
        parsed matches Ok(tree) ==> tree@.is_expression(),
{
    proof {
        if parse_spec(content@) is Ok {
            lemma_parse_gives_expression(content@);
        }
    }
    let tokens = match lex(content) {
        Ok(tokens) => tokens,
        Err(e) => { return Err(SyntaxError::Lex(e)); },
    };
    match parse_expr(&tokens, 0) {
        Err(e) => Err(SyntaxError::Parse(e)),
        Ok((node, i)) => {
            if i == tokens.len() {
                Ok(node)
            } else {
                Err(SyntaxError::Parse(ParseError::TrailingToken { found: tokens[i], position: i }))
            }
        },
    }
}

} // verus!
