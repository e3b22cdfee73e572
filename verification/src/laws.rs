//! What holds between the scanner, the parser and the printer.
//!
//! The laws come first, the lemmas that they rest on after them.

use vstd::prelude::*;
use crate::error::{LexError, ParseError, SyntaxError};
use crate::grammar::{
    lemma_normal,
    lemma_normal_of_expression,
    lemma_shapes,
    lemma_tokens_nonempty,
    lemma_written_round,
    lemma_written_width,
    operator_at,
};
use crate::lexer::{lemma_digit_run, lemma_tokens_then_joined, lex_spec, tokens_then};
use crate::number::{decimal, digits_number, is_digit};
use crate::parser::{
    lemma_parse_advances,
    parse_expr_spec,
    parse_spec,
    parse_summand_spec,
    parse_term_spec,
    parse_tokens_spec,
};
use crate::token::LexItem;
use crate::tree::Expr;

verus! {

/// Printing any expression and parsing the text succeeds, and what comes
/// back prints as the expression did. It is the expression regrouped as the
/// grammar groups it, which is the expression itself where it has the shape
/// of the grammar.
pub proof fn lemma_round_trip(tree: Expr)
    ensures
        parse_spec(tree.rendered()) == Ok::<Expr, SyntaxError>(tree.normal()),
        parse_spec(tree.rendered())->Ok_0.rendered() == tree.rendered(),
        tree.is_expression() ==> tree.normal() == tree,
{
    lemma_normal(tree);
    lemma_parse_inverts_render(tree.normal());
    if tree.is_expression() {
        lemma_normal_of_expression(tree);
    }
}

/// Printing is idempotent under parsing: for a text that parses, printing
/// the tree and parsing that text gives the same tree again, hence the same
/// text.
pub proof fn lemma_render_idempotent(text: Seq<char>)
    requires
        parse_spec(text) is Ok,
    ensures
        parse_spec(parse_spec(text)->Ok_0.rendered()) == parse_spec(text),
        parse_spec(parse_spec(text)->Ok_0.rendered())->Ok_0.rendered() == parse_spec(
            text,
        )->Ok_0.rendered(),
{
    lemma_parse_gives_expression(text);
    lemma_parse_inverts_render(parse_spec(text)->Ok_0);
}

/// Parsing the canonical text of an expression of the grammar gives that
/// expression: on such expressions parsing undoes printing.
pub proof fn lemma_parse_inverts_render(tree: Expr)
    requires
        tree.is_expression(),
    ensures
        parse_spec(tree.rendered()) == Ok::<Expr, SyntaxError>(tree),
{
    lemma_lex_inverts_render(tree);
    lemma_written_round(tree);
    lemma_parse_accepts_grammar(tree.tokens(), tree);
}

/// What parsing accepts is an expression of the grammar, written by the
/// tokens of the text.
pub proof fn lemma_parse_gives_expression(text: Seq<char>)
    requires
        parse_spec(text) is Ok,
    ensures
        parse_spec(text)->Ok_0.is_expression(),
        lex_spec(text) is Ok,
        parse_spec(text)->Ok_0.written_as(lex_spec(text)->Ok_0),
{
    lemma_parse_accepts_grammar(lex_spec(text)->Ok_0, parse_spec(text)->Ok_0);
}

/// Parsing accepts exactly the token sequences that write an expression of
/// the grammar, and gives that expression.
pub proof fn lemma_parse_accepts_grammar(tokens: Seq<LexItem>, tree: Expr)
    ensures
        parse_tokens_spec(tokens) == Ok::<Expr, ParseError>(tree) <==> tree.is_expression()
            && tree.written_as(tokens),
{
    assert(tokens.subrange(0, tokens.len() as int) =~= tokens);
    if parse_tokens_spec(tokens) == Ok::<Expr, ParseError>(tree) {
        lemma_parse_follows_grammar(tokens, 0);
    }
    if tree.is_expression() && tree.written_as(tokens) {
        lemma_written_width(tree, tokens);
        lemma_parse_written(tokens, 0, tree);
    }
}

/// Scanning the canonical text of an expression gives its tokens.
pub proof fn lemma_lex_inverts_render(tree: Expr)
    ensures
        lex_spec(tree.rendered()) == Ok::<Seq<LexItem>, LexError>(tree.tokens()),
{
    lemma_lex_rendered(tree, Seq::empty());
}

/// A decimal numeral is a run of digits, not empty, and it spells the
/// number that it is the numeral of.
pub proof fn lemma_decimal_spells(n: nat)
    ensures
        decimal(n).len() > 0,
        forall|i: int| 0 <= i < decimal(n).len() ==> is_digit(#[trigger] decimal(n)[i]),
        digits_number(decimal(n)) == n,
    decreases n,
{
    let text = decimal(n);
    if n < 10 {
        assert(digits_number(text.drop_last()) == 0);
    } else {
        lemma_decimal_spells(n / 10);
        assert(text.drop_last() =~= decimal(n / 10));
    }
}

/// Scanning the canonical text of an expression, with `rest` behind it,
/// gives the tokens of the expression and then those of `rest`, as long as
/// `rest` does not go on with a digit.
pub proof fn lemma_lex_rendered(tree: Expr, rest: Seq<char>)
    requires
        rest.len() > 0 ==> !is_digit(rest[0]),
    ensures
        lex_spec(tree.rendered() + rest) == tokens_then(tree.tokens(), lex_spec(rest)),
    decreases tree,
{
    let text = tree.rendered() + rest;
    match tree {
        Expr::Number(n) => {
            let numeral = decimal(n as nat);
            lemma_decimal_spells(n as nat);
            assert forall|i: int| 0 <= i < numeral.len() implies is_digit(#[trigger] text[i]) by {}
            lemma_digit_run(text, numeral.len());
            assert(text.take(numeral.len() as int) =~= numeral);
            assert(text.skip(numeral.len() as int) =~= rest);
        },
        Expr::Paren(inner) => {
            let closed = seq![')'] + rest;
            lemma_lex_rendered(*inner, closed);
            assert(text[0] == '(');
            assert(text.skip(1) =~= inner.rendered() + closed);
            assert(closed[0] == ')');
            assert(closed.skip(1) =~= rest);
            lemma_tokens_then_joined(inner.tokens(), seq![LexItem::Paren(')')], lex_spec(rest));
            lemma_tokens_then_joined(
                seq![LexItem::Paren('(')],
                inner.tokens() + seq![LexItem::Paren(')')],
                lex_spec(rest),
            );
            assert(seq![LexItem::Paren('(')] + (inner.tokens() + seq![LexItem::Paren(')')])
                =~= tree.tokens());
        },
        Expr::Sum(lhs, rhs) => {
            let middle = seq![' ', '+', ' '] + (rhs.rendered() + rest);
            lemma_lex_rendered(*lhs, middle);
            lemma_lex_rendered(*rhs, rest);
            lemma_lex_operation(lhs.rendered(), lhs.tokens(), '+', rhs.rendered(), rhs.tokens(), rest);
            assert(text =~= lhs.rendered() + (seq![' ', '+', ' '] + (rhs.rendered() + rest)));
        },
        Expr::Product(lhs, rhs) => {
            let middle = seq![' ', '*', ' '] + (rhs.rendered() + rest);
            lemma_lex_rendered(*lhs, middle);
            lemma_lex_rendered(*rhs, rest);
            lemma_lex_operation(lhs.rendered(), lhs.tokens(), '*', rhs.rendered(), rhs.tokens(), rest);
            assert(text =~= lhs.rendered() + (seq![' ', '*', ' '] + (rhs.rendered() + rest)));
        },
    }
}

/// The step of [`lemma_lex_rendered`] for two operands with an operator
/// between them.
proof fn lemma_lex_operation(
    lhs: Seq<char>,
    lhs_tokens: Seq<LexItem>,
    op: char,
    rhs: Seq<char>,
    rhs_tokens: Seq<LexItem>,
    rest: Seq<char>,
)
    requires
        op == '+' || op == '*',
        lex_spec(lhs + (seq![' ', op, ' '] + (rhs + rest))) == tokens_then(
            lhs_tokens,
            lex_spec(seq![' ', op, ' '] + (rhs + rest)),
        ),
        lex_spec(rhs + rest) == tokens_then(rhs_tokens, lex_spec(rest)),
    ensures
        lex_spec(lhs + (seq![' ', op, ' '] + (rhs + rest))) == tokens_then(
            lhs_tokens + seq![LexItem::Op(op)] + rhs_tokens,
            lex_spec(rest),
        ),
{
    let right = rhs + rest;
    let middle = seq![' ', op, ' '] + right;
    let from_op = middle.skip(1);
    let from_space = from_op.skip(1);
    assert(from_space.skip(1) =~= right);
    assert(lex_spec(from_space) == lex_spec(right));
    assert(lex_spec(middle) == lex_spec(from_op));
    lemma_tokens_then_joined(seq![LexItem::Op(op)], rhs_tokens, lex_spec(rest));
    lemma_tokens_then_joined(lhs_tokens, seq![LexItem::Op(op)] + rhs_tokens, lex_spec(rest));
    assert(lhs_tokens + (seq![LexItem::Op(op)] + rhs_tokens) =~= lhs_tokens + seq![
        LexItem::Op(op),
    ] + rhs_tokens);
}

/// What a rule parses has the shape of that rule, and is written by the
/// tokens that the rule took.
pub proof fn lemma_parse_follows_grammar(tokens: Seq<LexItem>, pos: nat)
    ensures
        parse_term_spec(tokens, pos) matches Ok((tree, next)) ==> tree.is_term()
            && tree.written_as(tokens.subrange(pos as int, next as int)),
        parse_summand_spec(tokens, pos) matches Ok((tree, next)) ==> tree.is_summand()
            && tree.written_as(tokens.subrange(pos as int, next as int)),
        parse_expr_spec(tokens, pos) matches Ok((tree, next)) ==> tree.is_expression()
            && tree.written_as(tokens.subrange(pos as int, next as int)),
    decreases tokens.len() - pos,
{
    lemma_parse_advances(tokens, pos);
    if pos < tokens.len() {
        let at = pos as int;
        lemma_parse_advances(tokens, pos + 1);
        lemma_parse_follows_grammar(tokens, pos + 1);
        if let Ok((tree, next)) = parse_term_spec(tokens, pos) {
            lemma_shapes(tree);
            if let Expr::Paren(inner) = tree {
                let here = tokens.subrange(at, next as int);
                let inside = tokens.subrange(at + 1, next - 1);
                lemma_written_width(*inner, inside);
                assert(here.subrange(1, here.len() - 1) =~= inside);
            }
            if next < tokens.len() {
                lemma_parse_advances(tokens, next + 1);
                lemma_parse_follows_grammar(tokens, next + 1);
            }
        }
        if let Ok((tree, next)) = parse_summand_spec(tokens, pos) {
            lemma_shapes(tree);
            if let Ok((lhs, mid)) = parse_term_spec(tokens, pos) {
                if mid < next {
                    let rhs = parse_summand_spec(tokens, mid + 1)->Ok_0.0;
                    lemma_operation_written(tokens, pos, lhs, mid, rhs, next);
                }
            }
            if next < tokens.len() {
                lemma_parse_advances(tokens, next + 1);
                lemma_parse_follows_grammar(tokens, next + 1);
            }
        }
        if let Ok((tree, next)) = parse_expr_spec(tokens, pos) {
            lemma_shapes(tree);
            if let Ok((lhs, mid)) = parse_summand_spec(tokens, pos) {
                if mid < next {
                    let rhs = parse_expr_spec(tokens, mid + 1)->Ok_0.0;
                    lemma_operation_written(tokens, pos, lhs, mid, rhs, next);
                }
            }
        }
    }
}

/// Two stretches of tokens that write two operands, with one token between
/// them, make one stretch in which the operands stand as a sum or a product
/// has them.
proof fn lemma_operation_written(
    tokens: Seq<LexItem>,
    pos: nat,
    lhs: Expr,
    mid: nat,
    rhs: Expr,
    end: nat,
)
    requires
        pos <= mid < end <= tokens.len(),
        lhs.written_as(tokens.subrange(pos as int, mid as int)),
        rhs.written_as(tokens.subrange(mid as int + 1, end as int)),
    ensures
        ({
            let here = tokens.subrange(pos as int, end as int);
            let width = lhs.tokens().len() as int;
            &&& width == mid - pos
            &&& here.len() == width + 1 + rhs.tokens().len()
            &&& lhs.written_as(here.subrange(0, width))
            &&& here[width] == tokens[mid as int]
            &&& rhs.written_as(here.subrange(width + 1, here.len() as int))
        }),
{
    let here = tokens.subrange(pos as int, end as int);
    lemma_written_width(lhs, tokens.subrange(pos as int, mid as int));
    lemma_written_width(rhs, tokens.subrange(mid as int + 1, end as int));
    let width = lhs.tokens().len() as int;
    assert(here.subrange(0, width) =~= tokens.subrange(pos as int, mid as int));
    assert(here.subrange(width + 1, here.len() as int) =~= tokens.subrange(
        mid as int + 1,
        end as int,
    ));
}

/// Tokens from `pos` on write `tree`.
pub open spec fn written_at(tokens: Seq<LexItem>, pos: nat, tree: Expr) -> bool {
    &&& pos + tree.tokens().len() <= tokens.len()
    &&& tree.written_as(tokens.subrange(pos as int, (pos + tree.tokens().len()) as int))
}

/// Where tokens write an expression of the grammar, the rule of its shape
/// parses that expression and stops behind it, provided that no operator
/// follows that the rule would take.
pub proof fn lemma_parse_written(tokens: Seq<LexItem>, pos: nat, tree: Expr)
    requires
        written_at(tokens, pos, tree),
    ensures
        tree.is_term() ==> parse_term_spec(tokens, pos) == Ok::<(Expr, nat), ParseError>(
            (tree, pos + tree.tokens().len()),
        ),
        tree.is_summand() && !operator_at(tokens, pos + tree.tokens().len(), '*')
            ==> parse_summand_spec(tokens, pos) == Ok::<(Expr, nat), ParseError>(
            (tree, pos + tree.tokens().len()),
        ),
        tree.is_expression() && !operator_at(tokens, pos + tree.tokens().len(), '*')
            && !operator_at(tokens, pos + tree.tokens().len(), '+') ==> parse_expr_spec(
            tokens,
            pos,
        ) == Ok::<(Expr, nat), ParseError>((tree, pos + tree.tokens().len())),
    decreases tree,
{
    let len = tree.tokens().len();
    let at = pos as int;
    let here = tokens.subrange(at, at + len);
    lemma_shapes(tree);
    lemma_tokens_nonempty(tree);
    match tree {
        Expr::Number(_) => {},
        Expr::Paren(inner) => {
            let inside = inner.tokens().len() as int;
            lemma_tokens_nonempty(*inner);
            assert(tokens.subrange(at + 1, at + 1 + inside) =~= here.subrange(1, here.len() - 1));
            lemma_parse_written(tokens, pos + 1, *inner);
        },
        Expr::Sum(lhs, rhs) => {
            lemma_operands_written(tokens, pos, *lhs, *rhs);
            lemma_parse_written(tokens, pos, *lhs);
            lemma_parse_written(tokens, pos + lhs.tokens().len() + 1, *rhs);
        },
        Expr::Product(lhs, rhs) => {
            lemma_operands_written(tokens, pos, *lhs, *rhs);
            lemma_parse_written(tokens, pos, *lhs);
            lemma_parse_written(tokens, pos + lhs.tokens().len() + 1, *rhs);
            lemma_shapes(*rhs);
        },
    }
}

/// Where a stretch of tokens holds two operands with one token between
/// them, each operand is written where it stands among all the tokens.
proof fn lemma_operands_written(tokens: Seq<LexItem>, pos: nat, lhs: Expr, rhs: Expr)
    requires
        pos + lhs.tokens().len() + 1 + rhs.tokens().len() <= tokens.len(),
        ({
            let here = tokens.subrange(
                pos as int,
                (pos + lhs.tokens().len() + 1 + rhs.tokens().len()) as int,
            );
            let width = lhs.tokens().len() as int;
            &&& lhs.written_as(here.subrange(0, width))
            &&& rhs.written_as(here.subrange(width + 1, here.len() as int))
        }),
    ensures
        written_at(tokens, pos, lhs),
        written_at(tokens, pos + lhs.tokens().len() + 1, rhs),
        tokens[(pos + lhs.tokens().len()) as int] == tokens.subrange(
            pos as int,
            (pos + lhs.tokens().len() + 1 + rhs.tokens().len()) as int,
        )[lhs.tokens().len() as int],
        lhs.tokens().len() > 0,
        rhs.tokens().len() > 0,
{
    let at = pos as int;
    let left = lhs.tokens().len() as int;
    let right = rhs.tokens().len() as int;
    let here = tokens.subrange(at, at + left + 1 + right);
    lemma_tokens_nonempty(lhs);
    lemma_tokens_nonempty(rhs);
    assert(tokens.subrange(at, at + left) =~= here.subrange(0, left));
    assert(tokens.subrange(at + left + 1, at + left + 1 + right) =~= here.subrange(
        left + 1,
        here.len() as int,
    ));
}

} // verus!
