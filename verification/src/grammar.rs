//! The grammar as a property of expressions: the shapes that the three
//! rules produce, the tokens that an expression is written with, and the
//! regrouping that brings any expression into the shape of the grammar.

use vstd::prelude::*;
use crate::token::{is_opening, partner, LexItem};
use crate::tree::Expr;

verus! {

impl Expr {
    /// The tokens that the expression is written with, brackets round.
    pub open spec fn tokens(self) -> Seq<LexItem>
        decreases self,
    {
        match self {
            Expr::Number(n) => seq![LexItem::Num(n)],
            Expr::Paren(inner) => seq![LexItem::Paren('(')] + inner.tokens() + seq![
                LexItem::Paren(')'),
            ],
            Expr::Sum(lhs, rhs) => lhs.tokens() + seq![LexItem::Op('+')] + rhs.tokens(),
            Expr::Product(lhs, rhs) => lhs.tokens() + seq![LexItem::Op('*')] + rhs.tokens(),
        }
    }

    /// `tokens` write the expression: they are its tokens, but that each
    /// pair of brackets may be of any one style.
    pub open spec fn written_as(self, tokens: Seq<LexItem>) -> bool
        decreases self,
    {
        match self {
            Expr::Number(n) => tokens.len() == 1 && tokens[0] == LexItem::Num(n),
            Expr::Paren(inner) => {
                &&& tokens.len() == inner.tokens().len() + 2
                &&& brackets_pair(tokens[0], tokens[tokens.len() - 1])
                &&& inner.written_as(tokens.subrange(1, tokens.len() - 1))
            },
            Expr::Sum(lhs, rhs) => {
                let mid = lhs.tokens().len() as int;
                &&& tokens.len() == mid + 1 + rhs.tokens().len()
                &&& lhs.written_as(tokens.subrange(0, mid))
                &&& tokens[mid] == LexItem::Op('+')
                &&& rhs.written_as(tokens.subrange(mid + 1, tokens.len() as int))
            },
            Expr::Product(lhs, rhs) => {
                let mid = lhs.tokens().len() as int;
                &&& tokens.len() == mid + 1 + rhs.tokens().len()
                &&& lhs.written_as(tokens.subrange(0, mid))
                &&& tokens[mid] == LexItem::Op('*')
                &&& rhs.written_as(tokens.subrange(mid + 1, tokens.len() as int))
            },
        }
    }

    /// The expression has the shape of a term: a number, or brackets round
    /// an expression of the grammar.
    pub open spec fn is_term(self) -> bool
        decreases self, 0nat,
    {
        match self {
            Expr::Number(_) => true,
            Expr::Paren(inner) => inner.is_expression(),
            _ => false,
        }
    }

    /// The expression has the shape of a summand: a term, or the product of
    /// a term and a summand.
    pub open spec fn is_summand(self) -> bool
        decreases self, 1nat,
    {
        match self {
            Expr::Product(lhs, rhs) => lhs.is_term() && rhs.is_summand(),
            _ => self.is_term(),
        }
    }

    /// The expression has the shape that the grammar gives: a summand, or
    /// the sum of a summand and an expression. So no sum stands directly
    /// under a product or to the left of a sum, and no product to the left
    /// of a product.
    pub open spec fn is_expression(self) -> bool
        decreases self, 2nat,
    {
        match self {
            Expr::Sum(lhs, rhs) => lhs.is_summand() && rhs.is_expression(),
            _ => self.is_summand(),
        }
    }

    /// The expression of the grammar that is written with the same tokens:
    /// the operands are regrouped, the brackets stay.
    pub open spec fn normal(self) -> Expr
        decreases self,
    {
        match self {
            Expr::Number(n) => Expr::Number(n),
            Expr::Paren(inner) => Expr::Paren(Box::new(inner.normal())),
            Expr::Sum(lhs, rhs) => join_sum(lhs.normal(), rhs.normal()),
            Expr::Product(lhs, rhs) => join_product(lhs.normal(), rhs.normal()),
        }
    }
}

/// The sum of two expressions of the grammar, written without brackets and
/// grouped as the grammar groups it.
pub open spec fn join_sum(lhs: Expr, rhs: Expr) -> Expr
    decreases lhs,
{
    match lhs {
        Expr::Sum(first, others) => Expr::Sum(first, Box::new(join_sum(*others, rhs))),
        _ => Expr::Sum(Box::new(lhs), Box::new(rhs)),
    }
}

/// The product of two summands, written without brackets and grouped as the
/// grammar groups it.
pub open spec fn join_summands(lhs: Expr, rhs: Expr) -> Expr
    decreases lhs,
{
    match lhs {
        Expr::Product(first, others) => Expr::Product(
            first,
            Box::new(join_summands(*others, rhs)),
        ),
        _ => Expr::Product(Box::new(lhs), Box::new(rhs)),
    }
}

/// The product of two expressions of the grammar, written without brackets
/// and grouped as the grammar groups it: the last summand of `lhs` and the
/// first summand of `rhs` are multiplied, the others are added.
pub open spec fn join_product(lhs: Expr, rhs: Expr) -> Expr
    decreases lhs,
{
    match lhs {
        Expr::Sum(first, others) => Expr::Sum(first, Box::new(join_product(*others, rhs))),
        _ => match rhs {
            Expr::Sum(first, others) => Expr::Sum(Box::new(join_summands(lhs, *first)), others),
            _ => join_summands(lhs, rhs),
        },
    }
}

/// `open` and `close` are the two brackets of one style, in this order.
pub open spec fn brackets_pair(open: LexItem, close: LexItem) -> bool {
    open matches LexItem::Paren(c) && is_opening(c) && close == LexItem::Paren(partner(c))
}

/// `op` stands at `at`.
pub open spec fn operator_at(tokens: Seq<LexItem>, at: nat, op: char) -> bool {
    at < tokens.len() && tokens[at as int] == LexItem::Op(op)
}

/// The three shapes, spelled out by the kind of the expression.
pub proof fn lemma_shapes(tree: Expr)
    ensures
        tree.is_term() ==> tree.is_summand(),
        tree.is_summand() ==> tree.is_expression(),
        tree.is_term() ==> !(tree is Sum) && !(tree is Product),
        tree.is_summand() ==> !(tree is Sum),
        tree matches Expr::Number(_) ==> tree.is_term(),
        tree matches Expr::Paren(inner) ==> (tree.is_expression() <==> inner.is_expression())
            && (tree.is_term() <==> inner.is_expression()),
        tree matches Expr::Product(lhs, rhs) ==> (tree.is_expression() <==> lhs.is_term()
            && rhs.is_summand()) && (tree.is_summand() <==> lhs.is_term() && rhs.is_summand()),
        tree matches Expr::Sum(lhs, rhs) ==> (tree.is_expression() <==> lhs.is_summand()
            && rhs.is_expression()),
{
    assert(tree.is_summand() == match tree {
        Expr::Product(lhs, rhs) => lhs.is_term() && rhs.is_summand(),
        _ => tree.is_term(),
    });
}

/// An expression is written with at least one token.
pub proof fn lemma_tokens_nonempty(tree: Expr)
    ensures
        tree.tokens().len() > 0,
{
}

/// An expression is written with as many tokens as it has.
pub proof fn lemma_written_width(tree: Expr, tokens: Seq<LexItem>)
    requires
        tree.written_as(tokens),
    ensures
        tokens.len() == tree.tokens().len(),
{
}

/// The tokens of an expression write it.
pub proof fn lemma_written_round(tree: Expr)
    ensures
        tree.written_as(tree.tokens()),
    decreases tree,
{
    let tokens = tree.tokens();
    match tree {
        Expr::Number(_) => {},
        Expr::Paren(inner) => {
            lemma_written_round(*inner);
            assert(tokens.subrange(1, tokens.len() - 1) =~= inner.tokens());
        },
        Expr::Sum(lhs, rhs) => {
            lemma_written_round(*lhs);
            lemma_written_round(*rhs);
            let mid = lhs.tokens().len() as int;
            assert(tokens.subrange(0, mid) =~= lhs.tokens());
            assert(tokens.subrange(mid + 1, tokens.len() as int) =~= rhs.tokens());
        },
        Expr::Product(lhs, rhs) => {
            lemma_written_round(*lhs);
            lemma_written_round(*rhs);
            let mid = lhs.tokens().len() as int;
            assert(tokens.subrange(0, mid) =~= lhs.tokens());
            assert(tokens.subrange(mid + 1, tokens.len() as int) =~= rhs.tokens());
        },
    }
}

/// Joining two expressions of the grammar by `+` gives an expression of the
/// grammar, written as the two with a `+` between them.
pub proof fn lemma_join_sum(lhs: Expr, rhs: Expr)
    ensures
        join_sum(lhs, rhs).tokens() == lhs.tokens() + seq![LexItem::Op('+')] + rhs.tokens(),
        join_sum(lhs, rhs).rendered() == lhs.rendered() + seq![' ', '+', ' '] + rhs.rendered(),
        lhs.is_expression() && rhs.is_expression() ==> join_sum(lhs, rhs).is_expression(),
    decreases lhs,
{
    lemma_shapes(lhs);
    lemma_shapes(join_sum(lhs, rhs));
    if let Expr::Sum(_, others) = lhs {
        lemma_join_sum(*others, rhs);
    }
}

/// Joining two summands by `*` gives a summand, written as the two with a
/// `*` between them.
pub proof fn lemma_join_summands(lhs: Expr, rhs: Expr)
    ensures
        join_summands(lhs, rhs).tokens() == lhs.tokens() + seq![LexItem::Op('*')] + rhs.tokens(),
        join_summands(lhs, rhs).rendered() == lhs.rendered() + seq![' ', '*', ' ']
            + rhs.rendered(),
        lhs.is_summand() && rhs.is_summand() ==> join_summands(lhs, rhs).is_summand(),
        join_summands(lhs, rhs) is Product,
    decreases lhs,
{
    lemma_shapes(lhs);
    lemma_shapes(join_summands(lhs, rhs));
    if let Expr::Product(_, others) = lhs {
        lemma_join_summands(*others, rhs);
    }
}

/// Joining two expressions of the grammar by `*` gives an expression of the
/// grammar, written as the two with a `*` between them.
pub proof fn lemma_join_product(lhs: Expr, rhs: Expr)
    ensures
        join_product(lhs, rhs).tokens() == lhs.tokens() + seq![LexItem::Op('*')] + rhs.tokens(),
        join_product(lhs, rhs).rendered() == lhs.rendered() + seq![' ', '*', ' ']
            + rhs.rendered(),
        lhs.is_expression() && rhs.is_expression() ==> join_product(lhs, rhs).is_expression(),
    decreases lhs,
{
    lemma_shapes(lhs);
    lemma_shapes(rhs);
    lemma_shapes(join_product(lhs, rhs));
    match lhs {
        Expr::Sum(_, others) => {
            lemma_join_product(*others, rhs);
        },
        _ => match rhs {
            Expr::Sum(first, _) => {
                lemma_join_summands(lhs, *first);
            },
            _ => {
                lemma_join_summands(lhs, rhs);
                lemma_shapes(join_summands(lhs, rhs));
            },
        },
    }
}

/// Regrouping gives an expression of the grammar that is written with the
/// same tokens and has the same canonical text.
pub proof fn lemma_normal(tree: Expr)
    ensures
        tree.normal().is_expression(),
        tree.normal().tokens() == tree.tokens(),
        tree.normal().rendered() == tree.rendered(),
    decreases tree,
{
    lemma_shapes(tree.normal());
    match tree {
        Expr::Number(_) => {},
        Expr::Paren(inner) => {
            lemma_normal(*inner);
        },
        Expr::Sum(lhs, rhs) => {
            lemma_normal(*lhs);
            lemma_normal(*rhs);
            lemma_join_sum(lhs.normal(), rhs.normal());
        },
        Expr::Product(lhs, rhs) => {
            lemma_normal(*lhs);
            lemma_normal(*rhs);
            lemma_join_product(lhs.normal(), rhs.normal());
        },
    }
}

/// Regrouping leaves an expression of the grammar as it is.
pub proof fn lemma_normal_of_expression(tree: Expr)
    requires
        tree.is_expression(),
    ensures
        tree.normal() == tree,
    decreases tree,
{
    lemma_shapes(tree);
    match tree {
        Expr::Number(_) => {},
        Expr::Paren(inner) => {
            lemma_normal_of_expression(*inner);
        },
        Expr::Sum(lhs, rhs) => {
            lemma_shapes(*lhs);
            lemma_normal_of_expression(*lhs);
            lemma_normal_of_expression(*rhs);
        },
        Expr::Product(lhs, rhs) => {
            lemma_shapes(*lhs);
            lemma_shapes(*rhs);
            lemma_normal_of_expression(*lhs);
            lemma_normal_of_expression(*rhs);
        },
    }
}

} // verus!
