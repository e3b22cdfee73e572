//! The evaluator.

use vstd::arithmetic::div_mod::{lemma_add_mod_noop, lemma_mul_mod_noop};
use vstd::prelude::*;
use crate::number::modulus;
use crate::tree::{Expr, GrammarItem, ParseNode};

verus! {

impl Expr {
    /// The value of the expression among the natural numbers, where no sum
    /// and no product is too large.
    pub open spec fn exact_value(self) -> nat
        decreases self,
    {
        match self {
            Expr::Number(n) => n as nat,
            Expr::Paren(inner) => inner.exact_value(),
            Expr::Sum(lhs, rhs) => lhs.exact_value() + rhs.exact_value(),
            Expr::Product(lhs, rhs) => lhs.exact_value() * rhs.exact_value(),
        }
    }

    /// The value of the expression in `u64`: its value among the natural
    /// numbers, modulo 2^64.
    pub open spec fn value(self) -> u64 {
        (self.exact_value() % modulus()) as u64
    }
}

/// The value of an expression comes from the values of its parts: a number
/// is its own value, brackets change nothing, and a sum or a product is the
/// sum or the product of the two values, wrapping.
pub proof fn lemma_value_by_parts(tree: Expr)
    ensures
        tree.value() == match tree {
            Expr::Number(n) => n,
            Expr::Paren(inner) => inner.value(),
            Expr::Sum(lhs, rhs) => lhs.value().wrapping_add(rhs.value()),
            Expr::Product(lhs, rhs) => lhs.value().wrapping_mul(rhs.value()),
        },
{
    let m = modulus() as int;
    match tree {
        Expr::Number(_) => {},
        Expr::Paren(_) => {},
        Expr::Sum(lhs, rhs) => {
            lemma_add_mod_noop(lhs.exact_value() as int, rhs.exact_value() as int, m);
        },
        Expr::Product(lhs, rhs) => {
            lemma_mul_mod_noop(lhs.exact_value() as int, rhs.exact_value() as int, m);
        },
    }
}

/// Evaluates a tree.
pub fn eval(node: &ParseNode) -> (value: u64)
    requires
        node.well_formed(),
    ensures
        value == node@.value(),
    decreases node,
{
    proof {
        lemma_value_by_parts(node@);
    }
    match node.entry {
        GrammarItem::Paren => eval(&node.children[0]),
        GrammarItem::Sum => {
            let lhs = eval(&node.children[0]);
            let rhs = eval(&node.children[1]);
            lhs.wrapping_add(rhs)
        },
        GrammarItem::Product => {
            let lhs = eval(&node.children[0]);
            let rhs = eval(&node.children[1]);
            lhs.wrapping_mul(rhs)
        },
        GrammarItem::Number(n) => n,
    }
}

} // verus!
