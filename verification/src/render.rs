//! The printer: from a syntax tree to its canonical text.

use vstd::prelude::*;
use vstd::string::StringExecFns;
use crate::number::{decimal, numeral};
use crate::tree::{Expr, GrammarItem, ParseNode};

verus! {

impl Expr {
    /// The canonical text of the expression.
    ///
    /// A number is its decimal numeral. Brackets are round, whatever was
    /// read, and stand exactly where the tree has a `Paren`. An operator has
    /// one space on each side.
    pub open spec fn rendered(self) -> Seq<char>
        decreases self,
    {
        match self {
            Expr::Number(n) => decimal(n as nat),
            Expr::Paren(inner) => seq!['('] + inner.rendered() + seq![')'],
            Expr::Sum(lhs, rhs) => lhs.rendered() + seq![' ', '+', ' '] + rhs.rendered(),
            Expr::Product(lhs, rhs) => lhs.rendered() + seq![' ', '*', ' '] + rhs.rendered(),
        }
    }
}

/// Prints a tree in canonical form.
pub fn dump(tree: &ParseNode) -> (text: String)
    requires
        tree.well_formed(),
    ensures
        text@ == tree@.rendered(),
    decreases tree,
{
    match tree.entry {
        GrammarItem::Paren => {
            let inner = dump(&tree.children[0]);
            let mut text = String::from_str("(");
            text.append(inner.as_str());
            text.append(")");
            proof {
                reveal_strlit("(");
                reveal_strlit(")");
            }
            text
        },
        GrammarItem::Sum => {
            let mut text = dump(&tree.children[0]);
            let rhs = dump(&tree.children[1]);
            text.append(" + ");
            text.append(rhs.as_str());
            proof {
                reveal_strlit(" + ");
            }
            text
        },
        GrammarItem::Product => {
            let mut text = dump(&tree.children[0]);
            let rhs = dump(&tree.children[1]);
            text.append(" * ");
            text.append(rhs.as_str());
            proof {
                reveal_strlit(" * ");
            }
            text
        },
        GrammarItem::Number(n) => numeral(n),
    }
}

} // verus!
