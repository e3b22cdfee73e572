//! The syntax tree: the node type that the parser builds, and the
//! mathematical expression that a well-formed node stands for.

use vstd::prelude::*;

verus! {

/// The kind of a syntax node.
#[derive(Debug, Clone, Copy, PartialEq, Eq)]
pub enum GrammarItem {
    Product,
    Sum,
    Number(u64),
    Paren,
}

/// A syntax node: its kind and its children, left to right.
///
/// A `Number` has no child, a `Paren` has one, a `Sum` and a `Product` have
/// two. The fields are public, so a node can be put together by hand; whether
/// it keeps to these counts is what [`ParseNode::well_formed`] says.
#[derive(Debug, PartialEq, Eq)]
pub struct ParseNode {
    pub entry: GrammarItem,
    pub children: Vec<ParseNode>,
}

/// The expression that a well-formed node stands for.
pub enum Expr {
    Number(u64),
    Paren(Box<Expr>),
    Sum(Box<Expr>, Box<Expr>),
    Product(Box<Expr>, Box<Expr>),
}

impl ParseNode {
    /// Every node of the tree has the number of children that its kind asks
    /// for.
    pub open spec fn well_formed(&self) -> bool
        decreases self,
    {
        &&& self.children@.len() == match self.entry {
            GrammarItem::Number(_) => 0nat,
            GrammarItem::Paren => 1nat,
            GrammarItem::Sum | GrammarItem::Product => 2nat,
        }
        &&& forall|i: int|
            0 <= i < self.children@.len() ==> (#[trigger] self.children@[i]).well_formed()
    }

    /// A fresh node: a `Paren` without children, to be given its kind and
    /// its children by the caller.
    pub fn new() -> (node: Self)
        ensures
            node.entry == GrammarItem::Paren,
            node.children@.len() == 0,
    {
        ParseNode { entry: GrammarItem::Paren, children: Vec::new() }
    }

    /// The two trees are alike node by node: the same kinds, the same
    /// numbers of children, and children that are alike.
    pub open spec fn mirrors(&self, other: &ParseNode) -> bool
        decreases self,
    {
        &&& self.entry == other.entry
        &&& self.children@.len() == other.children@.len()
        &&& forall|i: int|
            0 <= i < self.children@.len() ==> (#[trigger] self.children@[i]).mirrors(
                &other.children@[i],
            )
    }

    /// Trees that are alike are well formed together, and then stand for the
    /// same expression.
    pub proof fn lemma_mirrors(&self, other: &ParseNode)
        requires
            self.mirrors(other),
        ensures
            self.well_formed() == other.well_formed(),
            self.well_formed() ==> self@ == other@,
        decreases self,
    {
        assert forall|i: int| 0 <= i < self.children@.len() implies (
        #[trigger] self.children@[i]).well_formed() == other.children@[i].well_formed() && (
        self.children@[i].well_formed() ==> self.children@[i]@ == other.children@[i]@) by {
            self.children@[i].lemma_mirrors(&other.children@[i]);
        }
        if self.well_formed() {
            assert forall|i: int| 0 <= i < other.children@.len() implies (
            #[trigger] other.children@[i]).well_formed() by {
                assert(self.children@[i].well_formed());
            }
        }
        if other.well_formed() {
            assert forall|i: int| 0 <= i < self.children@.len() implies (
            #[trigger] self.children@[i]).well_formed() by {}
        }
    }

    /// Tells whether every node has the number of children that its kind
    /// asks for.
    pub fn is_well_formed(&self) -> (ok: bool)
        ensures
            ok == self.well_formed(),
        decreases self,
    {
        let arity: usize = match self.entry {
            GrammarItem::Number(_) => 0,
            GrammarItem::Paren => 1,
            GrammarItem::Sum | GrammarItem::Product => 2,
        };
        if self.children.len() != arity {
            return false;
        }
        let mut i: usize = 0;
        while i < self.children.len()
            invariant
                i <= self.children@.len(),
                forall|j: int| 0 <= j < i ==> (#[trigger] self.children@[j]).well_formed(),
            decreases self.children@.len() - i,
        {
            if !self.children[i].is_well_formed() {
                return false;
            }
            i += 1;
        }
        true
    }
}

impl View for ParseNode {
    type V = Expr;

    /// The expression of a well-formed node; of any other node nothing is
    /// said.
    open spec fn view(&self) -> Expr
        decreases self,
    {
        if self.well_formed() {
            match self.entry {
                GrammarItem::Number(n) => Expr::Number(n),
                GrammarItem::Paren => Expr::Paren(Box::new(self.children@[0]@)),
                GrammarItem::Sum => Expr::Sum(
                    Box::new(self.children@[0]@),
                    Box::new(self.children@[1]@),
                ),
                GrammarItem::Product => Expr::Product(
                    Box::new(self.children@[0]@),
                    Box::new(self.children@[1]@),
                ),
            }
        } else {
            arbitrary()
        }
    }
}

impl Clone for ParseNode {
    /// A copy of the tree, node by node.
    fn clone(&self) -> (copy: Self)
        ensures
            copy.mirrors(self),
            copy.well_formed() == self.well_formed(),
            self.well_formed() ==> copy@ == self@,
        decreases self,
    {
        let mut children: Vec<ParseNode> = Vec::new();
        let mut i: usize = 0;
        while i < self.children.len()
            invariant
                i <= self.children@.len(),
                children@.len() == i,
                forall|j: int| 0 <= j < i ==> (#[trigger] children@[j]).mirrors(&self.children@[j]),
            decreases self.children@.len() - i,
        {
            let child = self.children[i].clone();
            children.push(child);
            i += 1;
        }
        let copy = ParseNode { entry: self.entry, children };
        proof {
            copy.lemma_mirrors(self);
        }
        copy
    }
}

} // verus!
