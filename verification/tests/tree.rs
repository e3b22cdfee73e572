use arith_parser::number::numeral;
use arith_parser::{dump, eval, parse, GrammarItem, ParseNode};

fn number(n: u64) -> ParseNode {
    let mut node = ParseNode::new();
    node.entry = GrammarItem::Number(n);
    node
}

fn unary(entry: GrammarItem, child: ParseNode) -> ParseNode {
    let mut node = ParseNode::new();
    node.entry = entry;
    node.children.push(child);
    node
}

fn binary(entry: GrammarItem, lhs: ParseNode, rhs: ParseNode) -> ParseNode {
    let mut node = ParseNode::new();
    node.entry = entry;
    node.children.push(lhs);
    node.children.push(rhs);
    node
}

/// A small generator of numbers, the same on every run.
struct Dice(u64);

impl Dice {
    fn roll(&mut self) -> u64 {
        self.0 ^= self.0 << 13;
        self.0 ^= self.0 >> 7;
        self.0 ^= self.0 << 17;
        self.0
    }
}

fn any_tree(depth: u32, dice: &mut Dice) -> ParseNode {
    if depth <= 1 {
        return number(dice.roll());
    }
    match dice.roll() % 3 {
        0 => unary(GrammarItem::Paren, any_tree(depth - 1, dice)),
        1 => binary(GrammarItem::Sum, any_tree(depth - 1, dice), any_tree(depth - 1, dice)),
        _ => binary(GrammarItem::Product, any_tree(depth - 1, dice), any_tree(depth - 1, dice)),
    }
}

#[test]
fn new_node_is_an_empty_paren() {
    let node = ParseNode::new();
    assert_eq!(node.entry, GrammarItem::Paren);
    assert!(node.children.is_empty());
    assert!(!node.is_well_formed());
}

#[test]
fn well_formed_counts_children_in_every_node() {
    assert!(number(3).is_well_formed());
    assert!(unary(GrammarItem::Paren, number(3)).is_well_formed());
    assert!(binary(GrammarItem::Sum, number(3), number(4)).is_well_formed());
    assert!(binary(GrammarItem::Product, number(3), number(4)).is_well_formed());
    assert!(!unary(GrammarItem::Sum, number(3)).is_well_formed());
    assert!(!unary(GrammarItem::Number(1), number(3)).is_well_formed());
    assert!(!binary(GrammarItem::Paren, number(3), number(4)).is_well_formed());
    assert!(!binary(GrammarItem::Sum, number(3), ParseNode::new()).is_well_formed());
}

#[test]
fn clone_copies_the_whole_tree() {
    let tree = binary(
        GrammarItem::Product,
        unary(GrammarItem::Paren, binary(GrammarItem::Sum, number(1), number(2))),
        number(3),
    );
    let copy = tree.clone();
    assert_eq!(copy, tree);
    assert_eq!(dump(&copy), "(1 + 2) * 3");
    let odd = unary(GrammarItem::Sum, ParseNode::new());
    assert_eq!(odd.clone(), odd);
}

#[test]
fn eval_follows_the_tree() {
    assert_eq!(eval(&number(5)), 5);
    assert_eq!(eval(&unary(GrammarItem::Paren, number(5))), 5);
    assert_eq!(eval(&binary(GrammarItem::Sum, number(5), number(6))), 11);
    assert_eq!(eval(&binary(GrammarItem::Product, number(5), number(6))), 30);
    let tree = binary(
        GrammarItem::Product,
        binary(GrammarItem::Sum, number(1), number(2)),
        number(3),
    );
    assert_eq!(eval(&tree), 9);
}

#[test]
fn eval_wraps_on_overflow() {
    assert_eq!(eval(&parse("18446744073709551615 + 1").expect("parse failed")), 0);
    assert_eq!(eval(&parse("18446744073709551615 + 18446744073709551615").expect("parse failed")), u64::MAX - 1);
    assert_eq!(eval(&parse("4294967296 * 4294967296").expect("parse failed")), 0);
    assert_eq!(
        eval(&parse("18446744073709551615 * 18446744073709551615").expect("parse failed")),
        1
    );
    assert_eq!(eval(&parse("6442450944 * 6442450944 + 5").expect("parse failed")), 4611686018427387909);
}

#[test]
fn dump_writes_what_the_tree_holds() {
    assert_eq!(dump(&number(0)), "0");
    assert_eq!(dump(&number(u64::MAX)), "18446744073709551615");
    assert_eq!(dump(&unary(GrammarItem::Paren, number(5))), "(5)");
    assert_eq!(dump(&binary(GrammarItem::Sum, number(5), number(6))), "5 + 6");
    assert_eq!(dump(&binary(GrammarItem::Product, number(5), number(6))), "5 * 6");
}

#[test]
fn dump_adds_no_brackets() {
    let tree = binary(
        GrammarItem::Product,
        binary(GrammarItem::Sum, number(1), number(2)),
        number(3),
    );
    assert_eq!(dump(&tree), "1 + 2 * 3");
    let tree = binary(
        GrammarItem::Sum,
        binary(GrammarItem::Sum, number(1), number(2)),
        number(3),
    );
    assert_eq!(dump(&tree), "1 + 2 + 3");
}

#[test]
fn dump_makes_brackets_round_and_spaces_even() {
    let tree = parse("{1+[ 2 ]}*3").expect("parse failed");
    assert_eq!(dump(&tree), "(1 + (2)) * 3");
    let tree = parse("  007+0  ").expect("parse failed");
    assert_eq!(dump(&tree), "7 + 0");
}

#[test]
fn numeral_has_no_leading_zero() {
    assert_eq!(numeral(0), "0");
    assert_eq!(numeral(9), "9");
    assert_eq!(numeral(10), "10");
    assert_eq!(numeral(1234567890), "1234567890");
    assert_eq!(numeral(u64::MAX), "18446744073709551615");
}

#[test]
fn parse_undoes_dump_on_a_tree_of_the_grammar() {
    let tree = binary(
        GrammarItem::Sum,
        binary(
            GrammarItem::Product,
            number(2),
            unary(GrammarItem::Paren, binary(GrammarItem::Sum, number(3), number(4))),
        ),
        binary(GrammarItem::Sum, number(5), number(6)),
    );
    assert_eq!(dump(&tree), "2 * (3 + 4) + 5 + 6");
    assert_eq!(parse(&dump(&tree)), Ok(tree));
}

#[test]
fn parse_regroups_a_tree_that_is_not_of_the_grammar() {
    let tree = binary(
        GrammarItem::Product,
        binary(GrammarItem::Sum, number(1), number(2)),
        binary(GrammarItem::Sum, number(3), number(4)),
    );
    let text = dump(&tree);
    assert_eq!(text, "1 + 2 * 3 + 4");
    let again = parse(&text).expect("parse failed");
    let expected = binary(
        GrammarItem::Sum,
        number(1),
        binary(
            GrammarItem::Sum,
            binary(GrammarItem::Product, number(2), number(3)),
            number(4),
        ),
    );
    assert_eq!(again, expected);
    assert_eq!(dump(&again), text);
    assert_eq!(eval(&tree), 21);
    assert_eq!(eval(&again), 11);
}

#[test]
fn dump_is_stable_under_parse_for_any_tree() {
    let mut dice = Dice(0x2545F4914F6CDD1D);
    for _ in 0..200 {
        let tree = any_tree(5, &mut dice);
        let text = dump(&tree);
        let again = parse(&text).expect("parse failed");
        assert!(again.is_well_formed());
        assert_eq!(dump(&again), text);
    }
}

#[test]
fn dump_is_idempotent_under_parse_for_any_text() {
    for text in ["1+2", "[1]*{2+3}", "  4 *5* 6+7 ", "((8))", "0009 + (1 * [2 + {3}])"] {
        let tree = parse(text).expect("parse failed");
        let once = dump(&tree);
        let again = parse(&once).expect("parse failed");
        assert_eq!(again, tree);
        assert_eq!(dump(&again), once);
    }
}
