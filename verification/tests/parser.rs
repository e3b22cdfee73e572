use arith_parser::{
    dump, eval, parse, parse_expr, parse_summand, parse_term, GrammarItem, LexItem, ParseError,
    ParseNode, SyntaxError,
};

fn number(n: u64) -> ParseNode {
    let mut node = ParseNode::new();
    node.entry = GrammarItem::Number(n);
    node
}

fn unary(entry: GrammarItem, child: ParseNode) -> ParseNode {
    let mut node = ParseNode::new();
    node.entry = entry;
    node.children.push(child);
    node
}

fn binary(entry: GrammarItem, lhs: ParseNode, rhs: ParseNode) -> ParseNode {
    let mut node = ParseNode::new();
    node.entry = entry;
    node.children.push(lhs);
    node.children.push(rhs);
    node
}

#[test]
fn test1() {
    let input = "1 + 2";
    let val = eval(&parse(input).expect("parse failed"));
    assert_eq!(val, 1 + 2);
}

#[test]
fn test2() {
    let input = "1 + 2 * 3";
    let val = eval(&parse(input).expect("parse failed"));
    assert_eq!(val, 1 + 2 * 3);
}

#[test]
fn sum_groups_to_the_right() {
    let tree = parse("1 + 2 + 3").expect("parse failed");
    assert_eq!(dump(&tree), "1 + 2 + 3");
    assert_eq!(eval(&tree), 6);
    let expected = binary(
        GrammarItem::Sum,
        number(1),
        binary(GrammarItem::Sum, number(2), number(3)),
    );
    assert_eq!(tree, expected);
}

#[test]
fn product_groups_to_the_right() {
    let tree = parse("2 * 3 * 4").expect("parse failed");
    assert_eq!(eval(&tree), 24);
    assert_eq!(tree.entry, GrammarItem::Product);
    assert_eq!(tree.children[0], number(2));
    assert_eq!(tree.children[1], binary(GrammarItem::Product, number(3), number(4)));
}

#[test]
fn product_binds_tighter_than_sum() {
    let tree = parse("1 + 2 * 3").expect("parse failed");
    assert_eq!(eval(&tree), 7);
    let expected = binary(
        GrammarItem::Sum,
        number(1),
        binary(GrammarItem::Product, number(2), number(3)),
    );
    assert_eq!(tree, expected);
    let tree = parse("2 * 3 + 1").expect("parse failed");
    assert_eq!(eval(&tree), 7);
    let expected = binary(
        GrammarItem::Sum,
        binary(GrammarItem::Product, number(2), number(3)),
        number(1),
    );
    assert_eq!(tree, expected);
}

#[test]
fn brackets_override_precedence() {
    let tree = parse("(1 + 2) * 3").expect("parse failed");
    assert_eq!(eval(&tree), 9);
    let expected = binary(
        GrammarItem::Product,
        unary(GrammarItem::Paren, binary(GrammarItem::Sum, number(1), number(2))),
        number(3),
    );
    assert_eq!(tree, expected);
}

#[test]
fn bracket_styles_nest_freely() {
    let tree = parse("(1+[2])").expect("parse failed");
    assert_eq!(eval(&tree), 3);
    assert_eq!(dump(&tree), "(1 + (2))");
    let tree = parse("{[(7)]}").expect("parse failed");
    assert_eq!(eval(&tree), 7);
    assert_eq!(dump(&tree), "(((7)))");
}

#[test]
fn bracket_of_another_style_is_refused() {
    assert_eq!(
        parse("(1+2]"),
        Err(SyntaxError::Parse(ParseError::MismatchedBracket {
            expected: ')',
            found: LexItem::Paren(']'),
            position: 4,
        }))
    );
    assert_eq!(
        parse("{1)"),
        Err(SyntaxError::Parse(ParseError::MismatchedBracket {
            expected: '}',
            found: LexItem::Paren(')'),
            position: 2,
        }))
    );
    assert_eq!(
        parse("[1("),
        Err(SyntaxError::Parse(ParseError::MismatchedBracket {
            expected: ']',
            found: LexItem::Paren('('),
            position: 2,
        }))
    );
}

#[test]
fn token_in_place_of_closing_bracket_is_refused() {
    assert_eq!(
        parse("(1 2)"),
        Err(SyntaxError::Parse(ParseError::MismatchedBracket {
            expected: ')',
            found: LexItem::Num(2),
            position: 2,
        }))
    );
}

#[test]
fn unclosed_bracket_is_refused() {
    assert_eq!(
        parse("(1"),
        Err(SyntaxError::Parse(ParseError::UnclosedBracket { expected: ')', position: 2 }))
    );
    assert_eq!(
        parse("[1 + {2}"),
        Err(SyntaxError::Parse(ParseError::UnclosedBracket { expected: ']', position: 6 }))
    );
}

#[test]
fn trailing_token_is_refused() {
    assert_eq!(
        parse("1 + 2)"),
        Err(SyntaxError::Parse(ParseError::TrailingToken {
            found: LexItem::Paren(')'),
            position: 3,
        }))
    );
    assert_eq!(
        parse("1 2"),
        Err(SyntaxError::Parse(ParseError::TrailingToken { found: LexItem::Num(2), position: 1 }))
    );
}

#[test]
fn missing_operand_is_refused() {
    assert_eq!(
        parse(""),
        Err(SyntaxError::Parse(ParseError::UnexpectedEnd { position: 0 }))
    );
    assert_eq!(
        parse("   "),
        Err(SyntaxError::Parse(ParseError::UnexpectedEnd { position: 0 }))
    );
    assert_eq!(
        parse("1 +"),
        Err(SyntaxError::Parse(ParseError::UnexpectedEnd { position: 2 }))
    );
    assert_eq!(
        parse("(2 *"),
        Err(SyntaxError::Parse(ParseError::UnexpectedEnd { position: 3 }))
    );
}

#[test]
fn token_that_starts_no_term_is_refused() {
    assert_eq!(
        parse("+ 1"),
        Err(SyntaxError::Parse(ParseError::UnexpectedToken {
            found: LexItem::Op('+'),
            position: 0,
        }))
    );
    assert_eq!(
        parse("1 * * 2"),
        Err(SyntaxError::Parse(ParseError::UnexpectedToken {
            found: LexItem::Op('*'),
            position: 2,
        }))
    );
    assert_eq!(
        parse("()"),
        Err(SyntaxError::Parse(ParseError::UnexpectedToken {
            found: LexItem::Paren(')'),
            position: 1,
        }))
    );
}

#[test]
fn lex_error_comes_before_parse_error() {
    assert_eq!(
        parse("1 & 2"),
        Err(SyntaxError::Lex(arith_parser::LexError { unexpected: '&' }))
    );
    assert_eq!(
        parse(") + ?"),
        Err(SyntaxError::Lex(arith_parser::LexError { unexpected: '?' }))
    );
}

#[test]
fn rules_return_the_position_behind_what_they_took() {
    let tokens = vec![
        LexItem::Num(2),
        LexItem::Op('*'),
        LexItem::Num(3),
        LexItem::Op('+'),
        LexItem::Num(4),
        LexItem::Paren(')'),
    ];
    let (term, next) = parse_term(&tokens, 0).expect("term");
    assert_eq!(term, number(2));
    assert_eq!(next, 1);
    let (summand, next) = parse_summand(&tokens, 0).expect("summand");
    assert_eq!(summand, binary(GrammarItem::Product, number(2), number(3)));
    assert_eq!(next, 3);
    let (expr, next) = parse_expr(&tokens, 0).expect("expression");
    assert_eq!(
        expr,
        binary(
            GrammarItem::Sum,
            binary(GrammarItem::Product, number(2), number(3)),
            number(4)
        )
    );
    assert_eq!(next, 5);
    let (expr, next) = parse_expr(&tokens, 2).expect("expression");
    assert_eq!(expr, binary(GrammarItem::Sum, number(3), number(4)));
    assert_eq!(next, 5);
}

#[test]
fn rules_refuse_a_position_behind_the_tokens() {
    let tokens = vec![LexItem::Num(2)];
    assert_eq!(parse_term(&tokens, 1), Err(ParseError::UnexpectedEnd { position: 1 }));
    assert_eq!(parse_summand(&tokens, 7), Err(ParseError::UnexpectedEnd { position: 7 }));
    assert_eq!(
        parse_expr(&tokens, usize::MAX),
        Err(ParseError::UnexpectedEnd { position: usize::MAX })
    );
}

#[test]
fn rules_leave_an_unknown_operator_alone() {
    let tokens = vec![LexItem::Num(2), LexItem::Op('-'), LexItem::Num(3)];
    let (expr, next) = parse_expr(&tokens, 0).expect("expression");
    assert_eq!(expr, number(2));
    assert_eq!(next, 1);
    assert_eq!(
        parse_term(&tokens, 1),
        Err(ParseError::UnexpectedToken { found: LexItem::Op('-'), position: 1 })
    );
    let tokens = vec![LexItem::Paren('<'), LexItem::Num(3)];
    assert_eq!(
        parse_term(&tokens, 0),
        Err(ParseError::UnexpectedToken { found: LexItem::Paren('<'), position: 0 })
    );
}

#[test]
fn parsed_tree_is_well_formed() {
    let tree = parse("1234 + 43* (34 +[2])").expect("parse failed");
    assert!(tree.is_well_formed());
    assert_eq!(dump(&tree), "1234 + 43 * (34 + (2))");
    assert_eq!(eval(&tree), 1234 + 43 * (34 + 2));
}
