use arith_parser::{parse, LexError, LexItem, ParseError, SyntaxError};

#[test]
fn lex_error_names_the_character() {
    let e = LexError { unexpected: '&' };
    assert_eq!(e.message(), "unexpected character: &");
    assert_eq!(parse("1 & 2").unwrap_err().message(), "unexpected character: &");
    assert_eq!(parse("1 ÷ 2").unwrap_err().message(), "unexpected character: ÷");
}

#[test]
fn parse_error_names_token_and_position() {
    assert_eq!(
        parse("1 +").unwrap_err().message(),
        "unexpected end of input at 2: expected a number or an opening bracket"
    );
    assert_eq!(
        parse("* 1").unwrap_err().message(),
        "unexpected token * at 0: expected a number or an opening bracket"
    );
    assert_eq!(parse("(1+2]").unwrap_err().message(), "expected ) but found ] at 4");
    assert_eq!(parse("[1 23").unwrap_err().message(), "expected ] but found 23 at 2");
    assert_eq!(parse("{1").unwrap_err().message(), "expected } but the input ended at 2");
    assert_eq!(parse("1 + 2)").unwrap_err().message(), "unexpected trailing token ) at 3");
    assert_eq!(parse("1 2 3 4 5 6 7 8 9 10 +").unwrap_err().message(), "unexpected trailing token 2 at 1");
    let far = ParseError::TrailingToken { found: LexItem::Num(120), position: 1024 };
    assert_eq!(far.message(), "unexpected trailing token 120 at 1024");
    assert_eq!(SyntaxError::Parse(far).message(), "unexpected trailing token 120 at 1024");
}

#[test]
fn parse_error_tells_its_position() {
    assert_eq!(ParseError::UnexpectedEnd { position: 3 }.position(), 3);
    assert_eq!(
        ParseError::UnexpectedToken { found: LexItem::Op('+'), position: 4 }.position(),
        4
    );
    assert_eq!(
        ParseError::MismatchedBracket { expected: ')', found: LexItem::Paren(']'), position: 5 }
            .position(),
        5
    );
    assert_eq!(ParseError::UnclosedBracket { expected: ')', position: 6 }.position(), 6);
    assert_eq!(
        ParseError::TrailingToken { found: LexItem::Num(1), position: 7 }.position(),
        7
    );
}
