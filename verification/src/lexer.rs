//! The scanner: from text to tokens.

use vstd::prelude::*;
use crate::error::LexError;
use crate::number::{
    digit_to_number,
    is_decimal_digit,
    is_digit,
    lemma_number_value_step,
    number_value,
};
use crate::token::{is_bracket, is_operator, is_paren, LexItem};

verus! {

/// The characters of a text, in order.
fn chars_of(text: &str) -> (chars: Vec<char>)
    ensures
        chars@ == text@,
{
    let mut chars: Vec<char> = Vec::new();
    for c in it: text.chars()
        invariant
            it.seq() == text@,
            chars@ == it.seq().take(it.index() as int),
    {
        chars.push(c);
    }
    chars
}

/// The length of the run of digits that `text` starts with.
pub open spec fn digit_run(text: Seq<char>) -> nat
    decreases text.len(),
{
    if text.len() > 0 && is_digit(text[0]) {
        1 + digit_run(text.drop_first())
    } else {
        0
    }
}

/// `done` followed by the tokens of `rest`, or the error of `rest`.
pub open spec fn tokens_then(done: Seq<LexItem>, rest: Result<Seq<LexItem>, LexError>) -> Result<
    Seq<LexItem>,
    LexError,
> {
    match rest {
        Ok(tokens) => Ok(done + tokens),
        Err(e) => Err(e),
    }
}

/// A run of digits is no longer than the text, and not empty where the text
/// starts with a digit.
pub proof fn lemma_digit_run_bounds(text: Seq<char>)
    ensures
        digit_run(text) <= text.len(),
        text.len() > 0 && is_digit(text[0]) ==> digit_run(text) > 0,
    decreases text.len(),
{
    if text.len() > 0 && is_digit(text[0]) {
        lemma_digit_run_bounds(text.drop_first());
    }
}

/// The tokens of a text.
///
/// A run of digits, taken as long as it goes, is one number. `+` and `*`
/// are operators, the six bracket characters are brackets, a space
/// separates and is dropped. The first character that is none of these is
/// the error, and then no token is handed out.
pub open spec fn lex_spec(text: Seq<char>) -> Result<Seq<LexItem>, LexError>
    decreases text.len(),
{
    if text.len() == 0 {
        Ok(Seq::empty())
    } else if is_digit(text[0]) {
        let run = digit_run(text) as int;
        proof {
            lemma_digit_run_bounds(text);
        }
        tokens_then(seq![LexItem::Num(number_value(text.take(run)))], lex_spec(text.skip(run)))
    } else if is_operator(text[0]) {
        tokens_then(seq![LexItem::Op(text[0])], lex_spec(text.skip(1)))
    } else if is_bracket(text[0]) {
        tokens_then(seq![LexItem::Paren(text[0])], lex_spec(text.skip(1)))
    } else if text[0] == ' ' {
        lex_spec(text.skip(1))
    } else {
        Err(LexError { unexpected: text[0] })
    }
}

/// The token is one that scanning can give: any number, the operator `+`
/// or `*`, or one of the six brackets.
pub open spec fn is_lexical(token: LexItem) -> bool {
    match token {
        LexItem::Num(_) => true,
        LexItem::Op(c) => is_operator(c),
        LexItem::Paren(c) => is_bracket(c),
    }
}

/// `c` may stand in a text that scanning accepts.
pub open spec fn is_legal(c: char) -> bool {
    is_digit(c) || is_operator(c) || is_bracket(c) || c == ' '
}

/// Scanning succeeds exactly on the texts made of digits, operators,
/// brackets and spaces, and then gives only tokens of these; where it fails,
/// the error is the first character of the text that is none of them.
pub proof fn lemma_lex_alphabet(text: Seq<char>)
    ensures
        lex_spec(text) is Ok <==> forall|i: int| 0 <= i < text.len() ==> is_legal(#[trigger] text[i]),
        lex_spec(text) matches Ok(tokens) ==> forall|i: int|
            0 <= i < tokens.len() ==> is_lexical(#[trigger] tokens[i]),
        lex_spec(text) matches Err(e) ==> exists|at: int|
            0 <= at < text.len() && text[at] == e.unexpected && !is_legal(text[at]) && forall|i: int|
                0 <= i < at ==> is_legal(#[trigger] text[i]),
    decreases text.len(),
{
    if text.len() > 0 {
        let step = if is_digit(text[0]) {
            digit_run(text) as int
        } else {
            1
        };
        lemma_digit_run_bounds(text);
        let rest = text.skip(step);
        lemma_lex_alphabet(rest);
        assert forall|i: int| 0 <= i < step implies is_legal(#[trigger] text[i]) || (i == 0
            && !is_legal(text[0])) by {
            if is_digit(text[0]) {
                lemma_digit_run_digits(text, i);
            }
        }
        assert forall|i: int| step <= i < text.len() implies text[i] == rest[i - step] by {}
        if is_legal(text[0]) {
            if (forall|i: int| 0 <= i < rest.len() ==> is_legal(#[trigger] rest[i])) {
                assert forall|i: int| 0 <= i < text.len() implies is_legal(#[trigger] text[i]) by {}
            }
            if (forall|i: int| 0 <= i < text.len() ==> is_legal(#[trigger] text[i])) {
                assert forall|i: int| 0 <= i < rest.len() implies is_legal(#[trigger] rest[i]) by {}
            }
            if let Err(e) = lex_spec(rest) {
                let at = choose|at: int|
                    0 <= at < rest.len() && rest[at] == e.unexpected && !is_legal(rest[at])
                        && forall|i: int| 0 <= i < at ==> is_legal(#[trigger] rest[i]);
                assert forall|i: int| 0 <= i < at + step implies is_legal(#[trigger] text[i]) by {}
            }
        }
    }
}

/// Within its run of digits a text holds digits.
proof fn lemma_digit_run_digits(text: Seq<char>, i: int)
    requires
        0 <= i < digit_run(text),
    ensures
        i < text.len(),
        is_digit(text[i]),
    decreases i,
{
    if i > 0 {
        lemma_digit_run_digits(text.drop_first(), i - 1);
    }
}

/// A run of digits is as long as `digit_run` says when it ends at `run`.
pub proof fn lemma_digit_run(text: Seq<char>, run: nat)
    requires
        run <= text.len(),
        forall|i: int| 0 <= i < run ==> is_digit(#[trigger] text[i]),
        run < text.len() ==> !is_digit(text[run as int]),
    ensures
        digit_run(text) == run,
    decreases run,
{
    if run > 0 {
        let rest = text.drop_first();
        assert forall|i: int| 0 <= i < run - 1 implies is_digit(#[trigger] rest[i]) by {}
        lemma_digit_run(rest, (run - 1) as nat);
    }
}

/// Tokens put in front in two steps are put in front at once.
pub proof fn lemma_tokens_then_joined(
    done: Seq<LexItem>,
    others: Seq<LexItem>,
    rest: Result<Seq<LexItem>, LexError>,
)
    ensures
        tokens_then(done, tokens_then(others, rest)) == tokens_then(done + others, rest),
{
    if let Ok(tokens) = rest {
        assert(done + (others + tokens) =~= (done + others) + tokens);
    }
}

/// Reads the number whose first digit stands at `start`: its value, and the
/// index behind its last digit.
pub fn get_number(chars: &Vec<char>, start: usize) -> (found: (u64, usize))
    requires
        start < chars@.len(),
        is_digit(chars@[start as int]),
    ensures
        found.1 == start + digit_run(chars@.skip(start as int)),
        start < found.1 <= chars@.len(),
        found.0 == number_value(chars@.subrange(start as int, found.1 as int)),
{
    let mut num: u64 = digit_to_number(chars[start]);
    assert(chars.len() <= usize::MAX);
    let mut end: usize = start + 1;
    proof {
        let none = Seq::<char>::empty();
        lemma_number_value_step(none, chars@[start as int]);
        assert(chars@.subrange(start as int, start + 1) =~= none.push(chars@[start as int]));
    }
    while end < chars.len() && is_decimal_digit(chars[end])
        invariant
            start < end <= chars@.len(),
            forall|i: int| start <= i < end ==> is_digit(#[trigger] chars@[i]),
            num == number_value(chars@.subrange(start as int, end as int)),
        ensures
            end < chars@.len() ==> !is_digit(chars@[end as int]),
        decreases chars@.len() - end,
    {
        let digit = digit_to_number(chars[end]);
        proof {
            let read = chars@.subrange(start as int, end as int);
            lemma_number_value_step(read, chars@[end as int]);
            assert(chars@.subrange(start as int, end + 1) =~= read.push(chars@[end as int]));
        }
        num = num.wrapping_mul(10).wrapping_add(digit);
        end += 1;
    }
    proof {
        let tail = chars@.skip(start as int);
        assert forall|i: int| 0 <= i < end - start implies is_digit(#[trigger] tail[i]) by {}
        lemma_digit_run(tail, (end - start) as nat);
    }
    (num, end)
}

/// Scans a text into its tokens.
pub fn lex(input: &str) -> (scanned: Result<Vec<LexItem>, LexError>)
    ensures
        match scanned {
            Ok(tokens) => lex_spec(input@) == Ok::<Seq<LexItem>, LexError>(tokens@),
            Err(e) => lex_spec(input@) == Err::<Seq<LexItem>, LexError>(e),
        },
{
    let chars = chars_of(input);
    let mut tokens: Vec<LexItem> = Vec::new();
    let mut at: usize = 0;
    assert(chars@.skip(0) =~= chars@);
    while at < chars.len()
        invariant
            at <= chars@.len(),
            chars@ == input@,
            lex_spec(chars@) == tokens_then(tokens@, lex_spec(chars@.skip(at as int))),
        decreases chars@.len() - at,
    {
        let c = chars[at];
        let ghost rest = chars@.skip(at as int);
        let ghost before = tokens@;
        if is_decimal_digit(c) {
            let (n, end) = get_number(&chars, at);
            tokens.push(LexItem::Num(n));
            proof {
                let run = digit_run(rest);
                assert(rest.take(run as int) =~= chars@.subrange(at as int, end as int));
                assert(rest.skip(run as int) =~= chars@.skip(end as int));
                lemma_tokens_then_joined(before, seq![LexItem::Num(n)], lex_spec(chars@.skip(end as int)));
                assert(before + seq![LexItem::Num(n)] =~= before.push(LexItem::Num(n)));
            }
            at = end;
        } else if c == '+' || c == '*' {
            tokens.push(LexItem::Op(c));
            proof {
                assert(rest.skip(1) =~= chars@.skip(at + 1));
                lemma_tokens_then_joined(before, seq![LexItem::Op(c)], lex_spec(chars@.skip(at + 1)));
                assert(before + seq![LexItem::Op(c)] =~= before.push(LexItem::Op(c)));
            }
            at += 1;
        } else if is_paren(c) {
            tokens.push(LexItem::Paren(c));
            proof {
                assert(rest.skip(1) =~= chars@.skip(at + 1));
                lemma_tokens_then_joined(before, seq![LexItem::Paren(c)], lex_spec(chars@.skip(at + 1)));
                assert(before + seq![LexItem::Paren(c)] =~= before.push(LexItem::Paren(c)));
            }
            at += 1;
        } else if c == ' ' {
            proof {
                assert(rest.skip(1) =~= chars@.skip(at + 1));
            }
            at += 1;
        } else {
            return Err(LexError { unexpected: c });
        }
    }
    Ok(tokens)
}

} // verus!
