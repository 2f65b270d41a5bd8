use vstd::prelude::*;
use crate::general::TryReader;
use crate::parse::add::Add;
use crate::parse::grammar::{add_operators, operator_at, remaining, span_at, Expectation};
use crate::parse::syntaxtree::{fail, next_span, take_operator};
use crate::sourcecode::Code;
use crate::sourcecode::Span;
use crate::token::token::token_models;
use crate::token::Operator;
use crate::token::Token;
use crate::token::TokenModel;

verus! {

/// A sum of integer literals: the first number, then each `+` or `-` with
/// the number that follows it.
pub struct Sum {
    pub head: Code<i64>,
    pub tail: Vec<(Code<Operator>, Code<i64>)>,
}

/// What a sum is, with its tail as a sequence.
pub struct SumModel {
    pub head: Code<i64>,
    pub tail: Seq<(Code<Operator>, Code<i64>)>,
}

impl View for Sum {
    type V = SumModel;

    open spec fn view(&self) -> SumModel {
        SumModel { head: self.head, tail: self.tail@ }
    }
}

/// A program of the smallest form of the language: one sum.
pub struct Calculation {
    pub expression: Sum,
}

/// The integer literal at `pos`, if one stands there.
pub open spec fn literal_at(tokens: Seq<Code<TokenModel>>, pos: int) -> Option<Code<i64>> {
    if 0 <= pos < tokens.len() {
        match tokens[pos].value {
            TokenModel::Number(n) => Some(Code { value: n, span: tokens[pos].span }),
            _ => None,
        }
    } else {
        None
    }
}

/// sum_tail := ( ( "+" | "-" ) number )*
pub open spec fn sum_tail(tokens: Seq<Code<TokenModel>>, pos: int) -> Result<
    (Seq<(Code<Operator>, Code<i64>)>, nat),
    (Option<Span>, Expectation),
>
    decreases remaining(tokens, pos),
{
    match operator_at(tokens, pos, add_operators()) {
        None => Ok((Seq::empty(), 0)),
        Some(operator) => match literal_at(tokens, pos + 1) {
            None => Err(
                (
                    span_at(tokens, pos + 1),
                    if pos + 1 < tokens.len() {
                        Expectation::NotNumber
                    } else {
                        Expectation::MissingNumber
                    },
                ),
            ),
            Some(number) => match sum_tail(tokens, pos + 2) {
                Err(error) => Err(error),
                Ok((rest, used)) => Ok((seq![(operator, number)] + rest, 2 + used)),
            },
        },
    }
}

/// sum := number sum_tail
pub open spec fn sum(tokens: Seq<Code<TokenModel>>, pos: int) -> Result<
    (SumModel, nat),
    (Option<Span>, Expectation),
> {
    match literal_at(tokens, pos) {
        None => Err(
            (
                span_at(tokens, pos),
                if 0 <= pos < tokens.len() {
                    Expectation::NotNumber
                } else {
                    Expectation::MissingExpression
                },
            ),
        ),
        Some(head) => match sum_tail(tokens, pos + 1) {
            Err(error) => Err(error),
            Ok((tail, used)) => Ok((SumModel { head, tail }, 1 + used)),
        },
    }
}

/// Reads an integer literal. Where another token or none comes next, gives
/// `None` and leaves the cursor where it was.
fn take_number(reader: &mut TryReader<Code<Token>>) -> (r: Option<Code<i64>>)
    ensures
        final(reader).items() == old(reader).items(),
        0 <= old(reader).position() <= final(reader).position() <= old(reader).items().len(),
        r == literal_at(token_models(old(reader).items()), old(reader).position()),
        final(reader).position() == old(reader).position() + (if r is Some {
            1int
        } else {
            0int
        }),
{
    match reader.peek() {
        Some(token) => {
            match &token.value {
                Token::Number(n) => {
                    let _ = reader.next();
                    Some(Code { value: *n, span: token.span })
                },
                _ => None,
            }
        },
        None => None,
    }
}

/// Reads the operators and numbers that follow the first number of a sum.
fn parse_tail(token_reader: &mut TryReader<Code<Token>>) -> (r: Result<
    Vec<(Code<Operator>, Code<i64>)>,
    (Option<Span>, String),
>)
    ensures
        final(token_reader).items() == old(token_reader).items(),
        0 <= old(token_reader).position() <= final(token_reader).position(),
        final(token_reader).position() <= old(token_reader).items().len(),
        r is Err ==> final(token_reader).position() == old(token_reader).position(),
        match r {
            Ok(tail) => sum_tail(
                token_models(old(token_reader).items()),
                old(token_reader).position(),
            ) matches Ok(done) && done.0 == tail@ && old(token_reader).position() + done.1
                == final(token_reader).position(),
            Err(error) => sum_tail(
                token_models(old(token_reader).items()),
                old(token_reader).position(),
            ) matches Err(failure) && failure.0 == error.0 && failure.1.text() == error.1@,
        },
    decreases old(token_reader).items().len() - old(token_reader).position(),
{
    let start = token_reader.offset();
    let accepted = Add::operators();
    let mut tail: Vec<(Code<Operator>, Code<i64>)> = Vec::new();
    let operator = match take_operator(token_reader, &accepted) {
        Some(operator) => operator,
        None => {
            return Ok(tail);
        },
    };
    let number = match take_number(token_reader) {
        Some(number) => number,
        None => {
            let span = next_span(token_reader);
            if span.is_some() {
                return fail(token_reader, start, span, Expectation::NotNumber);
            } else {
                return fail(token_reader, start, span, Expectation::MissingNumber);
            }
        },
    };
    let mut rest = match parse_tail(token_reader) {
        Ok(rest) => rest,
        Err(error) => {
            token_reader.rewind(start);
            return Err(error);
        },
    };
    let ghost following = rest@;
    tail.push((operator, number));
    tail.append(&mut rest);
    assert(tail@ =~= seq![(operator, number)] + following);
    Ok(tail)
}

/// Reads a sum of integer literals.
pub fn parse_expression(token_reader: &mut TryReader<Code<Token>>) -> (r: Result<
    Sum,
    (Option<Span>, String),
>)
    ensures
        final(token_reader).items() == old(token_reader).items(),
        0 <= old(token_reader).position() <= final(token_reader).position(),
        final(token_reader).position() <= old(token_reader).items().len(),
        r is Err ==> final(token_reader).position() == old(token_reader).position(),
        match r {
            Ok(tree) => sum(token_models(old(token_reader).items()), old(token_reader).position())
                matches Ok(done) && done.0 == tree@ && old(token_reader).position() + done.1
                == final(token_reader).position(),
            Err(error) => sum(
                token_models(old(token_reader).items()),
                old(token_reader).position(),
            ) matches Err(failure) && failure.0 == error.0 && failure.1.text() == error.1@,
        },
{
    let start = token_reader.offset();
    let head = match take_number(token_reader) {
        Some(number) => number,
        None => {
            let span = next_span(token_reader);
            if span.is_some() {
                return fail(token_reader, start, span, Expectation::NotNumber);
            } else {
                return fail(token_reader, start, span, Expectation::MissingExpression);
            }
        },
    };
    match parse_tail(token_reader) {
        Ok(tail) => Ok(Sum { head, tail }),
        Err(error) => {
            token_reader.rewind(start);
            Err(error)
        },
    }
}

/// Reads a program that is one sum of integer literals.
pub fn parse(token_reader: &mut TryReader<Code<Token>>) -> (r: Result<
    Calculation,
    (Option<Span>, String),
>)
    ensures
        final(token_reader).items() == old(token_reader).items(),
        0 <= old(token_reader).position() <= final(token_reader).position(),
        final(token_reader).position() <= old(token_reader).items().len(),
        r is Err ==> final(token_reader).position() == old(token_reader).position(),
        match r {
            Ok(tree) => sum(token_models(old(token_reader).items()), old(token_reader).position())
                matches Ok(done) && done.0 == tree.expression@ && old(token_reader).position()
                + done.1 == final(token_reader).position(),
            Err(error) => sum(
                token_models(old(token_reader).items()),
                old(token_reader).position(),
            ) matches Err(failure) && failure.0 == error.0 && failure.1.text() == error.1@,
        },
{
    match parse_expression(token_reader) {
        Ok(expression) => Ok(Calculation { expression }),
        Err(error) => Err(error),
    }
}

} // verus!
