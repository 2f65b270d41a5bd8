use vstd::prelude::*;
use crate::general::TryReader;
use crate::parse::grammar::{
    identifier_at, line_breaks, operator_at, span_at, token_is, Expectation, Parsed,
};
use crate::sourcecode::Code;
use crate::sourcecode::Span;
use crate::token::token::token_models;
use crate::token::Operator;
use crate::token::Token;
use crate::token::TokenModel;

verus! {

/// A node of the syntax tree: it can be read from tokens and knows the span
/// of source text it covers.
pub trait SyntaxTree: Sized {
    /// The mathematical model of a node of this kind.
    type Model;

    /// The model of this node.
    spec fn model(&self) -> Self::Model;

    /// The rule of the grammar for nodes of this kind.
    spec fn grammar(tokens: Seq<Code<TokenModel>>, pos: int) -> Parsed<Self::Model>;

    /// The span of a node, given its model.
    spec fn span_of(model: Self::Model) -> Span;

    /// Tells whether a node has a span.
    spec fn spanned(model: Self::Model) -> bool;

    /// Reads a node from the tokens at the cursor, as the grammar says. On
    /// success the cursor stands behind the node's last token; on failure
    /// it stands where it stood before.
    fn parse(token_reader: &mut TryReader<Code<Token>>) -> (r: Result<
        Self,
        (Option<Span>, String),
    >)
        ensures
            final(token_reader).items() == old(token_reader).items(),
            0 <= old(token_reader).position() <= final(token_reader).position(),
            final(token_reader).position() <= old(token_reader).items().len(),
            r is Err ==> final(token_reader).position() == old(token_reader).position(),
            match r {
                Ok(tree) => Self::grammar(
                    token_models(old(token_reader).items()),
                    old(token_reader).position(),
                ) matches Ok(done) && done.0 == tree.model() && old(token_reader).position()
                    + done.1 == final(token_reader).position(),
                Err(error) => Self::grammar(
                    token_models(old(token_reader).items()),
                    old(token_reader).position(),
                ) matches Err(failure) && failure.0 == error.0 && failure.1.text() == error.1@,
            },
    ;

    /// The span of source text that the node covers.
    fn span(&self) -> (s: Span)
        requires
            Self::spanned(self.model()),
        ensures
            s == Self::span_of(self.model()),
    ;
}

/// Moves past the line breaks at the cursor.
pub fn skip_line_breaks(reader: &mut TryReader<Code<Token>>)
    ensures
        final(reader).items() == old(reader).items(),
        0 <= old(reader).position() <= old(reader).items().len(),
        final(reader).position() == old(reader).position() + line_breaks(
            token_models(old(reader).items()),
            old(reader).position(),
        ),
        final(reader).position() <= old(reader).items().len(),
{
    let ghost items = reader.items();
    let ghost tokens = token_models(items);
    let ghost start = reader.position();
    let mut open = true;
    let start_offset = reader.offset();
    while open
        invariant
            reader.items() == items,
            tokens == token_models(items),
            0 <= start <= reader.position() <= items.len(),
            line_breaks(tokens, start) == reader.position() - start + line_breaks(
                tokens,
                reader.position(),
            ),
            !open ==> line_breaks(tokens, reader.position()) == 0,
        decreases items.len() - reader.position() + (if open { 1int } else { 0int }),
    {
        match reader.peek() {
            Some(token) => {
                match &token.value {
                    Token::LineBreak => {
                        let _ = reader.next();
                    },
                    _ => {
                        open = false;
                    },
                }
            },
            None => {
                open = false;
            },
        }
    }
}

/// The span of the token at the cursor, if there is one.
pub fn next_span(reader: &TryReader<Code<Token>>) -> (r: Option<Span>)
    ensures
        r == span_at(token_models(reader.items()), reader.position()),
        0 <= reader.position() <= reader.items().len(),
{
    match reader.peek() {
        Some(token) => Some(token.span),
        None => None,
    }
}

/// Reads the token `expected` and gives its span. Where another token or
/// none comes next, gives `None` and leaves the cursor where it was.
pub fn accept(reader: &mut TryReader<Code<Token>>, expected: &Token) -> (r: Option<Span>)
    ensures
        final(reader).items() == old(reader).items(),
        0 <= old(reader).position() <= final(reader).position() <= old(reader).items().len(),
        match r {
            Some(span) => token_is(
                token_models(old(reader).items()),
                old(reader).position(),
                expected@,
            ) && Some(span) == span_at(token_models(old(reader).items()), old(reader).position())
                && final(reader).position() == old(reader).position() + 1,
            None => !token_is(
                token_models(old(reader).items()),
                old(reader).position(),
                expected@,
            ) && final(reader).position() == old(reader).position(),
        },
{
    match reader.peek() {
        Some(token) => {
            if token.value.same_as(expected) {
                let _ = reader.next();
                Some(token.span)
            } else {
                None
            }
        },
        None => None,
    }
}

/// Reads an identifier. Where another token or none comes next, gives
/// `None` and leaves the cursor where it was.
pub fn take_identifier(reader: &mut TryReader<Code<Token>>) -> (r: Option<Code<String>>)
    ensures
        final(reader).items() == old(reader).items(),
        0 <= old(reader).position() <= final(reader).position() <= old(reader).items().len(),
        match r {
            Some(name) => identifier_at(token_models(old(reader).items()), old(reader).position())
                == Some(name@) && final(reader).position() == old(reader).position() + 1,
            None => identifier_at(token_models(old(reader).items()), old(reader).position())
                is None && final(reader).position() == old(reader).position(),
        },
{
    match reader.peek() {
        Some(token) => {
            match &token.value {
                Token::Identifier(name) => {
                    let _ = reader.next();
                    Some(Code { value: name.clone(), span: token.span })
                },
                _ => None,
            }
        },
        None => None,
    }
}

/// Tells whether `operator` is one of `accepted`.
pub fn is_accepted(accepted: &Vec<Operator>, operator: Operator) -> (r: bool)
    ensures
        r == accepted@.contains(operator),
{
    let mut i: usize = 0;
    while i < accepted.len()
        invariant
            i <= accepted@.len(),
            forall|j: int| 0 <= j < i ==> accepted@[j] != operator,
        decreases accepted@.len() - i,
    {
        if accepted[i] == operator {
            return true;
        }
        i = i + 1;
    }
    false
}

/// Reads an operator that is one of `accepted`. Where anything else comes
/// next, gives `None` and leaves the cursor where it was.
pub fn take_operator(reader: &mut TryReader<Code<Token>>, accepted: &Vec<Operator>) -> (r: Option<
    Code<Operator>,
>)
    ensures
        final(reader).items() == old(reader).items(),
        0 <= old(reader).position() <= final(reader).position() <= old(reader).items().len(),
        r == operator_at(token_models(old(reader).items()), old(reader).position(), accepted@),
        final(reader).position() == old(reader).position() + (if r is Some {
            1int
        } else {
            0int
        }),
{
    match reader.peek() {
        Some(token) => {
            match &token.value {
                Token::Operator(operator) => {
                    if is_accepted(accepted, *operator) {
                        let _ = reader.next();
                        Some(Code { value: *operator, span: token.span })
                    } else {
                        None
                    }
                },
                _ => None,
            }
        },
        None => None,
    }
}

/// Gives up a parse: moves the cursor back to `start` and fails with the
/// given span and message.
pub fn fail<T>(
    reader: &mut TryReader<Code<Token>>,
    start: usize,
    span: Option<Span>,
    expected: Expectation,
) -> (r: Result<T, (Option<Span>, String)>)
    requires
        start <= old(reader).position(),
    ensures
        final(reader).items() == old(reader).items(),
        final(reader).position() == start,
        r matches Err(error) && error.0 == span && error.1@ == expected.text(),
{
    reader.rewind(start);
    Err((span, expected.message()))
}

} // verus!
