use vstd::prelude::*;
use crate::sourcecode::Code;
use crate::sourcecode::Position;
use crate::sourcecode::Span;
use crate::token::token::TokenModel;
use crate::token::tokenize::{digit_run, lex, lexeme_at, tokens_of, word_run};

verus! {

/// A span is well formed where it does not end before it starts.
pub open spec fn well_formed(span: Span) -> bool {
    span.start.precedes(span.end)
}

/// Tells whether the first span ends before the second starts, or where it
/// starts.
pub open spec fn before(first: Span, second: Span) -> bool {
    first.end.precedes(second.start)
}

/// Tokens are in order where each has a well-formed span and ends before
/// the next starts, as the tokens of a text do.
#[verifier::opaque]
pub open spec fn in_order(tokens: Seq<Code<TokenModel>>) -> bool {
    &&& forall|i: int| 0 <= i < tokens.len() ==> well_formed(#[trigger] tokens[i].span)
    &&& forall|i: int|
        0 <= i < tokens.len() - 1 ==> before(#[trigger] tokens[i].span, tokens[i + 1].span)
}

/// A run of digits ends where the text ends, or before.
proof fn lemma_digit_run_bound(chars: Seq<char>, pos: int)
    requires
        0 <= pos <= chars.len(),
    ensures
        pos + digit_run(chars, pos) <= chars.len(),
    decreases chars.len() - pos,
{
    if pos < chars.len() {
        lemma_digit_run_bound(chars, pos + 1);
    }
}

/// A run of alphanumeric characters ends where the text ends, or before.
proof fn lemma_word_run_bound(chars: Seq<char>, pos: int)
    requires
        0 <= pos <= chars.len(),
    ensures
        pos + word_run(chars, pos) <= chars.len(),
    decreases chars.len() - pos,
{
    if pos < chars.len() {
        lemma_word_run_bound(chars, pos + 1);
    }
}

/// What stands at a position ends where the text ends, or before.
proof fn lemma_lexeme_bound(chars: Seq<char>, pos: int)
    requires
        0 <= pos < chars.len(),
    ensures
        lexeme_at(chars, pos) matches Some(found) ==> pos + found.1 <= chars.len(),
{
    lemma_digit_run_bound(chars, pos);
    lemma_word_run_bound(chars, pos + 1);
}

/// Tokens stay in order when a token that ends before the first of them
/// is put in front.
proof fn lemma_in_order_prepend(first: Code<TokenModel>, rest: Seq<Code<TokenModel>>)
    requires
        well_formed(first.span),
        in_order(rest),
        rest.len() > 0 ==> before(first.span, rest[0].span),
    ensures
        in_order(seq![first] + rest),
{
    reveal(in_order);
    let all = seq![first] + rest;
    assert forall|i: int| 0 <= i < all.len() implies well_formed(#[trigger] all[i].span) by {
        if i > 0 {
            assert(all[i] == rest[i - 1]);
        }
    }
    assert forall|i: int| 0 <= i < all.len() - 1 implies before(
        #[trigger] all[i].span,
        all[i + 1].span,
    ) by {
        assert(all[i + 1] == rest[i]);
        if i > 0 {
            assert(all[i] == rest[i - 1]);
        }
    }
}

/// The tokens of a stretch of text are in order, and the first of them
/// starts at the place where the stretch starts, or behind it.
proof fn lemma_lex_in_order(chars: Seq<char>, pos: int, line: usize, column: usize)
    requires
        0 <= pos <= chars.len(),
        line + (chars.len() - pos) <= usize::MAX,
        column + (chars.len() - pos) <= usize::MAX,
    ensures
        lex(chars, pos, line, column) matches Ok(tokens) ==> in_order(tokens) && (tokens.len() > 0
            ==> (Position { line, pos: column }).precedes(tokens[0].span.start)),
    decreases chars.len() - pos,
{
    if pos < chars.len() {
        lemma_lexeme_bound(chars, pos);
        match lexeme_at(chars, pos) {
            Some((found, length)) => {
                if length > 0 {
                    let next = (column + length) as usize;
                    match found {
                        None => {
                            lemma_lex_in_order(chars, pos + length, line, next);
                        },
                        Some(TokenModel::LineBreak) => {
                            let below = (line + 1) as usize;
                            lemma_lex_in_order(chars, pos + length, below, 0);
                            match lex(chars, pos + length, below, 0) {
                                Ok(rest) => {
                                    let first = Code {
                                        value: TokenModel::LineBreak,
                                        span: Span::on_line(line, column, length as usize),
                                    };
                                    lemma_in_order_prepend(first, rest);
                                },
                                Err(_) => {},
                            }
                        },
                        Some(token) => {
                            lemma_lex_in_order(chars, pos + length, line, next);
                            match lex(chars, pos + length, line, next) {
                                Ok(rest) => {
                                    let first = Code {
                                        value: token,
                                        span: Span::on_line(line, column, length as usize),
                                    };
                                    lemma_in_order_prepend(first, rest);
                                },
                                Err(_) => {},
                            }
                        },
                    }
                }
            },
            None => {},
        }
    } else {
        reveal(in_order);
    }
}

/// The tokens of a text are in order: each has a well-formed span and ends
/// before the next starts.
pub proof fn lemma_tokens_in_order(source: Seq<char>)
    requires
        source.len() <= usize::MAX,
    ensures
        tokens_of(source) matches Ok(tokens) ==> in_order(tokens),
{
    lemma_lex_in_order(source, 0, 0, 0);
}

/// Tells whether the span of a token that is an identifier covers just the
/// name: it starts and ends on one line and has as many columns as the name
/// has characters.
pub open spec fn covers_name(token: Code<TokenModel>) -> bool {
    token.value matches TokenModel::Identifier(name) ==> token.span.end == (Position {
        line: token.span.start.line,
        pos: (token.span.start.pos + name.len()) as usize,
    })
}

/// Tells whether the span of every identifier among the tokens covers just
/// its name.
#[verifier::opaque]
pub open spec fn names_covered(tokens: Seq<Code<TokenModel>>) -> bool {
    forall|i: int| 0 <= i < tokens.len() ==> covers_name(#[trigger] tokens[i])
}

proof fn lemma_names_covered_prepend(first: Code<TokenModel>, rest: Seq<Code<TokenModel>>)
    requires
        covers_name(first),
        names_covered(rest),
    ensures
        names_covered(seq![first] + rest),
{
    reveal(names_covered);
    let all = seq![first] + rest;
    assert forall|i: int| 0 <= i < all.len() implies covers_name(#[trigger] all[i]) by {
        if i > 0 {
            assert(all[i] == rest[i - 1]);
        }
    }
}

/// The span of every identifier among the tokens of a stretch of text
/// covers just its name.
proof fn lemma_lex_covers_names(chars: Seq<char>, pos: int, line: usize, column: usize)
    requires
        0 <= pos <= chars.len(),
        column + (chars.len() - pos) <= usize::MAX,
    ensures
        lex(chars, pos, line, column) matches Ok(tokens) ==> names_covered(tokens),
    decreases chars.len() - pos,
{
    if pos < chars.len() {
        lemma_lexeme_bound(chars, pos);
        match lexeme_at(chars, pos) {
            Some((found, length)) => {
                if length > 0 {
                    let next = (column + length) as usize;
                    match found {
                        None => {
                            lemma_lex_covers_names(chars, pos + length, line, next);
                        },
                        Some(TokenModel::LineBreak) => {
                            let below = (line + 1) as usize;
                            lemma_lex_covers_names(chars, pos + length, below, 0);
                            match lex(chars, pos + length, below, 0) {
                                Ok(rest) => {
                                    let first = Code {
                                        value: TokenModel::LineBreak,
                                        span: Span::on_line(line, column, length as usize),
                                    };
                                    lemma_names_covered_prepend(first, rest);
                                },
                                Err(_) => {},
                            }
                        },
                        Some(token) => {
                            lemma_lex_covers_names(chars, pos + length, line, next);
                            match lex(chars, pos + length, line, next) {
                                Ok(rest) => {
                                    let first = Code {
                                        value: token,
                                        span: Span::on_line(line, column, length as usize),
                                    };
                                    assert(covers_name(first)) by {
                                        if token is Identifier {
                                            assert(token->Identifier_0.len() == length);
                                        }
                                    }
                                    lemma_names_covered_prepend(first, rest);
                                },
                                Err(_) => {},
                            }
                        },
                    }
                }
            },
            None => {},
        }
    } else {
        reveal(names_covered);
    }
}

/// In the tokens of a text, the span of every identifier covers just the
/// name as it stands in the text: a failure that carries the span of an
/// identifier points at exactly that occurrence of the name.
pub proof fn lemma_identifier_spans_cover_names(source: Seq<char>)
    requires
        source.len() <= usize::MAX,
    ensures
        tokens_of(source) matches Ok(tokens) ==> forall|i: int|
            0 <= i < tokens.len() ==> covers_name(#[trigger] tokens[i]),
{
    reveal(names_covered);
    lemma_lex_covers_names(source, 0, 0, 0);
}

} // verus!
