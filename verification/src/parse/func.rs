use vstd::prelude::*;
use crate::general::TryReader;
use crate::parse::expression::Expression;
use crate::parse::grammar;
use crate::parse::grammar::{parameters, Expectation, FuncModel, Parsed};
use crate::parse::syntaxtree::{accept, fail, next_span, take_identifier, SyntaxTree};
use crate::sourcecode::Code;
use crate::sourcecode::Span;
use crate::token::token::token_models;
use crate::token::Bracket;
use crate::token::BracketSide;
use crate::token::ReservedWord;
use crate::token::Token;
use crate::token::TokenModel;

verus! {

/// A function: its name, the names of its parameters and the expression
/// that gives its value.
pub struct Func {
    pub name: String,
    pub args: Vec<String>,
    pub body: Expression,
    pub span: Span,
}

/// The names in a sequence of strings.
pub open spec fn name_models(names: Seq<String>) -> Seq<Seq<char>> {
    Seq::new(names.len(), |i: int| names[i]@)
}

impl Func {
    /// The mathematical model of the node.
    pub open spec fn to_model(&self) -> FuncModel {
        FuncModel {
            name: self.name@,
            args: name_models(self.args@),
            body: self.body.to_model(),
            span: self.span,
        }
    }

    /// Reads the parameters of a function: at most `limit` names, each but
    /// the last followed by a comma, with a comma allowed after the last.
    fn parse_parameters(token_reader: &mut TryReader<Code<Token>>, limit: usize) -> (names: Vec<
        String,
    >)
        ensures
            final(token_reader).items() == old(token_reader).items(),
            0 <= old(token_reader).position() <= final(token_reader).position(),
            final(token_reader).position() <= old(token_reader).items().len(),
            parameters(
                token_models(old(token_reader).items()),
                old(token_reader).position(),
                limit as nat,
            ).0 == name_models(names@),
            old(token_reader).position() + parameters(
                token_models(old(token_reader).items()),
                old(token_reader).position(),
                limit as nat,
            ).1 == final(token_reader).position(),
        decreases limit,
    {
        let mut names: Vec<String> = Vec::new();
        if limit == 0 {
            let at = token_reader.offset();
            assert(name_models(names@) =~= Seq::empty());
            return names;
        }
        match take_identifier(token_reader) {
            Some(name) => {
                if accept(token_reader, &Token::Comma).is_none() {
                    names.push(name.value);
                    assert(name_models(names@) =~= seq![name.value@]);
                    names
                } else {
                    let mut rest = Func::parse_parameters(token_reader, limit - 1);
                    let ghost rest_models = name_models(rest@);
                    names.push(name.value);
                    names.append(&mut rest);
                    assert(name_models(names@) =~= seq![name.value@] + rest_models);
                    names
                }
            },
            None => {
                assert(name_models(names@) =~= Seq::empty());
                names
            },
        }
    }
}

impl SyntaxTree for Func {
    type Model = FuncModel;

    open spec fn model(&self) -> FuncModel {
        self.to_model()
    }

    open spec fn grammar(tokens: Seq<Code<TokenModel>>, pos: int) -> Parsed<FuncModel> {
        grammar::func(tokens, pos)
    }

    open spec fn span_of(model: FuncModel) -> Span {
        model.span
    }

    open spec fn spanned(model: FuncModel) -> bool {
        true
    }

    fn parse(token_reader: &mut TryReader<Code<Token>>) -> (r: Result<
        Func,
        (Option<Span>, String),
    >)
        ensures
            r is Ok ==> final(token_reader).position() > old(token_reader).position(),
    {
        let start = token_reader.offset();
        let opening = match accept(token_reader, &Token::ReservedWord(ReservedWord::Func)) {
            Some(span) => span,
            None => {
                let span = next_span(token_reader);
                return fail(token_reader, start, span, Expectation::ExpectedFunc);
            },
        };
        let name = match take_identifier(token_reader) {
            Some(name) => name,
            None => {
                let span = next_span(token_reader);
                return fail(token_reader, start, span, Expectation::ExpectedIdentifier);
            },
        };
        if accept(token_reader, &Token::Bracket(BracketSide::Left(Bracket::Round))).is_none() {
            let span = next_span(token_reader);
            return fail(token_reader, start, span, Expectation::ExpectedParameters);
        }
        let args = Func::parse_parameters(token_reader, 6);
        if accept(token_reader, &Token::Bracket(BracketSide::Right(Bracket::Round))).is_none() {
            let span = next_span(token_reader);
            return fail(token_reader, start, span, Expectation::ExpectedCloseRound);
        }
        let body = match Expression::parse(token_reader) {
            Ok(expression) => expression,
            Err(error) => {
                token_reader.rewind(start);
                return Err(error);
            },
        };
        let span = Span { start: opening.start, end: body.span().end };
        Ok(Func { name: name.value, args, body, span })
    }

    fn span(&self) -> (s: Span) {
        self.span
    }
}

} // verus!
