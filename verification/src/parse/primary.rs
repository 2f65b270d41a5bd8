use vstd::prelude::*;
use crate::general::TryReader;
use crate::parse::expression::expression_models;
use crate::parse::expression::Expression;
use crate::parse::grammar;
use crate::parse::grammar::Expectation;
use crate::parse::grammar::{
    arguments, fn_call_span, primary_span, FnCallModel, Parsed, PrimaryModel,
};
use crate::parse::syntaxtree::{accept, fail, next_span, take_identifier, SyntaxTree};
use crate::sourcecode::Code;
use crate::sourcecode::Position;
use crate::sourcecode::Span;
use crate::token::token::token_models;
use crate::token::Bracket;
use crate::token::BracketSide;
use crate::token::Token;
use crate::token::TokenModel;

verus! {

/// The innermost kind of term: a number, a name, an expression in round
/// brackets or a call.
pub enum Primary {
    Integer(Code<i64>),
    Identifier(Code<String>),
    Expression(Box<Expression>),
    FnCall(FnCall),
}

impl Primary {
    /// The mathematical model of the node.
    pub open spec fn to_model(&self) -> PrimaryModel
        decreases self,
    {
        match self {
            Primary::Integer(number) => PrimaryModel::Integer(*number),
            Primary::Identifier(name) => PrimaryModel::Identifier(name@),
            Primary::Expression(expression) => PrimaryModel::Expression(
                Box::new((**expression).to_model()),
            ),
            Primary::FnCall(call) => PrimaryModel::FnCall(call.to_model()),
        }
    }

    /// Reads what follows an opening round bracket: an expression and the
    /// closing bracket.
    pub fn parse_round_bracket(token_reader: &mut TryReader<Code<Token>>) -> (r: Result<
        Primary,
        (Option<Span>, String),
    >)
        ensures
            final(token_reader).items() == old(token_reader).items(),
            0 <= old(token_reader).position() <= final(token_reader).position(),
            final(token_reader).position() <= old(token_reader).items().len(),
            r is Err ==> final(token_reader).position() == old(token_reader).position(),
            match r {
                Ok(tree) => grammar::round_bracket(
                    token_models(old(token_reader).items()),
                    old(token_reader).position(),
                ) matches Ok(done) && done.0 == tree.to_model() && old(token_reader).position()
                    + done.1 == final(token_reader).position(),
                Err(error) => grammar::round_bracket(
                    token_models(old(token_reader).items()),
                    old(token_reader).position(),
                ) matches Err(failure) && failure.0 == error.0 && failure.1.text() == error.1@,
            },
        decreases old(token_reader).items().len() - old(token_reader).position(), 11int,
    {
        let start = token_reader.offset();
        let expression = match Expression::parse(token_reader) {
            Ok(expression) => expression,
            Err(error) => {
                return Err(error);
            },
        };
        let close = match token_reader.next() {
            Some(token) => token,
            None => {
                return fail(
                    token_reader,
                    start,
                    None,
                    Expectation::MissingCloseBracket,
                );
            },
        };
        match &close.value {
            Token::Bracket(BracketSide::Right(Bracket::Round)) => Ok(
                Primary::Expression(Box::new(expression)),
            ),
            _ => fail(token_reader, start, Some(close.span), Expectation::ExpectedCloseBracket),
        }
    }
}

impl SyntaxTree for Primary {
    type Model = PrimaryModel;

    open spec fn model(&self) -> PrimaryModel {
        self.to_model()
    }

    open spec fn grammar(tokens: Seq<Code<TokenModel>>, pos: int) -> Parsed<PrimaryModel> {
        grammar::primary(tokens, pos)
    }

    open spec fn span_of(model: PrimaryModel) -> Span {
        primary_span(model)
    }

    open spec fn spanned(model: PrimaryModel) -> bool {
        true
    }

    fn parse(token_reader: &mut TryReader<Code<Token>>) -> (r: Result<
        Primary,
        (Option<Span>, String),
    >)
        ensures
            r is Ok ==> final(token_reader).position() > old(token_reader).position(),
        decreases old(token_reader).items().len() - old(token_reader).position(), 2int,
    {
        let start = token_reader.offset();
        match FnCall::parse(token_reader) {
            Ok(call) => {
                return Ok(Primary::FnCall(call));
            },
            Err(_) => {},
        }
        let token = match token_reader.next() {
            Some(token) => token,
            None => {
                return fail(
                    token_reader,
                    start,
                    None,
                    Expectation::MissingExpression,
                );
            },
        };
        match &token.value {
            Token::Number(n) => Ok(Primary::Integer(token.map_const(*n))),
            Token::Identifier(name) => Ok(
                Primary::Identifier(Code { value: name.clone(), span: token.span }),
            ),
            Token::Bracket(BracketSide::Left(Bracket::Round)) => {
                match Primary::parse_round_bracket(token_reader) {
                    Ok(inner) => Ok(inner),
                    Err(error) => {
                        token_reader.rewind(start);
                        Err(error)
                    },
                }
            },
            _ => fail(
                token_reader,
                start,
                Some(token.span),
                Expectation::ExpectedPrimary,
            ),
        }
    }

    fn span(&self) -> (s: Span)
        decreases self,
    {
        match self {
            Primary::Integer(number) => number.span,
            Primary::Identifier(name) => name.span,
            Primary::Expression(expression) => expression.span(),
            Primary::FnCall(call) => call.span(),
        }
    }
}

/// A call of a function by name, with up to six arguments.
pub struct FnCall {
    pub func: Code<String>,
    pub args: Vec<Expression>,
    pub end_pos: Position,
}

impl FnCall {
    /// The mathematical model of the node.
    pub open spec fn to_model(&self) -> FnCallModel
        decreases self,
    {
        FnCallModel {
            func: self.func@,
            args: expression_models(self.args@),
            end_pos: self.end_pos,
        }
    }
}

impl FnCall {
    /// Reads the arguments of a call: at most `limit` expressions, each but
    /// the last followed by a comma, with a comma allowed after the last.
    fn parse_arguments(token_reader: &mut TryReader<Code<Token>>, limit: usize) -> (args: Vec<
        Expression,
    >)
        ensures
            final(token_reader).items() == old(token_reader).items(),
            0 <= old(token_reader).position() <= final(token_reader).position(),
            final(token_reader).position() <= old(token_reader).items().len(),
            arguments(
                token_models(old(token_reader).items()),
                old(token_reader).position(),
                limit as nat,
            ).0 == expression_models(args@),
            old(token_reader).position() + arguments(
                token_models(old(token_reader).items()),
                old(token_reader).position(),
                limit as nat,
            ).1 == final(token_reader).position(),
        decreases old(token_reader).items().len() - old(token_reader).position(), 14int, limit,
    {
        let ghost tokens = token_models(token_reader.items());
        let ghost start = token_reader.position();
        let mut args: Vec<Expression> = Vec::new();
        if limit == 0 {
            let at = token_reader.offset();
            assert(expression_models(args@) =~= Seq::empty());
            return args;
        }
        match Expression::parse(token_reader) {
            Ok(argument) => {
                if accept(token_reader, &Token::Comma).is_none() {
                    args.push(argument);
                    assert(expression_models(args@) =~= seq![argument.to_model()]);
                    args
                } else {
                    let mut rest = FnCall::parse_arguments(token_reader, limit - 1);
                    let ghost rest_models = expression_models(rest@);
                    args.push(argument);
                    args.append(&mut rest);
                    assert(expression_models(args@) =~= seq![argument.to_model()] + rest_models);
                    args
                }
            },
            Err(_) => {
                assert(expression_models(args@) =~= Seq::empty());
                args
            },
        }
    }
}

impl SyntaxTree for FnCall {
    type Model = FnCallModel;

    open spec fn model(&self) -> FnCallModel {
        self.to_model()
    }

    open spec fn grammar(tokens: Seq<Code<TokenModel>>, pos: int) -> Parsed<FnCallModel> {
        grammar::fn_call(tokens, pos)
    }

    open spec fn span_of(model: FnCallModel) -> Span {
        fn_call_span(model)
    }

    open spec fn spanned(model: FnCallModel) -> bool {
        true
    }

    fn parse(token_reader: &mut TryReader<Code<Token>>) -> (r: Result<
        FnCall,
        (Option<Span>, String),
    >)
        ensures
            r is Ok ==> final(token_reader).position() > old(token_reader).position(),
        decreases old(token_reader).items().len() - old(token_reader).position(), 1int,
    {
        let ghost tokens = token_models(token_reader.items());
        let start = token_reader.offset();
        let func = match take_identifier(token_reader) {
            Some(func) => func,
            None => {
                let span = next_span(token_reader);
                return fail(token_reader, start, span, Expectation::ExpectedIdentifier);
            },
        };
        if accept(token_reader, &Token::Bracket(BracketSide::Left(Bracket::Round))).is_none() {
            return fail(token_reader, start, None, Expectation::ExpectedArguments);
        }
        let args = FnCall::parse_arguments(token_reader, 6);
        match accept(token_reader, &Token::Bracket(BracketSide::Right(Bracket::Round))) {
            Some(close) => Ok(FnCall { func, args, end_pos: close.end }),
            None => {
                let span = next_span(token_reader);
                fail(token_reader, start, span, Expectation::ExpectedCloseRound)
            },
        }
    }

    fn span(&self) -> (s: Span) {
        Span { start: self.func.span.start, end: self.end_pos }
    }
}

} // verus!
