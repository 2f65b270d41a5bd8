use vstd::prelude::*;
use crate::general::SemiGroup;
use crate::general::TryReader;
use crate::parse::equality::Equality;
use crate::parse::grammar;
use crate::parse::grammar::Expectation;
use crate::parse::grammar::{
    equality_span, expression_span, BlockModel, EqualityModel, ExpressionModel, IfModel, Parsed,
    StatementModel,
};
use crate::parse::statement::Statement;
use crate::parse::syntaxtree::{accept, fail, next_span, skip_line_breaks, SyntaxTree};
use crate::sourcecode::Code;
use crate::sourcecode::Span;
use crate::token::token::token_models;
use crate::token::Bracket;
use crate::token::BracketSide;
use crate::token::ReservedWord;
use crate::token::Token;
use crate::token::TokenModel;

verus! {

/// An expression: a conditional, a block, or a term of operators.
pub enum Expression {
    PureExpression(PureExpression),
    IfExpression(IfExpression),
    BlockExpression(BlockExpression),
}

/// The models of a sequence of expressions.
pub open spec fn expression_models(expressions: Seq<Expression>) -> Seq<ExpressionModel>
    decreases expressions,
{
    Seq::new(
        expressions.len(),
        |i: int|
            if 0 <= i < expressions.len() {
                expressions[i].to_model()
            } else {
                arbitrary()
            },
    )
}

/// The models of a sequence of statements.
pub open spec fn statement_models(statements: Seq<Statement>) -> Seq<StatementModel>
    decreases statements,
{
    Seq::new(
        statements.len(),
        |i: int|
            if 0 <= i < statements.len() {
                statements[i].to_model()
            } else {
                arbitrary()
            },
    )
}

impl Expression {
    /// The mathematical model of the node.
    pub open spec fn to_model(&self) -> ExpressionModel
        decreases self,
    {
        match self {
            Expression::PureExpression(pure) => ExpressionModel::PureExpression(pure.to_model()),
            Expression::IfExpression(branch) => ExpressionModel::IfExpression(branch.to_model()),
            Expression::BlockExpression(block) => ExpressionModel::BlockExpression(
                block.to_model(),
            ),
        }
    }
}

impl SyntaxTree for Expression {
    type Model = ExpressionModel;

    open spec fn model(&self) -> ExpressionModel {
        self.to_model()
    }

    open spec fn grammar(tokens: Seq<Code<TokenModel>>, pos: int) -> Parsed<ExpressionModel> {
        grammar::expression(tokens, pos)
    }

    open spec fn span_of(model: ExpressionModel) -> Span {
        expression_span(model)
    }

    open spec fn spanned(model: ExpressionModel) -> bool {
        true
    }

    fn parse(token_reader: &mut TryReader<Code<Token>>) -> (r: Result<
        Expression,
        (Option<Span>, String),
    >)
        ensures
            r is Ok ==> final(token_reader).position() > old(token_reader).position(),
        decreases old(token_reader).items().len() - old(token_reader).position(), 10int,
    {
        let start = token_reader.offset();
        match IfExpression::parse(token_reader) {
            Ok(branch) => {
                return Ok(Expression::IfExpression(branch));
            },
            Err(_) => {},
        }
        match BlockExpression::parse(token_reader) {
            Ok(block) => {
                return Ok(Expression::BlockExpression(block));
            },
            Err(_) => {},
        }
        match PureExpression::parse(token_reader) {
            Ok(pure) => Ok(Expression::PureExpression(pure)),
            Err(error) => Err(error),
        }
    }

    fn span(&self) -> (s: Span)
        decreases self,
    {
        match self {
            Expression::PureExpression(pure) => pure.span(),
            Expression::IfExpression(branch) => branch.span(),
            Expression::BlockExpression(block) => block.span(),
        }
    }
}

/// A term of operators, with no conditional or block at its top.
pub struct PureExpression {
    pub equality: Equality,
}

impl PureExpression {
    /// The mathematical model of the node.
    pub open spec fn to_model(&self) -> EqualityModel
        decreases self,
    {
        self.equality.to_model()
    }
}

impl SyntaxTree for PureExpression {
    type Model = EqualityModel;

    open spec fn model(&self) -> EqualityModel {
        self.to_model()
    }

    open spec fn grammar(tokens: Seq<Code<TokenModel>>, pos: int) -> Parsed<EqualityModel> {
        grammar::equality(tokens, pos)
    }

    open spec fn span_of(model: EqualityModel) -> Span {
        equality_span(model)
    }

    open spec fn spanned(model: EqualityModel) -> bool {
        true
    }

    fn parse(token_reader: &mut TryReader<Code<Token>>) -> (r: Result<
        PureExpression,
        (Option<Span>, String),
    >)
        ensures
            r is Ok ==> final(token_reader).position() > old(token_reader).position(),
        decreases old(token_reader).items().len() - old(token_reader).position(), 8int,
    {
        let start = token_reader.offset();
        match Equality::parse(token_reader) {
            Ok(equality) => Ok(PureExpression { equality }),
            Err(error) => Err(error),
        }
    }

    fn span(&self) -> (s: Span) {
        self.equality.span()
    }
}

/// A conditional: the value of one of two expressions, chosen by a third.
pub struct IfExpression {
    pub condition: Box<Expression>,
    pub then_: Box<Expression>,
    pub else_: Box<Expression>,
    pub if_span: Span,
}

impl IfExpression {
    /// The mathematical model of the node.
    pub open spec fn to_model(&self) -> IfModel
        decreases self,
    {
        IfModel {
            condition: Box::new((*self.condition).to_model()),
            then_: Box::new((*self.then_).to_model()),
            else_: Box::new((*self.else_).to_model()),
            if_span: self.if_span,
        }
    }
}

impl SyntaxTree for IfExpression {
    type Model = IfModel;

    open spec fn model(&self) -> IfModel {
        self.to_model()
    }

    open spec fn grammar(tokens: Seq<Code<TokenModel>>, pos: int) -> Parsed<IfModel> {
        grammar::if_expression(tokens, pos)
    }

    open spec fn span_of(model: IfModel) -> Span {
        expression_span(ExpressionModel::IfExpression(model))
    }

    open spec fn spanned(model: IfModel) -> bool {
        true
    }

    fn parse(token_reader: &mut TryReader<Code<Token>>) -> (r: Result<
        IfExpression,
        (Option<Span>, String),
    >)
        ensures
            r is Ok ==> final(token_reader).position() > old(token_reader).position(),
        decreases old(token_reader).items().len() - old(token_reader).position(), 9int,
    {
        let start = token_reader.offset();
        let if_span = match accept(token_reader, &Token::ReservedWord(ReservedWord::If)) {
            Some(span) => span,
            None => {
                let span = next_span(token_reader);
                return fail(token_reader, start, span, Expectation::ExpectedIf);
            },
        };
        let condition = match Expression::parse(token_reader) {
            Ok(expression) => expression,
            Err(error) => {
                token_reader.rewind(start);
                return Err(error);
            },
        };
        skip_line_breaks(token_reader);
        if accept(token_reader, &Token::ReservedWord(ReservedWord::Then)).is_none() {
            let span = next_span(token_reader);
            return fail(token_reader, start, span, Expectation::ExpectedThen);
        }
        let then_ = match Expression::parse(token_reader) {
            Ok(expression) => expression,
            Err(error) => {
                token_reader.rewind(start);
                return Err(error);
            },
        };
        skip_line_breaks(token_reader);
        if accept(token_reader, &Token::ReservedWord(ReservedWord::Else)).is_none() {
            let span = next_span(token_reader);
            return fail(token_reader, start, span, Expectation::ExpectedElse);
        }
        let else_ = match Expression::parse(token_reader) {
            Ok(expression) => expression,
            Err(error) => {
                token_reader.rewind(start);
                return Err(error);
            },
        };
        Ok(
            IfExpression {
                condition: Box::new(condition),
                then_: Box::new(then_),
                else_: Box::new(else_),
                if_span,
            },
        )
    }

    fn span(&self) -> (s: Span)
        decreases self,
    {
        self.if_span.plus(&self.else_.span())
    }
}

/// A block: statements in order and the expression that gives the block
/// its value, inside curly brackets.
pub struct BlockExpression {
    pub statements: Vec<Statement>,
    pub outcome: Box<Expression>,
    pub open: Span,
    pub close: Span,
}

impl BlockExpression {
    /// The mathematical model of the node.
    pub open spec fn to_model(&self) -> BlockModel
        decreases self,
    {
        BlockModel {
            statements: statement_models(self.statements@),
            outcome: Box::new((*self.outcome).to_model()),
            open: self.open,
            close: self.close,
        }
    }
}

impl SyntaxTree for BlockExpression {
    type Model = BlockModel;

    open spec fn model(&self) -> BlockModel {
        self.to_model()
    }

    open spec fn grammar(tokens: Seq<Code<TokenModel>>, pos: int) -> Parsed<BlockModel> {
        grammar::block_expression(tokens, pos)
    }

    open spec fn span_of(model: BlockModel) -> Span {
        expression_span(ExpressionModel::BlockExpression(model))
    }

    open spec fn spanned(model: BlockModel) -> bool {
        true
    }

    fn parse(token_reader: &mut TryReader<Code<Token>>) -> (r: Result<
        BlockExpression,
        (Option<Span>, String),
    >)
        ensures
            r is Ok ==> final(token_reader).position() > old(token_reader).position(),
        decreases old(token_reader).items().len() - old(token_reader).position(), 9int,
    {
        let ghost tokens = token_models(token_reader.items());
        let start = token_reader.offset();
        let open = match accept(token_reader, &Token::Bracket(BracketSide::Left(Bracket::Curly))) {
            Some(span) => span,
            None => {
                let span = next_span(token_reader);
                return fail(token_reader, start, span, Expectation::ExpectedOpenCurly);
            },
        };
        skip_line_breaks(token_reader);
        let ghost first = token_reader.position();
        let mut statements: Vec<Statement> = Vec::new();
        let mut more = true;
        assert(statement_models(statements@) + grammar::statements(tokens, first).0
            =~= grammar::statements(tokens, first).0);
        while more
            invariant
                token_reader.items() == old(token_reader).items(),
                tokens == token_models(token_reader.items()),
                start == old(token_reader).position(),
                start < first <= token_reader.position() <= token_reader.items().len(),
                more ==> grammar::statements(tokens, first) == (
                    statement_models(statements@) + grammar::statements(
                        tokens,
                        token_reader.position(),
                    ).0,
                    (token_reader.position() - first + grammar::statements(
                        tokens,
                        token_reader.position(),
                    ).1) as nat,
                ),
                !more ==> grammar::statements(tokens, first) == (
                    statement_models(statements@),
                    (token_reader.position() - first) as nat,
                ),
            decreases
                    token_reader.items().len() - token_reader.position() + (if more {
                        1int
                    } else {
                        0int
                    }),
        {
            let ghost before = statements@;
            match Statement::parse(token_reader) {
                Ok(statement) => {
                    assert(statement_models(before.push(statement)) =~= statement_models(
                        before,
                    ).push(statement.to_model()));
                    assert(statement_models(before) + (seq![statement.to_model()]
                        + grammar::statements(tokens, token_reader.position()).0)
                        =~= statement_models(before).push(statement.to_model())
                        + grammar::statements(tokens, token_reader.position()).0);
                    statements.push(statement);
                },
                Err(_) => {
                    more = false;
                    assert(statement_models(before) + Seq::<StatementModel>::empty()
                        =~= statement_models(before));
                },
            }
        }
        skip_line_breaks(token_reader);
        let outcome = match Expression::parse(token_reader) {
            Ok(expression) => expression,
            Err(error) => {
                token_reader.rewind(start);
                return Err(error);
            },
        };
        skip_line_breaks(token_reader);
        let close = match token_reader.next() {
            Some(token) => token,
            None => {
                return fail(token_reader, start, None, Expectation::MissingCloseCurly);
            },
        };
        match &close.value {
            Token::Bracket(BracketSide::Right(Bracket::Curly)) => Ok(
                BlockExpression { statements, outcome: Box::new(outcome), open, close: close.span },
            ),
            _ => fail(token_reader, start, Some(close.span), Expectation::ExpectedCloseCurly),
        }
    }

    fn span(&self) -> (s: Span) {
        self.open.plus(&self.close)
    }
}

} // verus!
