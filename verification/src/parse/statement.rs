use vstd::prelude::*;
use crate::general::SemiGroup;
use crate::general::TryReader;
use crate::parse::expression::Expression;
use crate::parse::grammar;
use crate::parse::grammar::Expectation;
use crate::parse::grammar::{statement_span, Parsed, StatementModel};
use crate::parse::syntaxtree::{
    accept, fail, next_span, skip_line_breaks, take_identifier, SyntaxTree,
};
use crate::sourcecode::Code;
use crate::sourcecode::Span;
use crate::token::token::token_models;
use crate::token::Operator;
use crate::token::ReservedWord;
use crate::token::Token;
use crate::token::TokenModel;

verus! {

/// A statement of a block: it declares a variable or returns from the
/// function.
pub enum Statement {
    Assignment(Assignment),
    Return(Return),
}

impl Statement {
    /// The mathematical model of the node.
    pub open spec fn to_model(&self) -> StatementModel
        decreases self,
    {
        match self {
            Statement::Assignment(assignment) => assignment.to_model(),
            Statement::Return(return_) => return_.to_model(),
        }
    }
}

impl SyntaxTree for Statement {
    type Model = StatementModel;

    open spec fn model(&self) -> StatementModel {
        self.to_model()
    }

    open spec fn grammar(tokens: Seq<Code<TokenModel>>, pos: int) -> Parsed<StatementModel> {
        grammar::statement(tokens, pos)
    }

    open spec fn span_of(model: StatementModel) -> Span {
        statement_span(model)
    }

    open spec fn spanned(model: StatementModel) -> bool {
        true
    }

    fn parse(token_reader: &mut TryReader<Code<Token>>) -> (r: Result<
        Statement,
        (Option<Span>, String),
    >)
        ensures
            r is Ok ==> final(token_reader).position() > old(token_reader).position(),
        decreases old(token_reader).items().len() - old(token_reader).position(), 12int,
    {
        let start = token_reader.offset();
        match Assignment::parse(token_reader) {
            Ok(assignment) => Ok(Statement::Assignment(assignment)),
            Err(_) => {
                match Return::parse(token_reader) {
                    Ok(return_) => Ok(Statement::Return(return_)),
                    Err(error) => Err(error),
                }
            },
        }
    }

    fn span(&self) -> (s: Span) {
        match self {
            Statement::Assignment(assignment) => assignment.span(),
            Statement::Return(return_) => return_.span(),
        }
    }
}

/// The declaration of a variable with its first value.
pub struct Assignment {
    pub identifier: Code<String>,
    pub content: Expression,
    pub let_span: Span,
}

impl Assignment {
    /// The mathematical model of the node.
    pub open spec fn to_model(&self) -> StatementModel
        decreases self,
    {
        StatementModel::Assignment {
            identifier: self.identifier@,
            content: self.content.to_model(),
            let_span: self.let_span,
        }
    }

    /// The name that is declared, with its span.
    pub fn identifier(&self) -> (r: &Code<String>)
        ensures
            *r == self.identifier,
    {
        &self.identifier
    }

    /// The expression that gives the variable its value.
    pub fn content(&self) -> (r: &Expression)
        ensures
            *r == self.content,
    {
        &self.content
    }

    /// Reads an assignment, after any line breaks.
    pub fn parse(token_reader: &mut TryReader<Code<Token>>) -> (r: Result<
        Assignment,
        (Option<Span>, String),
    >)
        ensures
            final(token_reader).items() == old(token_reader).items(),
            0 <= old(token_reader).position() <= final(token_reader).position(),
            final(token_reader).position() <= old(token_reader).items().len(),
            r is Err ==> final(token_reader).position() == old(token_reader).position(),
            r is Ok ==> final(token_reader).position() > old(token_reader).position(),
            match r {
                Ok(tree) => grammar::assignment(
                    token_models(old(token_reader).items()),
                    old(token_reader).position(),
                ) matches Ok(done) && done.0 == tree.to_model() && old(token_reader).position()
                    + done.1 == final(token_reader).position(),
                Err(error) => grammar::assignment(
                    token_models(old(token_reader).items()),
                    old(token_reader).position(),
                ) matches Err(failure) && failure.0 == error.0 && failure.1.text() == error.1@,
            },
        decreases old(token_reader).items().len() - old(token_reader).position(), 11int,
    {
        let start = token_reader.offset();
        skip_line_breaks(token_reader);
        let let_span = match accept(token_reader, &Token::ReservedWord(ReservedWord::Let)) {
            Some(span) => span,
            None => {
                let span = next_span(token_reader);
                return fail(token_reader, start, span, Expectation::ExpectedLet);
            },
        };
        let identifier = match take_identifier(token_reader) {
            Some(name) => name,
            None => {
                let span = next_span(token_reader);
                return fail(token_reader, start, span, Expectation::ExpectedName);
            },
        };
        if accept(token_reader, &Token::Operator(Operator::Assign)).is_none() {
            let span = next_span(token_reader);
            return fail(token_reader, start, span, Expectation::ExpectedAssign);
        }
        let content = match Expression::parse(token_reader) {
            Ok(expression) => expression,
            Err(error) => {
                token_reader.rewind(start);
                return Err(error);
            },
        };
        Ok(Assignment { identifier, content, let_span })
    }

    /// The span of the assignment: from `let` to the end of the value.
    pub fn span(&self) -> (s: Span)
        ensures
            s == statement_span(self.to_model()),
    {
        self.let_span.plus(&self.content.span())
    }
}

/// A return from the function with a value.
pub struct Return {
    pub return_span: Span,
    pub content: Expression,
}

impl Return {
    /// The mathematical model of the node.
    pub open spec fn to_model(&self) -> StatementModel
        decreases self,
    {
        StatementModel::Return {
            return_span: self.return_span,
            content: self.content.to_model(),
        }
    }

    pub fn content(&self) -> (r: &Expression)
        ensures
            *r == self.content,
    {
        &self.content
    }

    /// Reads a return statement, after any line breaks.
    pub fn parse(token_reader: &mut TryReader<Code<Token>>) -> (r: Result<
        Return,
        (Option<Span>, String),
    >)
        ensures
            final(token_reader).items() == old(token_reader).items(),
            0 <= old(token_reader).position() <= final(token_reader).position(),
            final(token_reader).position() <= old(token_reader).items().len(),
            r is Err ==> final(token_reader).position() == old(token_reader).position(),
            r is Ok ==> final(token_reader).position() > old(token_reader).position(),
            match r {
                Ok(tree) => grammar::return_(
                    token_models(old(token_reader).items()),
                    old(token_reader).position(),
                ) matches Ok(done) && done.0 == tree.to_model() && old(token_reader).position()
                    + done.1 == final(token_reader).position(),
                Err(error) => grammar::return_(
                    token_models(old(token_reader).items()),
                    old(token_reader).position(),
                ) matches Err(failure) && failure.0 == error.0 && failure.1.text() == error.1@,
            },
        decreases old(token_reader).items().len() - old(token_reader).position(), 11int,
    {
        let start = token_reader.offset();
        skip_line_breaks(token_reader);
        let return_span = match accept(token_reader, &Token::ReservedWord(ReservedWord::Return)) {
            Some(span) => span,
            None => {
                let span = next_span(token_reader);
                return fail(token_reader, start, span, Expectation::ExpectedReturn);
            },
        };
        let content = match Expression::parse(token_reader) {
            Ok(expression) => expression,
            Err(error) => {
                token_reader.rewind(start);
                return Err(error);
            },
        };
        Ok(Return { return_span, content })
    }

    /// The span of the statement: from `return` to the end of the value.
    pub fn span(&self) -> (s: Span)
        ensures
            s == statement_span(self.to_model()),
    {
        self.return_span.plus(&self.content.span())
    }
}

} // verus!
