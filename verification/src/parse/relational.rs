use vstd::prelude::*;
use crate::general::SemiGroup;
use crate::general::TryReader;
use crate::parse::binary_operation::BinaryOperation;
use crate::parse::grammar;
use crate::parse::grammar::{relational_operators, relational_span, RelationalModel, Parsed};
use crate::parse::add::Add;
use crate::parse::syntaxtree::{take_operator, SyntaxTree};
use crate::sourcecode::Code;
use crate::sourcecode::Span;
use crate::token::Operator;
use crate::token::Token;
use crate::token::TokenModel;

verus! {

/// A comparison by size: sums joined by `<`, `<=`, `>` and `>=`.
pub struct Relational {
    pub binary_operation: BinaryOperation<Add>,
}

impl Relational {
    /// The model of a chain of this level.
    pub open spec fn chain_model(chain: BinaryOperation<Add>) -> RelationalModel
        decreases chain,
    {
        match chain {
            BinaryOperation::Single(element) => BinaryOperation::Single(element.to_model()),
            BinaryOperation::Binary { operator, left, right } => BinaryOperation::Binary {
                operator,
                left: left.to_model(),
                right: Box::new(Self::chain_model(*right)),
            },
        }
    }

    /// The mathematical model of the node.

    pub open spec fn to_model(&self) -> RelationalModel
        decreases self,
    {
        Self::chain_model(self.binary_operation)
    }

    /// The first element of the chain.
    pub fn head(&self) -> (r: &Add)
        ensures
            *r == self.binary_operation.first(),
    {
        self.binary_operation.head()
    }

    /// The operators of the chain, each with the element that follows it.
    pub fn tail(&self) -> (r: Vec<(&Code<Operator>, &Add)>)
        ensures
            r@.len() == self.binary_operation.rest().len(),
            forall|i: int|
                0 <= i < r@.len() ==> *(#[trigger] r@[i]).0 == self.binary_operation.rest()[i].0 && *r@[i].1
                    == self.binary_operation.rest()[i].1,
    {
        self.binary_operation.tail()
    }

    /// The operators that join the elements of this level.
    pub fn operators() -> (accepted: Vec<Operator>)
        ensures
            accepted@ == relational_operators(),
    {
        let mut accepted: Vec<Operator> = Vec::new();
        accepted.push(Operator::Less);
        accepted.push(Operator::LessEq);
        accepted.push(Operator::Greater);
        accepted.push(Operator::GreaterEq);
        assert(accepted@ =~= relational_operators());
        accepted
    }
}

impl SyntaxTree for Relational {
    type Model = RelationalModel;

    open spec fn model(&self) -> RelationalModel {
        self.to_model()
    }

    open spec fn grammar(tokens: Seq<Code<TokenModel>>, pos: int) -> Parsed<RelationalModel> {
        grammar::relational(tokens, pos)
    }

    open spec fn span_of(model: RelationalModel) -> Span {
        relational_span(model)
    }

    open spec fn spanned(model: RelationalModel) -> bool {
        true
    }

    fn parse(token_reader: &mut TryReader<Code<Token>>) -> (r: Result<
        Relational,
        (Option<Span>, String),
    >)
        ensures
            r is Ok ==> final(token_reader).position() > old(token_reader).position(),
        decreases old(token_reader).items().len() - old(token_reader).position(), 6int,
    {
        let start = token_reader.offset();
        let left = match Add::parse(token_reader) {
            Ok(element) => element,
            Err(error) => {
                return Err(error);
            },
        };
        let accepted = Self::operators();
        match take_operator(token_reader, &accepted) {
            None => Ok(Relational { binary_operation: BinaryOperation::Single(left) }),
            Some(operator) => {
                match Relational::parse(token_reader) {
                    Ok(right) => Ok(
                        Relational {
                            binary_operation: BinaryOperation::Binary {
                                operator,
                                left,
                                right: Box::new(right.binary_operation),
                            },
                        },
                    ),
                    Err(error) => {
                        token_reader.rewind(start);
                        Err(error)
                    },
                }
            },
        }
    }

    fn span(&self) -> (s: Span) {
        Self::chain_span(&self.binary_operation)
    }
}

impl Relational {
    /// The span of a chain: from its first element to its last.
    fn chain_span(chain: &BinaryOperation<Add>) -> (s: Span)
        ensures
            s == relational_span(Self::chain_model(*chain)),
        decreases chain,
    {
        match chain {
            BinaryOperation::Single(element) => element.span(),
            BinaryOperation::Binary { operator, left, right } => left.span().plus(
                &Self::chain_span(right),
            ),
        }
    }
}

} // verus!
